//! What the terminal says, before it is put into the reader's language.
//!
//! A phrase names an entry of the message catalogue and the values that go into it.
//! Turning it into text is the catalogue's business.

use vstd::prelude::*;

use crate::duplicate::Duplicate;
use crate::text;
use crate::text::text_eq;

verus! {

/// A value that goes into a phrase.
#[derive(Debug, PartialEq, Eq)]
pub enum PhraseArg {
    /// Text as it stands.
    Text(String),
    /// Another entry of the catalogue, without values of its own.
    Entry { key: &'static str, fallback: &'static str },
}

/// A value of a phrase as plain values.
#[verifier::ext_equal]
pub enum PhraseArgView {
    Text(Seq<char>),
    Entry { key: Seq<char>, fallback: Seq<char> },
}

impl View for PhraseArg {
    type V = PhraseArgView;

    open spec fn view(&self) -> PhraseArgView {
        match self {
            PhraseArg::Text(s) => PhraseArgView::Text(s@),
            PhraseArg::Entry { key, fallback } => PhraseArgView::Entry {
                key: key@,
                fallback: fallback@,
            },
        }
    }
}

impl Duplicate for PhraseArg {
    fn duplicate(&self) -> (r: Self) {
        match self {
            PhraseArg::Text(s) => PhraseArg::Text(s.clone()),
            PhraseArg::Entry { key, fallback } => PhraseArg::Entry {
                key: *key,
                fallback: *fallback,
            },
        }
    }
}

/// A named value of a phrase.
#[derive(Debug, PartialEq, Eq)]
pub struct PhraseSlot {
    pub name: &'static str,
    pub value: PhraseArg,
}

/// A named value as plain values.
#[verifier::ext_equal]
pub struct PhraseSlotView {
    pub name: Seq<char>,
    pub value: PhraseArgView,
}

impl View for PhraseSlot {
    type V = PhraseSlotView;

    open spec fn view(&self) -> PhraseSlotView {
        PhraseSlotView { name: self.name@, value: self.value@ }
    }
}

impl Duplicate for PhraseSlot {
    fn duplicate(&self) -> (r: Self) {
        PhraseSlot { name: self.name, value: self.value.duplicate() }
    }
}

/// An entry of the message catalogue, the values that go into it, and what to say
/// where the catalogue lacks it.
#[derive(Debug, PartialEq, Eq)]
pub struct Phrase {
    pub key: &'static str,
    pub slots: Vec<PhraseSlot>,
    pub fallback: &'static str,
}

/// A phrase as plain values.
#[verifier::ext_equal]
pub struct PhraseView {
    pub key: Seq<char>,
    pub slots: Seq<PhraseSlotView>,
    pub fallback: Seq<char>,
}

impl View for Phrase {
    type V = PhraseView;

    open spec fn view(&self) -> PhraseView {
        PhraseView {
            key: self.key@,
            slots: text::views(self.slots@),
            fallback: self.fallback@,
        }
    }
}

impl Duplicate for Phrase {
    fn duplicate(&self) -> (r: Self) {
        Phrase {
            key: self.key,
            slots: crate::duplicate::duplicate_all(&self.slots),
            fallback: self.fallback,
        }
    }
}

/// A phrase without values.
pub open spec fn said(key: Seq<char>, fallback: Seq<char>) -> PhraseView {
    PhraseView { key, slots: Seq::empty(), fallback }
}

/// A text that goes into a phrase under `name`.
pub open spec fn slot(name: Seq<char>, value: Seq<char>) -> PhraseSlotView {
    PhraseSlotView { name, value: PhraseArgView::Text(value) }
}

/// A phrase with values.
pub open spec fn said_with(key: Seq<char>, slots: Seq<PhraseSlotView>, fallback: Seq<char>) -> PhraseView {
    PhraseView { key, slots, fallback }
}

/// A phrase without values.
pub fn t(key: &'static str, fallback: &'static str) -> (r: Phrase)
    ensures
        r@ == said(key@, fallback@),
{
    let slots: Vec<PhraseSlot> = Vec::new();
    assert(text::views(slots@) =~= Seq::empty());
    Phrase { key, slots, fallback }
}

/// A text that goes into a phrase under `name`.
pub fn text_slot(name: &'static str, value: &str) -> (r: PhraseSlot)
    ensures
        r@ == slot(name@, value@),
{
    PhraseSlot { name, value: PhraseArg::Text(value.to_owned()) }
}

/// A phrase with values.
pub fn ta(key: &'static str, slots: Vec<PhraseSlot>, fallback: &'static str) -> (r: Phrase)
    ensures
        r@ == said_with(key@, text::views(slots@), fallback@),
{
    Phrase { key, slots, fallback }
}

/// A phrase with one text in it.
pub fn ta_one(key: &'static str, name: &'static str, value: &str, fallback: &'static str) -> (r:
    Phrase)
    ensures
        r@ == said_with(key@, seq![slot(name@, value@)], fallback@),
{
    let mut slots: Vec<PhraseSlot> = Vec::new();
    slots.push(text_slot(name, value));
    assert(text::views(slots@) =~= seq![slot(name@, value@)]);
    ta(key, slots, fallback)
}

/// A phrase with two texts in it.
pub fn ta_two(
    key: &'static str,
    name: &'static str,
    value: &str,
    other: &'static str,
    other_value: &str,
    fallback: &'static str,
) -> (r: Phrase)
    ensures
        r@ == said_with(
            key@,
            seq![slot(name@, value@), slot(other@, other_value@)],
            fallback@,
        ),
{
    let mut slots: Vec<PhraseSlot> = Vec::new();
    slots.push(text_slot(name, value));
    slots.push(text_slot(other, other_value));
    assert(text::views(slots@) =~= seq![slot(name@, value@), slot(other@, other_value@)]);
    ta(key, slots, fallback)
}

/// `phrase` has `part` among its values.
pub open spec fn names(phrase: PhraseView, part: PhraseView) -> bool {
    part.slots.len() == 0 && exists|i: int|
        0 <= i < phrase.slots.len() && (#[trigger] phrase.slots[i]).value == (
        PhraseArgView::Entry { key: part.key, fallback: part.fallback })
}

impl Phrase {
    /// Whether a phrase without values is among the values of this one.
    pub fn contains(&self, part: &Phrase) -> (r: bool)
        ensures
            r == names(self@, part@),
    {
        if part.slots.len() > 0 {
            return false;
        }
        let mut i: usize = 0;
        while i < self.slots.len()
            invariant
                i <= self.slots.len(),
                part@.slots.len() == 0,
                forall|j: int|
                    0 <= j < i ==> (#[trigger] self@.slots[j]).value != (PhraseArgView::Entry {
                        key: part@.key,
                        fallback: part@.fallback,
                    }),
            decreases self.slots.len() - i,
        {
            assert(self@.slots[i as int] == self.slots@[i as int]@);
            if let PhraseArg::Entry { key, fallback } = &self.slots[i].value {
                if text_eq(*key, part.key) && text_eq(*fallback, part.fallback) {
                    return true;
                }
            }
            i += 1;
        }
        false
    }
}

/// Something to show: text as it stands, or a phrase.
#[derive(Debug, PartialEq, Eq)]
pub enum Words {
    Plain(String),
    Phrase(Phrase),
}

/// Something to show as plain values.
#[verifier::ext_equal]
pub enum WordsView {
    Plain(Seq<char>),
    Phrase(PhraseView),
}

impl View for Words {
    type V = WordsView;

    open spec fn view(&self) -> WordsView {
        match self {
            Words::Plain(s) => WordsView::Plain(s@),
            Words::Phrase(p) => WordsView::Phrase(p@),
        }
    }
}

impl Duplicate for Words {
    fn duplicate(&self) -> (r: Self) {
        match self {
            Words::Plain(s) => Words::Plain(s.clone()),
            Words::Phrase(p) => Words::Phrase(p.duplicate()),
        }
    }
}

} // verus!
