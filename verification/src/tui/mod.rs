//! The swarm dashboard: what the terminal shows and what a key press does.
//!
//! Nothing here touches a terminal or a socket. Key presses and the daemon's answers
//! come in; what is to be drawn and which call is to be made go out.

use vstd::prelude::*;

pub mod client;
pub mod grid;
pub mod input;
pub mod phrase;
pub mod render;
pub mod state;
pub mod stream;
pub mod view;
pub mod wire;
pub mod wizard;

use client::CallError;
use phrase::{t, ta, ta_one, text_slot, Phrase, PhraseArg, PhraseArgView, PhraseSlot, PhraseSlotView, PhraseView, Words, WordsView};
use render::{budget_label, status_label};
use state::{App, Screen, ScreenView};
use wire::{Effect, EffectView, Update};

use crate::store::model::{PersistedSwarm, PersistedSwarmView};
use crate::text;
use crate::text::decimal;

verus! {

/// Turn a call's outcome into an update: success through `ok`, a daemon error into a
/// failure the reducer handles, a transport failure out to the caller.
pub fn fold<T, F: FnOnce(T) -> Update>(result: Result<T, CallError>, ok: F) -> (r: Result<
    Update,
    String,
>)
    requires
        result matches Ok(value) ==> ok.requires((value,)),
    ensures
        match result {
            Ok(value) => r matches Ok(update) && ok.ensures((value,), update),
            Err(CallError::Rpc(failure)) => r == Ok::<Update, String>(
                Update::Failed(failure),
            ),
            Err(CallError::Transport(error)) => r == Err::<Update, String>(error),
        },
{
    match result {
        Ok(value) => Ok(ok(value)),
        Err(CallError::Rpc(failure)) => Ok(Update::Failed(failure)),
        Err(CallError::Transport(error)) => Err(error),
    }
}

/// What a session asks for first: a supported daemon opens on its list, a degraded one
/// on the explanation.
pub fn opening_effect(app: &App) -> (r: Effect)
    ensures
        r@ == if app@.screen == ScreenView::Unsupported {
            EffectView::Idle
        } else {
            EffectView::List
        },
{
    match app.screen() {
        Screen::Unsupported => Effect::Idle,
        _ => Effect::List,
    }
}

/// What is said where there is no terminal to draw on.
pub fn needs_terminal() -> (r: Phrase)
    ensures
        r@ == phrase::said(
            "cli-swarm-needs-tty"@,
            "`zeroclaw swarm` needs a terminal. Use `zeroclaw swarm list` when output is piped."@,
        ),
{
    t(
        "cli-swarm-needs-tty",
        "`zeroclaw swarm` needs a terminal. Use `zeroclaw swarm list` when output is piped.",
    )
}

/// A value of a phrase that is a word or an entry of the catalogue.
pub open spec fn words_slot(name: Seq<char>, words: WordsView) -> PhraseSlotView {
    PhraseSlotView {
        name,
        value: match words {
            WordsView::Plain(s) => PhraseArgView::Text(s),
            WordsView::Phrase(p) => PhraseArgView::Entry { key: p.key, fallback: p.fallback },
        },
    }
}

/// One line of the plain listing.
pub open spec fn listing_line(swarm: PersistedSwarmView) -> PhraseView {
    phrase::said_with(
        "cli-swarm-list-row"@,
        seq![
            phrase::slot("swarm_id"@, swarm.spec.id),
            phrase::slot("name"@, swarm.spec.name),
            words_slot("status"@, WordsView::Phrase(render::status_phrase(swarm.run.status))),
            phrase::slot("boxes"@, text::numeral(swarm.spec.boxes.len())),
            words_slot("budget"@, render::budget_words(swarm.spec.budget)),
            phrase::slot("updated"@, swarm.updated_at),
        ],
        "swarm"@,
    )
}

fn make_words_slot(name: &'static str, words: Words) -> (r: PhraseSlot)
    ensures
        r@ == words_slot(name@, words@),
{
    PhraseSlot {
        name,
        value: match words {
            Words::Plain(s) => PhraseArg::Text(s),
            Words::Phrase(p) => PhraseArg::Entry { key: p.key, fallback: p.fallback },
        },
    }
}

fn list_line(swarm: &PersistedSwarm) -> (r: Phrase)
    ensures
        r@ == listing_line(swarm@),
{
    let boxes = decimal(swarm.spec.boxes.len() as u64);
    let mut slots: Vec<PhraseSlot> = Vec::new();
    slots.push(text_slot("swarm_id", swarm.spec.id.as_str()));
    slots.push(text_slot("name", swarm.spec.name.as_str()));
    slots.push(make_words_slot("status", Words::Phrase(status_label(swarm.run.status))));
    slots.push(text_slot("boxes", boxes.as_str()));
    slots.push(make_words_slot("budget", budget_label(swarm.spec.budget)));
    slots.push(text_slot("updated", swarm.updated_at.as_str()));
    let r = ta("cli-swarm-list-row", slots, "swarm");
    assert(r@.slots =~= listing_line(swarm@).slots);
    r
}

/// The plain listing: one line per swarm, or that there is none.
pub fn list_swarms(swarms: &Vec<PersistedSwarm>) -> (r: Vec<Phrase>)
    ensures
        text::views(r@) == if swarms.len() == 0 {
            seq![phrase::said("cli-swarm-list-empty"@, "No swarms stored."@)]
        } else {
            Seq::new(swarms@.len(), |i: int| listing_line(swarms@[i]@))
        },
{
    let mut out: Vec<Phrase> = Vec::new();
    if swarms.len() == 0 {
        out.push(t("cli-swarm-list-empty", "No swarms stored."));
        assert(text::views(out@) =~= seq![
            phrase::said("cli-swarm-list-empty"@, "No swarms stored."@),
        ]);
        return out;
    }
    let mut i: usize = 0;
    while i < swarms.len()
        invariant
            i <= swarms.len(),
            out.len() == i,
            forall|j: int| 0 <= j < i ==> (#[trigger] out@[j])@ == listing_line(swarms@[j]@),
        decreases swarms.len() - i,
    {
        out.push(list_line(&swarms[i]));
        i += 1;
    }
    assert(text::views(out@) =~= Seq::new(swarms@.len(), |i: int| listing_line(swarms@[i]@)));
    out
}

/// What is said of a deletion: done, or that there was nothing to delete.
pub fn delete_message(swarm_id: &str, deleted: bool) -> (r: Phrase)
    ensures
        r@ == phrase::said_with(
            if deleted {
                "cli-swarm-deleted"@
            } else {
                "cli-swarm-delete-absent"@
            },
            seq![phrase::slot("swarm_id"@, swarm_id@)],
            "Deleted."@,
        ),
{
    let key = if deleted {
        "cli-swarm-deleted"
    } else {
        "cli-swarm-delete-absent"
    };
    ta_one(key, "swarm_id", swarm_id, "Deleted.")
}

/// A line of the listing tells the swarm's id, name, number of boxes and when it was last
/// written, and how it stands; each under its own name.
pub proof fn what_a_listing_line_tells(swarm: PersistedSwarmView)
    ensures
        ({
            let line = listing_line(swarm);
            &&& line.slots.len() == 6
            &&& line.slots[0].name == "swarm_id"@ && line.slots[0].value == PhraseArgView::Text(
                swarm.spec.id,
            )
            &&& line.slots[1].name == "name"@ && line.slots[1].value == PhraseArgView::Text(
                swarm.spec.name,
            )
            &&& line.slots[2].name == "status"@
            &&& line.slots[3].name == "boxes"@ && line.slots[3].value == PhraseArgView::Text(
                text::numeral(swarm.spec.boxes.len()),
            )
            &&& line.slots[4].name == "budget"@
            &&& line.slots[5].name == "updated"@ && line.slots[5].value == PhraseArgView::Text(
                swarm.updated_at,
            )
        }),
{
}

} // verus!
