//! The creation wizard's draft.
//!
//! Every step but the first is what the daemon returned: the shapes carry their own
//! order, titles, help and controls. Two things are known here besides: which answers
//! a submission consumes, and how the boundedness answers fold into a budget.

use vstd::prelude::*;

use super::input::{Direction, Input};
use super::phrase;
use super::phrase::{t, Words, WordsView};
use super::wire::{Effect, EffectView, SwarmValidateResult, VerdictView};
use crate::duplicate;
use crate::duplicate::{duplicate_all, Duplicate};
use crate::store;
use crate::store::model;
use crate::store::model::{SwarmBudget, SwarmBudgetLimits, SwarmBudgetPreset};
use crate::strmap::StrMap;
use crate::text;
use crate::text::{chars_of, parse_unsigned, position, text_eq, trim};
use crate::usd;
use crate::usd::Usd;
use crate::wizard::{
    FieldDescriptor, FieldView, ProblemView, PropKind, StepShapeView, SubmissionView,
    SwarmStepShape, SwarmSubmission, SwarmValidationError, SwarmWizardStep, BUDGET_CUSTOM,
};

verus! {

/// The one answer that no step of the daemon asks for.
pub const NAME_KEY: &'static str = "name";

/// An answer that the submission has a home for.
pub open spec fn submission_key(key: Seq<char>) -> bool {
    ||| key == "name"@
    ||| key == "provider"@
    ||| key == "model"@
    ||| key == "risk_profile"@
    ||| key == "budget_preset"@
    ||| key == "max_turns"@
    ||| key == "max_tokens"@
    ||| key == "max_cost_usd"@
    ||| key == "channels"@
    ||| key == "role"@
    ||| key == "goal"@
}

/// One of the three ceilings of a custom budget.
pub open spec fn custom_budget_field(key: Seq<char>) -> bool {
    key == "max_turns"@ || key == "max_tokens"@ || key == "max_cost_usd"@
}

fn is_submission_key(key: &str) -> (r: bool)
    ensures
        r == submission_key(key@),
{
    text_eq(key, "name") || text_eq(key, "provider") || text_eq(key, "model") || text_eq(
        key,
        "risk_profile",
    ) || text_eq(key, "budget_preset") || text_eq(key, "max_turns") || text_eq(key, "max_tokens")
        || text_eq(key, "max_cost_usd") || text_eq(key, "channels") || text_eq(key, "role")
        || text_eq(key, "goal")
}

fn is_custom_budget_field(key: &str) -> (r: bool)
    ensures
        r == custom_budget_field(key@),
{
    text_eq(key, "max_turns") || text_eq(key, "max_tokens") || text_eq(key, "max_cost_usd")
}

/// One rendered step.
#[derive(Debug, PartialEq, Eq)]
pub struct WizardStep {
    /// The daemon's step, or `None` for the name step. Validation errors carry the
    /// same shape, so routing an error to a step is a direct comparison.
    pub step: Option<SwarmWizardStep>,
    pub title: Words,
    pub help: Words,
    pub fields: Vec<FieldDescriptor>,
}

/// A step as plain values.
#[verifier::ext_equal]
pub struct WizardStepView {
    pub step: Option<SwarmWizardStep>,
    pub title: WordsView,
    pub help: WordsView,
    pub fields: Seq<FieldView>,
}

impl View for WizardStep {
    type V = WizardStepView;

    open spec fn view(&self) -> WizardStepView {
        WizardStepView {
            step: self.step,
            title: self.title@,
            help: self.help@,
            fields: text::views(self.fields@),
        }
    }
}

/// The step that asks for the name.
pub open spec fn name_step() -> WizardStepView {
    WizardStepView {
        step: None,
        title: WordsView::Phrase(phrase::said("cli-swarm-wizard-name-title"@, "Name"@)),
        help: WordsView::Phrase(
            phrase::said(
                "cli-swarm-wizard-name-help"@,
                "What this swarm is called in the dashboard."@,
            ),
        ),
        fields: seq![
            FieldView {
                key: NAME_KEY@,
                label: NAME_KEY@,
                help: ""@,
                kind: PropKind::String,
                is_secret: false,
                enum_variants: None,
                required: true,
                default: None,
            },
        ],
    }
}

/// A step of the daemon.
pub open spec fn daemon_step(shape: StepShapeView) -> WizardStepView {
    WizardStepView {
        step: Some(shape.step),
        title: WordsView::Plain(shape.title),
        help: WordsView::Plain(shape.help),
        fields: shape.fields,
    }
}

impl WizardStep {
    fn name_step() -> (r: Self)
        ensures
            r@ == name_step(),
    {
        let mut fields: Vec<FieldDescriptor> = Vec::new();
        fields.push(
            FieldDescriptor {
                key: NAME_KEY.to_owned(),
                label: NAME_KEY.to_owned(),
                help: "".to_owned(),
                kind: PropKind::String,
                is_secret: false,
                enum_variants: None,
                required: true,
                default: None,
            },
        );
        assert(text::views(fields@) =~= name_step().fields);
        WizardStep {
            step: None,
            title: Words::Phrase(t("cli-swarm-wizard-name-title", "Name")),
            help: Words::Phrase(
                t("cli-swarm-wizard-name-help", "What this swarm is called in the dashboard."),
            ),
            fields,
        }
    }
}

/// What the wizard wants done after an input.
#[derive(Debug, PartialEq, Eq)]
pub enum WizardAction {
    /// Redraw; nothing to ask the daemon.
    Idle,
    /// Abandon the draft and go back to the dashboard.
    Leave,
    /// Issue a call.
    Call(Effect),
}

/// What is wanted, as plain values.
#[verifier::ext_equal]
pub enum WizardActionView {
    Idle,
    Leave,
    Call(EffectView),
}

impl View for WizardAction {
    type V = WizardActionView;

    open spec fn view(&self) -> WizardActionView {
        match self {
            WizardAction::Idle => WizardActionView::Idle,
            WizardAction::Leave => WizardActionView::Leave,
            WizardAction::Call(e) => WizardActionView::Call(e@),
        }
    }
}

/// The draft being authored: the steps, the answers so far, and where the cursor is.
#[derive(Debug)]
pub struct WizardState {
    steps: Vec<WizardStep>,
    current: usize,
    /// Index into the current step's editable fields.
    field: usize,
    answers: StrMap<String>,
    errors: Vec<SwarmValidationError>,
    /// The provider the steps were fetched for.
    fetched_provider: Option<String>,
    /// A validation is in flight for a submit.
    awaiting_submit: bool,
}

/// A draft as plain values.
#[verifier::ext_equal]
pub struct WizardView {
    pub steps: Seq<WizardStepView>,
    pub current: nat,
    pub field: nat,
    pub answers: Map<Seq<char>, Seq<char>>,
    pub errors: Seq<ProblemView>,
    pub fetched_provider: Option<Seq<char>>,
    pub awaiting_submit: bool,
}

impl View for WizardState {
    type V = WizardView;

    closed spec fn view(&self) -> WizardView {
        WizardView {
            steps: text::views(self.steps@),
            current: self.current as nat,
            field: self.field as nat,
            answers: self.answers@,
            errors: text::views(self.errors@),
            fetched_provider: duplicate::opt_view(self.fetched_provider),
            awaiting_submit: self.awaiting_submit,
        }
    }
}

// ── What a draft shows ──────────────────────────────────────────────

/// The fields among the first `n` that are shown; the ceilings only with `custom`.
pub open spec fn shown_fields(fields: Seq<FieldView>, custom: bool, n: int) -> Seq<FieldView>
    decreases n,
{
    if n <= 0 {
        Seq::empty()
    } else {
        let earlier = shown_fields(fields, custom, n - 1);
        if custom || !custom_budget_field(fields[n - 1].key) {
            earlier.push(fields[n - 1])
        } else {
            earlier
        }
    }
}

/// The fields among the first `n` that can be answered.
pub open spec fn answerable_fields(fields: Seq<FieldView>, custom: bool, n: int) -> Seq<FieldView>
    decreases n,
{
    if n <= 0 {
        Seq::empty()
    } else {
        let earlier = answerable_fields(fields, custom, n - 1);
        if (custom || !custom_budget_field(fields[n - 1].key)) && submission_key(
            fields[n - 1].key,
        ) {
            earlier.push(fields[n - 1])
        } else {
            earlier
        }
    }
}

/// The field's value is picked out of a closed set. The variants of a list field are
/// suggestions.
pub open spec fn picks(field: FieldView) -> bool {
    field.kind != PropKind::StringArray && (field.enum_variants matches Some(v) && v.len() > 0)
}

/// `answers` with the defaults of the first `n` fields where there is no answer yet.
pub open spec fn seeded_fields(
    answers: Map<Seq<char>, Seq<char>>,
    fields: Seq<FieldView>,
    n: int,
) -> Map<Seq<char>, Seq<char>>
    decreases n,
{
    if n <= 0 {
        answers
    } else {
        let earlier = seeded_fields(answers, fields, n - 1);
        match fields[n - 1].default {
            Some(default) => if earlier.contains_key(fields[n - 1].key) {
                earlier
            } else {
                earlier.insert(fields[n - 1].key, default)
            },
            None => earlier,
        }
    }
}

/// `answers` with the defaults of the first `n` steps where there is no answer yet.
pub open spec fn seeded(
    answers: Map<Seq<char>, Seq<char>>,
    steps: Seq<WizardStepView>,
    n: int,
) -> Map<Seq<char>, Seq<char>>
    decreases n,
{
    if n <= 0 {
        answers
    } else {
        seeded_fields(
            seeded(answers, steps, n - 1),
            steps[n - 1].fields,
            steps[n - 1].fields.len() as int,
        )
    }
}

/// The parts of a comma-separated list, trimmed, without blanks.
pub open spec fn listed(s: Seq<char>) -> Seq<Seq<char>>
    decreases s.len(),
{
    let k = text::first_of(s, ',', ',');
    proof {
        text::first_of_bounds(s, ',', ',');
    }
    if k < s.len() {
        let head = text::trimmed(s.take(k));
        let rest = listed(s.skip(k + 1));
        if head.len() == 0 {
            rest
        } else {
            seq![head] + rest
        }
    } else {
        let head = text::trimmed(s);
        if head.len() == 0 {
            Seq::empty()
        } else {
            seq![head]
        }
    }
}

/// A ceiling as it is submitted: zero where it cannot be read.
pub open spec fn ceiling(s: Seq<char>, max: nat) -> nat {
    match text::parsed_unsigned(text::trimmed(s), max) {
        Some(n) => n,
        None => 0,
    }
}

/// The preset that goes by a name, or the default one.
pub open spec fn preset_named(name: Seq<char>) -> SwarmBudgetPreset {
    if name == SwarmBudgetPreset::Quick.name() {
        SwarmBudgetPreset::Quick
    } else if name == SwarmBudgetPreset::Marathon.name() {
        SwarmBudgetPreset::Marathon
    } else {
        SwarmBudgetPreset::Standard
    }
}

impl WizardView {
    /// The answer to a key; nothing where there is none yet.
    pub open spec fn answer(self, key: Seq<char>) -> Seq<char> {
        if self.answers.contains_key(key) {
            self.answers[key]
        } else {
            ""@
        }
    }

    /// The fields of the current step.
    pub open spec fn fields(self) -> Seq<FieldView> {
        if self.current < self.steps.len() {
            self.steps[self.current as int].fields
        } else {
            Seq::empty()
        }
    }

    /// The preset picker says that the ceilings are given one by one.
    pub open spec fn custom(self) -> bool {
        self.answer("budget_preset"@) == BUDGET_CUSTOM@
    }

    /// The rows to draw for the current step.
    pub open spec fn shown(self) -> Seq<FieldView> {
        shown_fields(self.fields(), self.custom(), self.fields().len() as int)
    }

    /// The rows of the current step that can be answered.
    pub open spec fn editable(self) -> Seq<FieldView> {
        answerable_fields(self.fields(), self.custom(), self.fields().len() as int)
    }

    /// The field that the cursor is on.
    pub open spec fn focused(self) -> Option<FieldView> {
        if self.field < self.editable().len() {
            Some(self.editable()[self.field as int])
        } else {
            None
        }
    }

    /// With the cursor back on a row.
    pub open spec fn clamped(self) -> WizardView {
        let len = self.editable().len();
        if self.field >= len {
            WizardView {
                field: if len == 0 {
                    0
                } else {
                    (len - 1) as nat
                },
                ..self
            }
        } else {
            self
        }
    }

    /// With new steps from the daemon: the name step, every answer and the position
    /// are kept.
    pub open spec fn merged(
        self,
        shapes: Seq<StepShapeView>,
        provider: Option<Seq<char>>,
    ) -> WizardView {
        let kept = if self.steps.len() > 1 {
            self.steps.take(1)
        } else {
            self.steps
        };
        let steps = kept + Seq::new(shapes.len(), |i: int| daemon_step(shapes[i]));
        WizardView {
            steps,
            answers: seeded(self.answers, steps, steps.len() as int),
            fetched_provider: provider,
            current: if self.current < steps.len() {
                self.current
            } else if steps.len() == 0 {
                0
            } else {
                (steps.len() - 1) as nat
            },
            ..self
        }.clamped()
    }

    /// A draft that nothing has been answered in.
    pub open spec fn blank(shapes: Seq<StepShapeView>) -> WizardView {
        WizardView {
            steps: seq![name_step()],
            current: 0,
            field: 0,
            answers: Map::empty(),
            errors: Seq::empty(),
            fetched_provider: None,
            awaiting_submit: false,
        }.merged(shapes, None)
    }

    /// The budget that the boundedness answers make up.
    pub open spec fn budget(self) -> SwarmBudget {
        let preset = text::trimmed(self.answer("budget_preset"@));
        if preset == BUDGET_CUSTOM@ {
            SwarmBudget::Custom(
                SwarmBudgetLimits {
                    max_turns: ceiling(self.answer("max_turns"@), u32::MAX as nat) as u32,
                    max_tokens: ceiling(self.answer("max_tokens"@), u64::MAX as nat) as u64,
                    max_cost_usd: Usd {
                        micros: usd::amount_micros(
                            text::trimmed(self.answer("max_cost_usd"@)),
                        ) as u64,
                    },
                },
            )
        } else {
            SwarmBudget::Preset(preset_named(preset))
        }
    }

    /// The draft as the daemon takes it.
    pub open spec fn submission(self) -> SubmissionView {
        SubmissionView {
            swarm_id: None,
            name: text::trimmed(self.answer(NAME_KEY@)),
            provider: text::trimmed(self.answer("provider"@)),
            model: text::trimmed(self.answer("model"@)),
            risk_profile: text::trimmed(self.answer("risk_profile"@)),
            budget: self.budget(),
            channels: listed(self.answer("channels"@)),
            role: text::trimmed(self.answer("role"@)),
            goal: text::trimmed(self.answer("goal"@)),
            boxes: None,
        }
    }

    /// The provider that the steps are stale against, if leaving the step changed it.
    pub open spec fn stale_provider(self) -> Option<Seq<char>> {
        let chosen = text::trimmed(self.answer("provider"@));
        if (exists|i: int| 0 <= i < self.fields().len() && (#[trigger] self.fields()[i]).key
            == "provider"@) && chosen.len() > 0 && self.fetched_provider != Some(chosen) {
            Some(chosen)
        } else {
            None
        }
    }

    // ── What an input does ──────────────────────────────────────────

    /// One step back; off the first step the draft is left.
    pub open spec fn back(self) -> (WizardView, WizardActionView) {
        if self.current == 0 {
            (self, WizardActionView::Leave)
        } else {
            (
                WizardView { current: (self.current - 1) as nat, field: 0, ..self },
                WizardActionView::Idle,
            )
        }
    }

    /// One step on; off the last step the draft is validated to be submitted.
    pub open spec fn advance(self) -> (WizardView, WizardActionView) {
        if self.current + 1 >= self.steps.len() {
            (
                WizardView { awaiting_submit: true, ..self },
                WizardActionView::Call(EffectView::Validate(self.submission())),
            )
        } else {
            (
                WizardView { current: self.current + 1, field: 0, ..self },
                match self.stale_provider() {
                    Some(provider) => WizardActionView::Call(
                        EffectView::Fields { provider: Some(provider) },
                    ),
                    None => WizardActionView::Idle,
                },
            )
        }
    }

    /// With the cursor one row on.
    pub open spec fn moved(self, direction: Direction) -> WizardView {
        WizardView { field: direction.wrapped(self.field, self.editable().len()), ..self }
    }

    /// The next choice of a picker. An answer outside the set lands on the first one.
    pub open spec fn next_choice(self, field: FieldView, direction: Direction) -> Seq<char> {
        let variants = field.enum_variants->0;
        let at = self.answer(field.key);
        if variants.contains(at) {
            variants[direction.wrapped(
                text::first_index(variants, at) as nat,
                variants.len(),
            ) as int]
        } else {
            variants[0]
        }
    }

    /// Up or down: a picker's next choice where the cursor is on one, the next row
    /// elsewhere.
    pub open spec fn vertical(self, direction: Direction) -> WizardView {
        match self.focused() {
            Some(field) => if picks(field) {
                WizardView {
                    answers: self.answers.insert(field.key, self.next_choice(field, direction)),
                    ..self
                }.clamped()
            } else {
                self.moved(direction)
            },
            None => self.moved(direction),
        }
    }

    /// With the answer that is typed in replaced, where the cursor is on a field that
    /// takes typing.
    pub open spec fn typed(self, edit: Edit) -> WizardView {
        match self.focused() {
            Some(field) => if picks(field) {
                self
            } else {
                WizardView {
                    answers: self.answers.insert(
                        field.key,
                        edit.applied(self.answer(field.key)),
                    ),
                    ..self
                }
            },
            None => self,
        }
    }

    /// What an input does.
    pub open spec fn on_input(self, input: Input) -> (WizardView, WizardActionView) {
        match input {
            Input::Escape => self.back(),
            Input::Enter => self.advance(),
            Input::Tab => (self.moved(Direction::Forward), WizardActionView::Idle),
            Input::BackTab => (self.moved(Direction::Backward), WizardActionView::Idle),
            Input::Up => (self.vertical(Direction::Backward), WizardActionView::Idle),
            Input::Down => (self.vertical(Direction::Forward), WizardActionView::Idle),
            Input::Backspace => (self.typed(Edit::Erase), WizardActionView::Idle),
            Input::Char(c) => (self.typed(Edit::Type(c)), WizardActionView::Idle),
            Input::Left => (self, WizardActionView::Idle),
            Input::Right => (self, WizardActionView::Idle),
            Input::Interrupt => (self, WizardActionView::Leave),
        }
    }

    /// The steps that the errors can be routed to.
    pub open spec fn tags(self) -> Seq<Option<SwarmWizardStep>> {
        Seq::new(self.steps.len(), |i: int| self.steps[i].step)
    }

    /// What the daemon's verdict does: an accepted draft that was waiting to be
    /// submitted is created, and a rejected one goes back to the first bad step.
    pub open spec fn on_validation(self, verdict: VerdictView) -> (WizardView, WizardActionView) {
        match verdict {
            VerdictView::Accepted => {
                let clean = WizardView { errors: Seq::empty(), ..self };
                if self.awaiting_submit {
                    (
                        WizardView { awaiting_submit: false, ..clean },
                        WizardActionView::Call(EffectView::Create(self.submission())),
                    )
                } else {
                    (clean, WizardActionView::Idle)
                }
            },
            VerdictView::Errors { errors } => {
                let rejected = WizardView { errors, awaiting_submit: false, ..self };
                (
                    if errors.len() > 0 && self.tags().contains(errors[0].step) {
                        WizardView {
                            current: text::first_index(self.tags(), errors[0].step) as nat,
                            field: 0,
                            ..rejected
                        }
                    } else {
                        rejected
                    },
                    WizardActionView::Idle,
                )
            },
        }
    }
}

/// A change to a line of text.
#[derive(Debug, Clone, Copy, PartialEq, Eq, Structural)]
pub enum Edit {
    /// Append a character.
    Type(char),
    /// Remove the last character.
    Erase,
}

impl Edit {
    /// The line after the change.
    pub open spec fn applied(self, line: Seq<char>) -> Seq<char> {
        match self {
            Edit::Type(c) => line.push(c),
            Edit::Erase => if line.len() > 0 {
                line.drop_last()
            } else {
                line
            },
        }
    }

    /// Changes a line.
    pub fn apply(self, line: &mut String)
        ensures
            final(line)@ == self.applied(old(line)@),
    {
        match self {
            Edit::Type(c) => {
                line.push(c);
            },
            Edit::Erase => {
                let _ = line.pop();
            },
        }
    }
}


/// Split a comma-separated list. Blanks are dropped, so that a trailing comma is not
/// an empty alias.
pub fn split_list(raw: &str) -> (r: Vec<String>)
    ensures
        text::views(r@) == listed(raw@),
{
    let ghost whole = raw@;
    let n: usize = raw.unicode_len();
    let chars = chars_of(raw);
    let mut out: Vec<String> = Vec::new();
    let mut start: usize = 0;
    assert(whole.skip(0) =~= whole);
    assert(text::views(out@) + listed(whole) =~= listed(whole));
    loop
        invariant
            start <= n,
            n == whole.len(),
            whole == raw@,
            chars@ == whole,
            text::views(out@) + listed(whole.skip(start as int)) == listed(whole),
        decreases n - start,
    {
        let ghost tail = whole.skip(start as int);
        let mut k: usize = start;
        while k < n && chars[k] != ','
            invariant
                start <= k <= n,
                n == whole.len(),
                chars@ == whole,
                forall|j: int| start <= j < k ==> whole[j] != ',',
            decreases n - k,
        {
            k += 1;
        }
        proof {
            assert forall|j: int| 0 <= j < k - start implies tail[j] != ',' by {
                assert(whole[start + j] != ',');
            }
            text::first_of_at(tail, ',', ',', k - start);
            assert(tail.take(k - start) =~= whole.subrange(start as int, k as int));
            if k < n {
                assert(tail.skip(k - start + 1) =~= whole.skip(k + 1));
            } else {
                assert(tail =~= whole.subrange(start as int, k as int));
            }
        }
        let ghost before = text::views(out@);
        let part = raw.substring_char(start, k);
        let kept = trim(part);
        let ghost head = kept@;
        if !kept.is_empty() {
            out.push(kept.to_owned());
            assert(text::views(out@) =~= before.push(head));
        }
        if k >= n {
            assert(text::views(out@) =~= before + listed(tail));
            return out;
        }
        assert(text::views(out@) + listed(whole.skip(k + 1)) =~= before + listed(tail));
        start = k + 1;
    }
}

fn same_step(a: Option<SwarmWizardStep>, b: Option<SwarmWizardStep>) -> (r: bool)
    ensures
        r == (a == b),
{
    match (a, b) {
        (Some(x), Some(y)) => x == y,
        (None, None) => true,
        _ => false,
    }
}

impl WizardState {
    /// Start a draft from the daemon's steps.
    pub fn new(steps: Vec<SwarmStepShape>) -> (r: Self)
        ensures
            r@ == WizardView::blank(text::views(steps@)),
    {
        let mut first: Vec<WizardStep> = Vec::new();
        first.push(WizardStep::name_step());
        let mut state = WizardState {
            steps: first,
            current: 0,
            field: 0,
            answers: StrMap::new(),
            errors: Vec::new(),
            fetched_provider: None,
            awaiting_submit: false,
        };
        assert(state@.steps =~= seq![name_step()]);
        assert(state@.errors =~= Seq::empty());
        state.merge_steps(steps, None);
        state
    }

    /// Replace the daemon's steps, keeping the name step, every answer already given,
    /// and the cursor.
    pub fn merge_steps(&mut self, steps: Vec<SwarmStepShape>, provider: Option<String>)
        ensures
            final(self)@ == old(self)@.merged(text::views(steps@), duplicate::opt_view(provider)),
    {
        let ghost shapes = text::views(steps@);
        let ghost given = steps@;
        let ghost kept = if self@.steps.len() > 1 {
            self@.steps.take(1)
        } else {
            self@.steps
        };
        self.steps.truncate(1);
        assert(self@.steps =~= kept);
        let ghost base = self@;
        let mut rest = steps;
        assert(rest@ =~= given.skip(0));
        assert(self@.steps =~= kept + Seq::new(0, |i: int| daemon_step(shapes[i])));
        let ghost mut k: int = 0;
        while rest.len() > 0
            invariant
                0 <= k <= shapes.len(),
                shapes == text::views(given),
                rest@ == given.skip(k),
                self@ == (WizardView {
                    steps: kept + Seq::new(k as nat, |i: int| daemon_step(shapes[i])),
                    ..base
                }),
            decreases rest.len(),
        {
            let shape = rest.remove(0);
            assert(shape == given[k]);
            let ghost before = self@.steps;
            self.steps.push(
                WizardStep {
                    step: Some(shape.step),
                    title: Words::Plain(shape.title),
                    help: Words::Plain(shape.help),
                    fields: shape.fields,
                },
            );
            proof {
                assert(self@.steps =~= before.push(daemon_step(shapes[k])));
                assert(self@.steps =~= kept + Seq::new(
                    (k + 1) as nat,
                    |i: int| daemon_step(shapes[i]),
                ));
                assert(rest@ =~= given.skip(k + 1));
                k = k + 1;
            }
        }
        self.fetched_provider = provider;
        self.seed_defaults();
        if self.current >= self.steps.len() {
            self.current = if self.steps.len() == 0 {
                0
            } else {
                self.steps.len() - 1
            };
        }
        self.clamp_field();
    }

    /// Fill in every default that has no answer yet, so that a step opens on a valid
    /// choice rather than empty.
    fn seed_defaults(&mut self)
        ensures
            final(self)@ == (WizardView {
                answers: seeded(
                    old(self)@.answers,
                    old(self)@.steps,
                    old(self)@.steps.len() as int,
                ),
                ..old(self)@
            }),
    {
        let ghost first = self@;
        let mut i: usize = 0;
        while i < self.steps.len()
            invariant
                i <= self.steps.len(),
                first.steps.len() == self.steps.len(),
                self@ == (WizardView { answers: seeded(first.answers, first.steps, i as int), ..first }),
            decreases self.steps.len() - i,
        {
            let ghost before = seeded(first.answers, first.steps, i as int);
            let ghost fields = first.steps[i as int].fields;
            assert(self.steps@[i as int]@ == first.steps[i as int]);
            let mut j: usize = 0;
            while j < self.steps[i].fields.len()
                invariant
                    i < self.steps.len(),
                    j <= self.steps@[i as int].fields.len(),
                    self.steps@[i as int]@ == first.steps[i as int],
                    fields == first.steps[i as int].fields,
                    fields.len() == self.steps@[i as int].fields.len(),
                    self@ == (WizardView {
                        answers: seeded_fields(before, fields, j as int),
                        ..first
                    }),
                decreases self.steps@[i as int].fields.len() - j,
            {
                let field = &self.steps[i].fields[j];
                assert(field@ == fields[j as int]);
                if let Some(default) = &field.default {
                    if !self.answers.contains_key(field.key.as_str()) {
                        let key = field.key.clone();
                        let value = default.clone();
                        self.answers.insert(key, value);
                    }
                }
                j += 1;
            }
            i += 1;
        }
    }

    // ── Read side ───────────────────────────────────────────────────

    /// The steps, in order.
    pub fn steps(&self) -> (r: &Vec<WizardStep>)
        ensures
            text::views(r@) == self@.steps,
    {
        &self.steps
    }

    /// The position among the steps.
    pub fn current_index(&self) -> (r: usize)
        ensures
            r == self@.current,
    {
        self.current
    }

    /// The step that is open.
    pub fn current_step(&self) -> (r: Option<&WizardStep>)
        ensures
            match r {
                Some(step) => self@.current < self@.steps.len() && step@
                    == self@.steps[self@.current as int],
                None => self@.current >= self@.steps.len(),
            },
    {
        if self.current < self.steps.len() {
            assert(self@.steps[self.current as int] == self.steps@[self.current as int]@);
            Some(&self.steps[self.current])
        } else {
            None
        }
    }

    /// The row that the cursor is on.
    pub fn field_index(&self) -> (r: usize)
        ensures
            r == self@.field,
    {
        self.field
    }

    /// The answer to a key; empty where there is none yet.
    pub fn answer(&self, key: &str) -> (r: &str)
        ensures
            r@ == self@.answer(key@),
    {
        match self.answers.get(key) {
            Some(value) => value.as_str(),
            None => "",
        }
    }

    /// Every error, in the daemon's order.
    pub fn errors(&self) -> (r: &Vec<SwarmValidationError>)
        ensures
            text::views(r@) == self@.errors,
    {
        &self.errors
    }

    /// The messages about one field, in the daemon's order.
    pub fn field_errors(&self, key: &str) -> (r: Vec<&str>)
        ensures
            text::views(r@) == messages_about(self@.errors, key@, self@.errors.len() as int),
    {
        let mut out: Vec<&str> = Vec::new();
        let ghost errors = self@.errors;
        let mut i: usize = 0;
        assert(text::views(out@) =~= messages_about(errors, key@, 0));
        while i < self.errors.len()
            invariant
                i <= self.errors.len(),
                errors == text::views(self.errors@),
                text::views(out@) == messages_about(errors, key@, i as int),
            decreases self.errors.len() - i,
        {
            let ghost before = out@;
            let error = &self.errors[i];
            assert(error@ == errors[i as int]);
            if text_eq(error.field.as_str(), key) {
                out.push(error.message.as_str());
                assert(text::views(out@) =~= text::views(before).push(error@.message));
            }
            i += 1;
        }
        out
    }

    /// A submission is in flight.
    pub fn awaiting_submit(&self) -> (r: bool)
        ensures
            r == self@.awaiting_submit,
    {
        self.awaiting_submit
    }

    fn is_custom(&self) -> (r: bool)
        ensures
            r == self@.custom(),
    {
        text_eq(self.answer("budget_preset"), BUDGET_CUSTOM)
    }

    /// The rows to draw for the current step, in the daemon's order.
    pub fn visible_fields(&self) -> (r: Vec<&FieldDescriptor>)
        ensures
            text::views(r@) == self@.shown(),
    {
        let mut out: Vec<&FieldDescriptor> = Vec::new();
        let custom = self.is_custom();
        let ghost fields = self@.fields();
        assert(text::views(out@) =~= shown_fields(fields, custom, 0));
        if let Some(step) = self.current_step() {
            let mut i: usize = 0;
            while i < step.fields.len()
                invariant
                    i <= step.fields.len(),
                    fields == text::views(step.fields@),
                    text::views(out@) == shown_fields(fields, custom, i as int),
                decreases step.fields.len() - i,
            {
                let ghost before = out@;
                let field = &step.fields[i];
                assert(field@ == fields[i as int]);
                if custom || !is_custom_budget_field(field.key.as_str()) {
                    out.push(field);
                    assert(text::views(out@) =~= text::views(before).push(field@));
                }
                i += 1;
            }
        }
        out
    }

    /// The rows the author can put a cursor on: the visible rows that the submission
    /// actually consumes.
    pub fn editable_fields(&self) -> (r: Vec<&FieldDescriptor>)
        ensures
            text::views(r@) == self@.editable(),
    {
        let mut out: Vec<&FieldDescriptor> = Vec::new();
        let custom = self.is_custom();
        let ghost fields = self@.fields();
        assert(text::views(out@) =~= answerable_fields(fields, custom, 0));
        if let Some(step) = self.current_step() {
            let mut i: usize = 0;
            while i < step.fields.len()
                invariant
                    i <= step.fields.len(),
                    fields == text::views(step.fields@),
                    text::views(out@) == answerable_fields(fields, custom, i as int),
                decreases step.fields.len() - i,
            {
                let ghost before = out@;
                let field = &step.fields[i];
                assert(field@ == fields[i as int]);
                if (custom || !is_custom_budget_field(field.key.as_str())) && is_submission_key(
                    field.key.as_str(),
                ) {
                    out.push(field);
                    assert(text::views(out@) =~= text::views(before).push(field@));
                }
                i += 1;
            }
        }
        out
    }

    /// A field the submission has no home for: shown for context and skipped by the
    /// cursor, so that no value is collected that would be dropped.
    pub fn is_advisory(field: &FieldDescriptor) -> (r: bool)
        ensures
            r == !submission_key(field@.key),
    {
        !is_submission_key(field.key.as_str())
    }

    fn focused(&self) -> (r: Option<&FieldDescriptor>)
        ensures
            store::ref_view(r) == self@.focused(),
    {
        let fields = self.editable_fields();
        if self.field < fields.len() {
            assert(self@.editable()[self.field as int] == fields@[self.field as int]@);
            Some(fields[self.field])
        } else {
            None
        }
    }

    // ── Write side ──────────────────────────────────────────────────

    /// Takes an input.
    pub fn on_input(&mut self, input: Input) -> (r: WizardAction)
        ensures
            (final(self)@, r@) == old(self)@.on_input(input),
    {
        match input {
            Input::Escape => self.back(),
            Input::Enter => self.advance(),
            Input::Tab => {
                self.move_field(Direction::Forward);
                WizardAction::Idle
            },
            Input::BackTab => {
                self.move_field(Direction::Backward);
                WizardAction::Idle
            },
            Input::Up => {
                self.vertical(Direction::Backward);
                WizardAction::Idle
            },
            Input::Down => {
                self.vertical(Direction::Forward);
                WizardAction::Idle
            },
            Input::Backspace => {
                self.edit(Edit::Erase);
                WizardAction::Idle
            },
            Input::Char(c) => {
                self.edit(Edit::Type(c));
                WizardAction::Idle
            },
            Input::Left | Input::Right => WizardAction::Idle,
            Input::Interrupt => WizardAction::Leave,
        }
    }

    /// Takes the daemon's verdict on the draft.
    pub fn on_validation(&mut self, result: &SwarmValidateResult) -> (r: WizardAction)
        ensures
            (final(self)@, r@) == old(self)@.on_validation(result@),
    {
        match result {
            SwarmValidateResult::Accepted => {
                let submission = self.submission();
                self.errors = Vec::new();
                assert(self@.errors =~= Seq::empty());
                if self.awaiting_submit {
                    self.awaiting_submit = false;
                    WizardAction::Call(Effect::Create(Box::new(submission)))
                } else {
                    WizardAction::Idle
                }
            },
            SwarmValidateResult::Errors { errors } => {
                self.awaiting_submit = false;
                self.errors = duplicate_all(errors);
                if let Some(index) = self.first_rejected_step() {
                    self.current = index;
                    self.field = 0;
                }
                WizardAction::Idle
            },
        }
    }

    /// A call failed outright; the draft is intact but no longer submitting.
    pub fn on_call_failed(&mut self)
        ensures
            final(self)@ == (WizardView { awaiting_submit: false, ..old(self)@ }),
    {
        self.awaiting_submit = false;
    }

    fn back(&mut self) -> (r: WizardAction)
        ensures
            (final(self)@, r@) == old(self)@.back(),
    {
        if self.current == 0 {
            return WizardAction::Leave;
        }
        self.current = self.current - 1;
        self.field = 0;
        WizardAction::Idle
    }

    fn advance(&mut self) -> (r: WizardAction)
        ensures
            (final(self)@, r@) == old(self)@.advance(),
    {
        if self.steps.len() == 0 || self.current >= self.steps.len() - 1 {
            self.awaiting_submit = true;
            return WizardAction::Call(Effect::Validate(Box::new(self.submission())));
        }
        let refetch = self.provider_refetch();
        self.current = self.current + 1;
        self.field = 0;
        match refetch {
            Some(provider) => WizardAction::Call(Effect::Fields { provider: Some(provider) }),
            None => WizardAction::Idle,
        }
    }

    /// The provider answer that the steps are now stale against, if leaving this step
    /// changed it.
    fn provider_refetch(&self) -> (r: Option<String>)
        ensures
            duplicate::opt_view(r) == self@.stale_provider(),
    {
        let ghost fields = self@.fields();
        let mut found = false;
        if let Some(step) = self.current_step() {
            let mut i: usize = 0;
            while i < step.fields.len() && !found
                invariant
                    i <= step.fields.len(),
                    fields == text::views(step.fields@),
                    found ==> exists|j: int|
                        0 <= j < fields.len() && (#[trigger] fields[j]).key == "provider"@,
                    !found ==> forall|j: int|
                        0 <= j < i ==> (#[trigger] fields[j]).key != "provider"@,
                decreases step.fields.len() - i,
            {
                let field = &step.fields[i];
                assert(field@ == fields[i as int]);
                if text_eq(field.key.as_str(), "provider") {
                    found = true;
                }
                i += 1;
            }
        }
        if !found {
            return None;
        }
        let chosen = trim(self.answer("provider"));
        if chosen.is_empty() {
            return None;
        }
        if let Some(fetched) = &self.fetched_provider {
            if text_eq(fetched.as_str(), chosen) {
                return None;
            }
        }
        Some(chosen.to_owned())
    }

    fn vertical(&mut self, direction: Direction)
        ensures
            final(self)@ == old(self)@.vertical(direction),
    {
        let mut pick: Option<(String, String)> = None;
        if let Some(field) = self.focused() {
            if !matches!(field.kind, PropKind::StringArray) {
                if let Some(variants) = &field.enum_variants {
                    if variants.len() > 0 {
                        let ghost all = text::views(variants@);
                        let at: usize = match position(variants, self.answer(field.key.as_str())) {
                            Some(at) => direction.wrap(at, variants.len()),
                            None => 0,
                        };
                        assert(all[at as int] == variants@[at as int]@);
                        pick = Some((field.key.clone(), variants[at].clone()));
                    }
                }
            }
        }
        match pick {
            Some((key, choice)) => {
                self.answers.insert(key, choice);
                self.clamp_field();
            },
            None => {
                self.move_field(direction);
            },
        }
    }

    fn move_field(&mut self, direction: Direction)
        ensures
            final(self)@ == old(self)@.moved(direction),
    {
        let len: usize = self.editable_fields().len();
        assert(len == self@.editable().len());
        self.field = direction.wrap(self.field, len);
    }

    fn clamp_field(&mut self)
        ensures
            final(self)@ == old(self)@.clamped(),
    {
        let len: usize = self.editable_fields().len();
        assert(len == self@.editable().len());
        if self.field >= len {
            self.field = if len == 0 {
                0
            } else {
                len - 1
            };
        }
    }

    /// Change the focused free-text answer. Pickers ignore typing.
    fn edit(&mut self, edit: Edit)
        ensures
            final(self)@ == old(self)@.typed(edit),
    {
        let mut key: Option<String> = None;
        if let Some(field) = self.focused() {
            let mut closed = false;
            if !matches!(field.kind, PropKind::StringArray) {
                if let Some(variants) = &field.enum_variants {
                    if variants.len() > 0 {
                        closed = true;
                    }
                }
            }
            if !closed {
                key = Some(field.key.clone());
            }
        }
        if let Some(key) = key {
            let mut value = self.answer(key.as_str()).to_owned();
            edit.apply(&mut value);
            self.answers.insert(key, value);
        }
    }

    fn first_rejected_step(&self) -> (r: Option<usize>)
        ensures
            match r {
                Some(at) => self@.errors.len() > 0 && self@.tags().contains(self@.errors[0].step)
                    && at == text::first_index(self@.tags(), self@.errors[0].step),
                None => self@.errors.len() == 0 || !self@.tags().contains(self@.errors[0].step),
            },
    {
        if self.errors.len() == 0 {
            return None;
        }
        let rejected = self.errors[0].step;
        let ghost tags = self@.tags();
        assert(self@.errors[0] == self.errors@[0]@);
        let mut i: usize = 0;
        while i < self.steps.len()
            invariant
                i <= self.steps.len(),
                tags == self@.tags(),
                tags.len() == self.steps.len(),
                self@.errors.len() > 0,
                rejected == self@.errors[0].step,
                forall|j: int| 0 <= j < i ==> tags[j] != rejected,
            decreases self.steps.len() - i,
        {
            assert(self@.steps[i as int] == self.steps@[i as int]@);
            if same_step(self.steps[i].step, rejected) {
                proof {
                    text::first_index_at(tags, rejected, i as int);
                    assert(tags.contains(tags[i as int]));
                }
                return Some(i);
            }
            i += 1;
        }
        None
    }

    // ── Submission ──────────────────────────────────────────────────

    fn trimmed_answer(&self, key: &str) -> (r: String)
        ensures
            r@ == text::trimmed(self@.answer(key@)),
    {
        trim(self.answer(key)).to_owned()
    }

    /// The draft as the daemon takes it. The id and the boxes stay absent: the daemon
    /// generates them.
    pub fn submission(&self) -> (r: SwarmSubmission)
        ensures
            r@ == self@.submission(),
            r.name@ == text::trimmed(self@.answer("name"@)),
            r.provider@ == text::trimmed(self@.answer("provider"@)),
            r.model@ == text::trimmed(self@.answer("model"@)),
            r.risk_profile@ == text::trimmed(self@.answer("risk_profile"@)),
            r.role@ == text::trimmed(self@.answer("role"@)),
            r.goal@ == text::trimmed(self@.answer("goal"@)),
    {
        SwarmSubmission {
            swarm_id: None,
            name: self.trimmed_answer(NAME_KEY),
            provider: self.trimmed_answer("provider"),
            model: self.trimmed_answer("model"),
            risk_profile: self.trimmed_answer("risk_profile"),
            budget: self.budget(),
            channels: split_list(self.answer("channels")),
            role: self.trimmed_answer("role"),
            goal: self.trimmed_answer("goal"),
            boxes: None,
        }
    }

    /// Fold the boundedness answers into a budget. A ceiling that cannot be read
    /// becomes zero on purpose: the daemon rejects that with a message per field.
    fn budget(&self) -> (r: SwarmBudget)
        ensures
            r == self@.budget(),
    {
        let preset = trim(self.answer("budget_preset"));
        if text_eq(preset, BUDGET_CUSTOM) {
            let turns: u64 = match parse_unsigned(trim(self.answer("max_turns")), u32::MAX as u64) {
                Some(n) => n,
                None => 0,
            };
            let tokens: u64 = match parse_unsigned(trim(self.answer("max_tokens")), u64::MAX) {
                Some(n) => n,
                None => 0,
            };
            return SwarmBudget::Custom(
                SwarmBudgetLimits {
                    max_turns: turns as u32,
                    max_tokens: tokens,
                    max_cost_usd: Usd::parse(trim(self.answer("max_cost_usd"))),
                },
            );
        }
        proof {
            model::preset_names_differ(SwarmBudgetPreset::Quick, SwarmBudgetPreset::Marathon);
            model::preset_names_differ(SwarmBudgetPreset::Quick, SwarmBudgetPreset::Standard);
            model::preset_names_differ(SwarmBudgetPreset::Standard, SwarmBudgetPreset::Marathon);
            assert(SwarmBudgetPreset::Quick.name() != preset@ || preset@
                == SwarmBudgetPreset::Quick.name());
            assert(SwarmBudgetPreset::Marathon.name() != preset@ || preset@
                == SwarmBudgetPreset::Marathon.name());
        }
        match SwarmBudgetPreset::from_wire(preset) {
            Some(p) => SwarmBudget::Preset(p),
            None => SwarmBudget::Preset(SwarmBudgetPreset::Standard),
        }
    }
}

/// The messages of the first `n` errors that are about `key`.
pub open spec fn messages_about(errors: Seq<ProblemView>, key: Seq<char>, n: int) -> Seq<Seq<char>>
    decreases n,
{
    if n <= 0 {
        Seq::empty()
    } else {
        let earlier = messages_about(errors, key, n - 1);
        if errors[n - 1].field == key {
            earlier.push(errors[n - 1].message)
        } else {
            earlier
        }
    }
}

// ── Laws ────────────────────────────────────────────────────────────

impl WizardView {
    /// The cursor is on a step.
    pub open spec fn on_a_step(self) -> bool {
        self.current < self.steps.len()
    }
}

/// Whatever happens to a draft, its cursor stays on a step.
pub proof fn the_cursor_stays_on_a_step(
    draft: WizardView,
    shapes: Seq<StepShapeView>,
    provider: Option<Seq<char>>,
    input: Input,
    verdict: VerdictView,
)
    requires
        draft.on_a_step(),
    ensures
        WizardView::blank(shapes).on_a_step(),
        draft.merged(shapes, provider).on_a_step(),
        draft.on_input(input).0.on_a_step(),
        draft.on_validation(verdict).0.on_a_step(),
{
    if let VerdictView::Errors { errors } = verdict {
        if errors.len() > 0 && draft.tags().contains(errors[0].step) {
            let tags = draft.tags();
            let k = choose|k: int| 0 <= k < tags.len() && tags[k] == errors[0].step;
            text::first_index_finds(tags, errors[0].step, k);
        }
    }
}

/// The steps are the daemon's, in its order, behind the name step.
pub proof fn the_name_comes_first(shapes: Seq<StepShapeView>)
    ensures
        WizardView::blank(shapes).tags() == seq![None::<SwarmWizardStep>] + Seq::new(
            shapes.len(),
            |i: int| Some(shapes[i].step),
        ),
{
    assert(WizardView::blank(shapes).tags() =~= seq![None::<SwarmWizardStep>] + Seq::new(
        shapes.len(),
        |i: int| Some(shapes[i].step),
    ));
}

proof fn seeding_keeps_fields(
    answers: Map<Seq<char>, Seq<char>>,
    fields: Seq<FieldView>,
    n: int,
    key: Seq<char>,
)
    requires
        answers.contains_key(key),
    ensures
        seeded_fields(answers, fields, n).contains_key(key),
        seeded_fields(answers, fields, n)[key] == answers[key],
    decreases n,
{
    if n > 0 {
        seeding_keeps_fields(answers, fields, n - 1, key);
    }
}

proof fn seeding_keeps(
    answers: Map<Seq<char>, Seq<char>>,
    steps: Seq<WizardStepView>,
    n: int,
    key: Seq<char>,
)
    requires
        answers.contains_key(key),
    ensures
        seeded(answers, steps, n).contains_key(key),
        seeded(answers, steps, n)[key] == answers[key],
    decreases n,
{
    if n > 0 {
        seeding_keeps(answers, steps, n - 1, key);
        seeding_keeps_fields(
            seeded(answers, steps, n - 1),
            steps[n - 1].fields,
            steps[n - 1].fields.len() as int,
            key,
        );
    }
}

/// New steps from the daemon never take an answer away, and leave the position where
/// there still is a step at it.
pub proof fn a_refetch_keeps_answers(
    draft: WizardView,
    shapes: Seq<StepShapeView>,
    provider: Option<Seq<char>>,
    key: Seq<char>,
)
    requires
        draft.answers.contains_key(key),
        draft.steps.len() > 0,
    ensures
        draft.merged(shapes, provider).answer(key) == draft.answer(key),
        draft.current <= shapes.len() ==> draft.merged(shapes, provider).current == draft.current,
{
    let after = draft.merged(shapes, provider);
    seeding_keeps(draft.answers, after.steps, after.steps.len() as int, key);
}

proof fn answerable_are_submitted(fields: Seq<FieldView>, custom: bool, n: int, i: int)
    requires
        0 <= i < answerable_fields(fields, custom, n).len(),
    ensures
        submission_key(answerable_fields(fields, custom, n)[i].key),
    decreases n,
{
    if n > 0 && i < answerable_fields(fields, custom, n - 1).len() {
        answerable_are_submitted(fields, custom, n - 1, i);
    }
}

/// No input ever answers a field that the submission has no home for, such as a
/// credential that is shown for context.
pub proof fn advisory_rows_are_never_collected(draft: WizardView, input: Input, key: Seq<char>)
    requires
        !submission_key(key),
    ensures
        draft.on_input(input).0.answers.contains_key(key) == draft.answers.contains_key(key),
        draft.on_input(input).0.answer(key) == draft.answer(key),
{
    if draft.field < draft.editable().len() {
        answerable_are_submitted(
            draft.fields(),
            draft.custom(),
            draft.fields().len() as int,
            draft.field as int,
        );
    }
}

/// A picker ignores typing: its answer is always one of the daemon's choices.
pub proof fn a_picker_ignores_typing(draft: WizardView, c: char)
    requires
        draft.focused() matches Some(field) && picks(field),
    ensures
        draft.on_input(Input::Char(c)).0 == draft,
        draft.on_input(Input::Backspace).0 == draft,
        draft.focused() matches Some(field) && field.enum_variants->0.contains(
            draft.on_input(Input::Down).0.answer(field.key),
        ),
{
    let field = draft.focused()->0;
    let variants = field.enum_variants->0;
    let at = draft.answer(field.key);
    let choice = draft.next_choice(field, Direction::Forward);
    if variants.contains(at) {
        let k = choose|k: int| 0 <= k < variants.len() && variants[k] == at;
        text::first_index_finds(variants, at, k);
        let next = Direction::Forward.wrapped(
            text::first_index(variants, at) as nat,
            variants.len(),
        );
        vstd::arithmetic::div_mod::lemma_small_mod(
            text::first_index(variants, at) as nat,
            variants.len(),
        );
        assert(next < variants.len());
        assert(variants[next as int] == choice);
    } else {
        assert(variants[0] == choice);
    }
}

/// A draft is created only after the daemon accepted it, and as it was accepted.
pub proof fn validation_comes_before_creation(
    draft: WizardView,
    input: Input,
    verdict: VerdictView,
)
    ensures
        !(draft.on_input(input).1 matches WizardActionView::Call(EffectView::Create(_))),
        draft.on_validation(verdict).1 matches WizardActionView::Call(e) ==> verdict is Accepted
            && draft.awaiting_submit && e == EffectView::Create(draft.submission()),
{
}

/// A draft submits, for each field, the trimmed answer under that field's own key; it names
/// no id and no roster. The budget is the preset of that name, or the custom triple, each
/// ceiling from its own answer.
pub proof fn a_draft_submits_its_answers(draft: WizardView)
    ensures
        ({
            let submission = draft.submission();
            let preset = text::trimmed(draft.answer("budget_preset"@));
            &&& submission.name == text::trimmed(draft.answer("name"@))
            &&& submission.provider == text::trimmed(draft.answer("provider"@))
            &&& submission.model == text::trimmed(draft.answer("model"@))
            &&& submission.risk_profile == text::trimmed(draft.answer("risk_profile"@))
            &&& submission.role == text::trimmed(draft.answer("role"@))
            &&& submission.goal == text::trimmed(draft.answer("goal"@))
            &&& submission.channels == listed(draft.answer("channels"@))
            &&& submission.swarm_id is None && submission.boxes is None
            &&& preset == "quick"@ ==> submission.budget == SwarmBudget::Preset(
                SwarmBudgetPreset::Quick,
            )
            &&& preset == "standard"@ ==> submission.budget == SwarmBudget::Preset(
                SwarmBudgetPreset::Standard,
            )
            &&& preset == "marathon"@ ==> submission.budget == SwarmBudget::Preset(
                SwarmBudgetPreset::Marathon,
            )
            &&& preset == "custom"@ ==> (submission.budget matches SwarmBudget::Custom(limits)
                && limits.max_turns == ceiling(draft.answer("max_turns"@), u32::MAX as nat)
                && limits.max_tokens == ceiling(draft.answer("max_tokens"@), u64::MAX as nat)
                && limits.max_cost_usd.micros == usd::amount_micros(
                text::trimmed(draft.answer("max_cost_usd"@)),
            ))
        }),
        draft.answers.contains_key("role"@) ==> draft.answer("role"@) == draft.answers["role"@],
{
    reveal_strlit("quick");
    reveal_strlit("standard");
    reveal_strlit("marathon");
    reveal_strlit("custom");
    assert("quick"@.len() == 5 && "custom"@.len() == 6);
    assert("standard"@[0] == 's' && "marathon"@[0] == 'm');
}

/// A ceiling that was typed as a number is that number, and one that is no number, or too
/// large, is nought.
pub proof fn typed_ceilings_read_back(n: nat, max: nat)
    ensures
        ceiling(text::numeral(n), max) == if n <= max {
            n
        } else {
            0
        },
        ceiling(Seq::empty(), max) == 0,
        forall|s: Seq<char>| #[trigger] ceiling(s, max) <= max,
{
    let none = Seq::<char>::empty();
    text::numerals_read_back(n, max);
    text::numerals_are_digits(n);
    assert('0' <= text::numeral(n)[0] <= '9');
    assert('0' <= text::numeral(n)[text::numeral(n).len() - 1] <= '9');
    text::trimming_ignores_what_surrounds(none, text::numeral(n), none);
    assert(none + text::numeral(n) + none =~= text::numeral(n));
    text::only_digits_make_a_number(text::trimmed(Seq::empty()), max, 0);
    assert forall|s: Seq<char>| #[trigger] ceiling(s, max) <= max by {
        text::only_digits_make_a_number(text::trimmed(s), max, 0);
    }
}

/// A list is read entry by entry: what stands before and after a comma is read apart, blank
/// entries are dropped, and each other one is kept without the white space around it.
pub proof fn a_list_is_read_entry_by_entry(first: Seq<char>, rest: Seq<char>)
    requires
        forall|i: int| 0 <= i < first.len() ==> #[trigger] first[i] != ',',
    ensures
        listed(first + seq![','] + rest) == listed(first) + listed(rest),
        text::trimmed(first).len() == 0 ==> listed(first).len() == 0,
        text::trimmed(first).len() > 0 ==> listed(first) == seq![text::trimmed(first)],
{
    let s = first + seq![','] + rest;
    assert forall|i: int| 0 <= i < first.len() implies s[i] != ',' by {
        assert(s[i] == first[i]);
    }
    text::first_of_at(s, ',', ',', first.len() as int);
    text::first_of_at(first, ',', ',', first.len() as int);
    assert(s.take(first.len() as int) =~= first);
    assert(s.skip(first.len() as int + 1) =~= rest);
    assert(listed(s) =~= listed(first) + listed(rest));
}

/// Enter goes to the next step, at its first field, and from the last step asks for the
/// draft to be checked as it stands; Escape goes back a step, and from the first one leaves.
/// Neither changes an answer.
pub proof fn how_a_draft_is_walked(draft: WizardView)
    requires
        draft.current < draft.steps.len(),
    ensures
        ({
            let (on, asked) = draft.on_input(Input::Enter);
            let (off, left) = draft.on_input(Input::Escape);
            let last = draft.current + 1 == draft.steps.len();
            &&& !last ==> on.current == draft.current + 1 && on.field == 0 && on.awaiting_submit
                == draft.awaiting_submit
            &&& last ==> on.current == draft.current && on.awaiting_submit && asked
                == WizardActionView::Call(EffectView::Validate(draft.submission()))
            &&& !last ==> !(asked matches WizardActionView::Call(EffectView::Validate(_)))
                && asked != WizardActionView::Leave
            &&& on.answers == draft.answers && on.steps == draft.steps
            &&& draft.current > 0 ==> off.current == draft.current - 1 && off.field == 0 && left
                == WizardActionView::Idle
            &&& draft.current == 0 ==> left == WizardActionView::Leave && off == draft
            &&& off.answers == draft.answers && off.steps == draft.steps
        }),
{
}

/// The fields of the chosen provider are fetched on leaving its step, where they were not
/// fetched for it yet, and at no other time.
pub proof fn when_fields_are_fetched(draft: WizardView, i: int)
    requires
        draft.current + 1 < draft.steps.len(),
        0 <= i < draft.fields().len(),
    ensures
        ({
            let chosen = text::trimmed(draft.answer("provider"@));
            let asked = draft.on_input(Input::Enter).1;
            &&& draft.fields()[i].key == "provider"@ && chosen.len() > 0
                && draft.fetched_provider != Some(chosen) ==> asked == WizardActionView::Call(
                EffectView::Fields { provider: Some(chosen) },
            )
            &&& chosen.len() == 0 || draft.fetched_provider == Some(chosen) ==> asked
                == WizardActionView::Idle
            &&& (forall|k: int|
                0 <= k < draft.fields().len() ==> (#[trigger] draft.fields()[k]).key
                    != "provider"@) ==> asked == WizardActionView::Idle
        }),
{
}

/// Typing goes to the field that the cursor is on, and to no other: a character joins the
/// end of its answer and Backspace takes the last one off.
pub proof fn typing_goes_to_the_focused_field(draft: WizardView, c: char, other: Seq<char>)
    requires
        draft.focused() is Some,
        !picks(draft.focused()->0),
        other != (draft.focused()->0).key,
    ensures
        ({
            let key = (draft.focused()->0).key;
            let typed = draft.on_input(Input::Char(c)).0;
            let erased = draft.on_input(Input::Backspace).0;
            &&& typed.answer(key) == draft.answer(key).push(c)
            &&& draft.answer(key).len() > 0 ==> erased.answer(key) == draft.answer(key).drop_last()
            &&& typed.answer(other) == draft.answer(other)
            &&& erased.answer(other) == draft.answer(other)
            &&& typed.current == draft.current && erased.current == draft.current
            &&& typed.field == draft.field && erased.field == draft.field
        }),
{
}

/// Down takes the choice after the one that stands, and Up the one before it, going round;
/// an answer that is no choice becomes the first one.
pub proof fn a_picker_goes_round(draft: WizardView, at: int)
    requires
        draft.focused() is Some,
        picks(draft.focused()->0),
        (draft.focused()->0).enum_variants->0.no_duplicates(),
        0 <= at < (draft.focused()->0).enum_variants->0.len(),
    ensures
        ({
            let field = draft.focused()->0;
            let choices = field.enum_variants->0;
            let n = choices.len() as int;
            let down = draft.on_input(Input::Down).0.answer(field.key);
            let up = draft.on_input(Input::Up).0.answer(field.key);
            &&& draft.answer(field.key) == choices[at] ==> down == choices[if at + 1 == n {
                0
            } else {
                at + 1
            }]
            &&& draft.answer(field.key) == choices[at] ==> up == choices[if at == 0 {
                n - 1
            } else {
                at - 1
            }]
            &&& !choices.contains(draft.answer(field.key)) ==> down == choices[0] && up
                == choices[0]
        }),
{
    let field = draft.focused()->0;
    let choices = field.enum_variants->0;
    if draft.answer(field.key) == choices[at] {
        assert forall|i: int| 0 <= i < at implies choices[i] != choices[at] by {}
        text::first_index_at(choices, choices[at], at);
        super::input::where_a_wrapping_cursor_goes(at as nat, choices.len());
    }
}

/// Tab goes to the next field that can be answered, and Shift and Tab to the one before it,
/// going round.
pub proof fn tab_goes_round_the_fields(draft: WizardView)
    requires
        draft.field < draft.editable().len(),
    ensures
        ({
            let n = draft.editable().len();
            let on = draft.on_input(Input::Tab).0;
            let back = draft.on_input(Input::BackTab).0;
            &&& on.field == if draft.field + 1 == n {
                0
            } else {
                draft.field + 1
            }
            &&& back.field == if draft.field == 0 {
                n - 1
            } else {
                draft.field - 1
            }
            &&& on.answers == draft.answers && back.answers == draft.answers
            &&& on.current == draft.current && back.current == draft.current
        }),
{
    super::input::where_a_wrapping_cursor_goes(draft.field, draft.editable().len());
}

proof fn shown_where(fields: Seq<FieldView>, custom: bool, n: int, field: FieldView)
    requires
        0 <= n <= fields.len(),
    ensures
        shown_fields(fields, custom, n).contains(field) <==> (custom || !custom_budget_field(
            field.key,
        )) && exists|k: int| 0 <= k < n && #[trigger] fields[k] == field,
        answerable_fields(fields, custom, n).contains(field) <==> (custom || !custom_budget_field(
            field.key,
        )) && submission_key(field.key) && exists|k: int|
            0 <= k < n && #[trigger] fields[k] == field,
    decreases n,
{
    if n > 0 {
        shown_where(fields, custom, n - 1, field);
        grown_contains(shown_fields(fields, custom, n - 1), fields[n - 1], field);
        grown_contains(answerable_fields(fields, custom, n - 1), fields[n - 1], field);
        if exists|k: int| 0 <= k < n && #[trigger] fields[k] == field {
            let k = choose|k: int| 0 <= k < n && #[trigger] fields[k] == field;
            if k < n - 1 {
                assert(fields[k] == field);
            }
        }
        if exists|k: int| 0 <= k < n - 1 && #[trigger] fields[k] == field {
            let k = choose|k: int| 0 <= k < n - 1 && #[trigger] fields[k] == field;
            assert(fields[k] == field);
        }
        if fields[n - 1] == field {
            assert(fields[n - 1] == field);
        }
    }
}

proof fn grown_contains<T>(s: Seq<T>, x: T, y: T)
    ensures
        s.push(x).contains(y) <==> s.contains(y) || x == y,
{
    if s.contains(y) {
        let k = choose|k: int| 0 <= k < s.len() && s[k] == y;
        assert(s.push(x)[k] == y);
    }
    if x == y {
        assert(s.push(x)[s.len() as int] == y);
    }
    if s.push(x).contains(y) {
        let k = choose|k: int| 0 <= k < s.push(x).len() && s.push(x)[k] == y;
        if k < s.len() {
            assert(s[k] == y);
        }
    }
}

/// A step shows every field of its own, but for the custom triple, which it shows only under
/// a custom budget; of what it shows, the fields that the submission has can be answered.
pub proof fn what_a_step_shows(draft: WizardView, field: FieldView)
    ensures
        ({
            let custom = draft.answer("budget_preset"@) == "custom"@;
            let triple = field.key == "max_turns"@ || field.key == "max_tokens"@ || field.key
                == "max_cost_usd"@;
            &&& draft.shown().contains(field) <==> draft.fields().contains(field) && (custom
                || !triple)
            &&& draft.editable().contains(field) <==> draft.shown().contains(field)
                && submission_key(field.key)
        }),
{
    shown_where(draft.fields(), draft.custom(), draft.fields().len() as int, field);
    if draft.fields().contains(field) {
        let k = choose|k: int| 0 <= k < draft.fields().len() && draft.fields()[k] == field;
        assert(draft.fields()[k] == field);
    }
    if exists|k: int| 0 <= k < draft.fields().len() && #[trigger] draft.fields()[k] == field {
        let k = choose|k: int|
            0 <= k < draft.fields().len() && #[trigger] draft.fields()[k] == field;
        assert(draft.fields()[k] == field);
    }
}

/// A refusal is shown: the draft holds the errors, waits for nothing, and stands on the
/// first step that the first error is about; an acceptance clears them.
pub proof fn a_refusal_is_shown(draft: WizardView, errors: Seq<ProblemView>, at: int)
    requires
        errors.len() > 0,
    ensures
        ({
            let (after, action) = draft.on_validation(VerdictView::Errors { errors });
            let clean = draft.on_validation(VerdictView::Accepted).0;
            &&& after.errors == errors && !after.awaiting_submit
            &&& action == WizardActionView::Idle
            &&& after.answers == draft.answers
            &&& 0 <= at < draft.steps.len() && draft.steps[at].step == errors[0].step && (forall|
                i: int,
            |
                0 <= i < at ==> (#[trigger] draft.steps[i]).step != errors[0].step)
                ==> after.current == at && after.field == 0
            &&& (forall|i: int|
                0 <= i < draft.steps.len() ==> (#[trigger] draft.steps[i]).step
                    != errors[0].step) ==> after.current == draft.current
            &&& clean.errors.len() == 0 && !clean.awaiting_submit && clean.answers
                == draft.answers
        }),
{
    let tags = draft.tags();
    if 0 <= at < draft.steps.len() && draft.steps[at].step == errors[0].step && (forall|i: int|
        0 <= i < at ==> (#[trigger] draft.steps[i]).step != errors[0].step) {
        assert forall|i: int| 0 <= i < at implies tags[i] != errors[0].step by {
            assert(draft.steps[i].step != errors[0].step);
        }
        text::first_index_at(tags, errors[0].step, at);
    }
    if tags.contains(errors[0].step) {
        let k = choose|k: int| 0 <= k < tags.len() && tags[k] == errors[0].step;
        assert(draft.steps[k].step == errors[0].step);
    }
}

/// What is said about a field is every message of an error on that field, and no other.
pub proof fn messages_are_about_their_field(
    errors: Seq<ProblemView>,
    key: Seq<char>,
    n: int,
    message: Seq<char>,
)
    requires
        0 <= n <= errors.len(),
    ensures
        messages_about(errors, key, n).contains(message) <==> exists|k: int|
            0 <= k < n && (#[trigger] errors[k]).field == key && errors[k].message == message,
    decreases n,
{
    if n > 0 {
        messages_are_about_their_field(errors, key, n - 1, message);
        grown_contains(messages_about(errors, key, n - 1), errors[n - 1].message, message);
        if exists|k: int|
            0 <= k < n && (#[trigger] errors[k]).field == key && errors[k].message == message {
            let k = choose|k: int|
                0 <= k < n && (#[trigger] errors[k]).field == key && errors[k].message == message;
            if k < n - 1 {
                assert(errors[k].field == key);
            }
        }
        if exists|k: int|
            0 <= k < n - 1 && (#[trigger] errors[k]).field == key && errors[k].message == message {
            let k = choose|k: int|
                0 <= k < n - 1 && (#[trigger] errors[k]).field == key && errors[k].message
                    == message;
            assert(errors[k].field == key);
        }
        if errors[n - 1].field == key && errors[n - 1].message == message {
            assert(errors[n - 1].field == key);
        }
    }
}

proof fn defaults_fill_fields(
    answers: Map<Seq<char>, Seq<char>>,
    fields: Seq<FieldView>,
    n: int,
    i: int,
)
    requires
        0 <= i < n <= fields.len(),
        fields[i].default is Some,
    ensures
        seeded_fields(answers, fields, n).contains_key(fields[i].key),
    decreases n,
{
    if i < n - 1 {
        defaults_fill_fields(answers, fields, n - 1, i);
    }
}

proof fn defaults_fill(
    answers: Map<Seq<char>, Seq<char>>,
    steps: Seq<WizardStepView>,
    n: int,
    at: int,
    i: int,
)
    requires
        0 <= at < n <= steps.len(),
        0 <= i < steps[at].fields.len(),
        steps[at].fields[i].default is Some,
    ensures
        seeded(answers, steps, n).contains_key(steps[at].fields[i].key),
    decreases n,
{
    let earlier = seeded(answers, steps, n - 1);
    if at == n - 1 {
        defaults_fill_fields(earlier, steps[at].fields, steps[at].fields.len() as int, i);
    } else {
        defaults_fill(answers, steps, n - 1, at, i);
        seeding_keeps_fields(
            earlier,
            steps[n - 1].fields,
            steps[n - 1].fields.len() as int,
            steps[at].fields[i].key,
        );
    }
}

/// Fetched steps follow the name step, in order and as they were sent, and every field with a
/// prefill is answered from then on.
pub proof fn fetched_steps_are_shown(
    draft: WizardView,
    shapes: Seq<StepShapeView>,
    provider: Option<Seq<char>>,
    at: int,
    i: int,
)
    requires
        draft.steps.len() > 0,
        0 <= at < shapes.len(),
        0 <= i < shapes[at].fields.len(),
    ensures
        ({
            let after = draft.merged(shapes, provider);
            &&& after.steps.len() == shapes.len() + 1
            &&& after.steps[0] == draft.steps[0]
            &&& after.steps[at + 1].step == Some(shapes[at].step)
            &&& after.steps[at + 1].title == WordsView::Plain(shapes[at].title)
            &&& after.steps[at + 1].help == WordsView::Plain(shapes[at].help)
            &&& after.steps[at + 1].fields == shapes[at].fields
            &&& after.fetched_provider == provider
            &&& after.errors == draft.errors
            &&& shapes[at].fields[i].default is Some ==> after.answers.contains_key(
                shapes[at].fields[i].key,
            )
        }),
{
    let after = draft.merged(shapes, provider);
    assert(draft.steps.take(1).len() == 1);
    assert(after.steps[at + 1] == daemon_step(shapes[at]));
    if shapes[at].fields[i].default is Some {
        defaults_fill(draft.answers, after.steps, after.steps.len() as int, at + 1, i);
    }
}

/// What stays of a draft: walking it moves only the position and the wish to submit,
/// typing and picking change only the answers and the row, new steps leave the errors, and
/// a verdict leaves the steps, the answers and the provider.
pub proof fn what_stays_of_a_draft(
    draft: WizardView,
    shapes: Seq<StepShapeView>,
    provider: Option<Seq<char>>,
    direction: Direction,
    edit: Edit,
    verdict: VerdictView,
)
    ensures
        ({
            let after = draft.back().0;
            after == WizardView { current: after.current, field: after.field, ..draft }
        }),
        ({
            let after = draft.advance().0;
            after == WizardView {
                current: after.current,
                field: after.field,
                awaiting_submit: after.awaiting_submit,
                ..draft
            }
        }),
        ({
            let after = draft.moved(direction);
            after == WizardView { field: after.field, ..draft }
        }),
        ({
            let after = draft.vertical(direction);
            after == WizardView { field: after.field, answers: after.answers, ..draft }
        }),
        ({
            let after = draft.typed(edit);
            after == WizardView { answers: after.answers, ..draft }
        }),
        ({
            let after = draft.merged(shapes, provider);
            &&& after.errors == draft.errors
            &&& after.awaiting_submit == draft.awaiting_submit
            &&& after.fetched_provider == provider
        }),
        ({
            let after = draft.on_validation(verdict).0;
            after == WizardView {
                current: after.current,
                field: after.field,
                errors: after.errors,
                awaiting_submit: after.awaiting_submit,
                ..draft
            }
        }),
{
}

} // verus!
