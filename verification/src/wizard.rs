//! Swarm authoring: the submission shape, its validator, and the wizard field
//! shapes a client renders from.
//!
//! Creating, updating and dry-running a swarm all go through [`prepare_spec`], so a
//! submission the dry run accepted is exactly the one that persists.

use vstd::prelude::*;

use crate::duplicate;
use crate::duplicate::{duplicate_all, duplicate_opt, Duplicate};
use crate::ids;
use crate::ids::random_simple;
use crate::roster;
use crate::store::model;
use crate::store::model::{
    default_roster, BoxSpec, BoxSpecView, SwarmBudget, SwarmBudgetPreset, SwarmSpec,
    SwarmSpecView, DEFAULT_ROSTER_SIZE,
};
use crate::text;
use crate::usd;
use crate::text::{
    chars_of, contains_text, copy_texts, decimal, find_of, find_unsluggable, join, text_eq, trim,
};

verus! {

/// Longest accepted swarm name, in characters.
pub const MAX_SWARM_NAME_LEN: usize = 120;

/// Longest accepted supervising role, in characters.
pub const MAX_SWARM_ROLE_LEN: usize = 120;

/// Longest accepted goal statement, in characters.
pub const MAX_SWARM_GOAL_LEN: usize = 4_000;

/// Longest accepted caller-supplied swarm id, in characters.
pub const MAX_SWARM_ID_LEN: usize = 64;

/// Most boxes one swarm may carry. The pane grid addresses slots by index, so
/// this is also the exclusive upper bound on a box's slot.
pub const MAX_ROSTER_SIZE: usize = 16;

/// The picker value that means "not a preset, read the triple below".
pub const BUDGET_CUSTOM: &'static str = "custom";

/// The risk preset the wizard lands on when nothing else is chosen.
pub const RECOMMENDED_RISK_PROFILE: &'static str = "balanced";

// ── Shapes ──────────────────────────────────────────────────────────

/// Wizard steps, in the order a client walks them.
#[derive(Debug, Clone, Copy, PartialEq, Eq, Structural)]
pub enum SwarmWizardStep {
    Provider,
    Model,
    RiskProfile,
    Boundedness,
    Channels,
    Role,
    Goal,
}

impl SwarmWizardStep {
    /// Every step, in wizard order.
    pub const ALL: [SwarmWizardStep; 7] = [
        SwarmWizardStep::Provider,
        SwarmWizardStep::Model,
        SwarmWizardStep::RiskProfile,
        SwarmWizardStep::Boundedness,
        SwarmWizardStep::Channels,
        SwarmWizardStep::Role,
        SwarmWizardStep::Goal,
    ];

    /// The key of the step heading.
    pub open spec fn title_key_text(self) -> &'static str {
        match self {
            SwarmWizardStep::Provider => "swarm-wizard-provider-title",
            SwarmWizardStep::Model => "swarm-wizard-model-title",
            SwarmWizardStep::RiskProfile => "swarm-wizard-risk-profile-title",
            SwarmWizardStep::Boundedness => "swarm-wizard-boundedness-title",
            SwarmWizardStep::Channels => "swarm-wizard-channels-title",
            SwarmWizardStep::Role => "swarm-wizard-role-title",
            SwarmWizardStep::Goal => "swarm-wizard-goal-title",
        }
    }

    /// The key of the one-line blurb under the heading.
    pub open spec fn help_key_text(self) -> &'static str {
        match self {
            SwarmWizardStep::Provider => "swarm-wizard-provider-help",
            SwarmWizardStep::Model => "swarm-wizard-model-help",
            SwarmWizardStep::RiskProfile => "swarm-wizard-risk-profile-help",
            SwarmWizardStep::Boundedness => "swarm-wizard-boundedness-help",
            SwarmWizardStep::Channels => "swarm-wizard-channels-help",
            SwarmWizardStep::Role => "swarm-wizard-role-help",
            SwarmWizardStep::Goal => "swarm-wizard-goal-help",
        }
    }

    /// Message key for the step heading.
    pub fn title_key(self) -> (r: &'static str)
        ensures
            r == self.title_key_text(),
    {
        match self {
            SwarmWizardStep::Provider => "swarm-wizard-provider-title",
            SwarmWizardStep::Model => "swarm-wizard-model-title",
            SwarmWizardStep::RiskProfile => "swarm-wizard-risk-profile-title",
            SwarmWizardStep::Boundedness => "swarm-wizard-boundedness-title",
            SwarmWizardStep::Channels => "swarm-wizard-channels-title",
            SwarmWizardStep::Role => "swarm-wizard-role-title",
            SwarmWizardStep::Goal => "swarm-wizard-goal-title",
        }
    }

    /// Message key for the one-line blurb under the heading.
    pub fn help_key(self) -> (r: &'static str)
        ensures
            r == self.help_key_text(),
    {
        match self {
            SwarmWizardStep::Provider => "swarm-wizard-provider-help",
            SwarmWizardStep::Model => "swarm-wizard-model-help",
            SwarmWizardStep::RiskProfile => "swarm-wizard-risk-profile-help",
            SwarmWizardStep::Boundedness => "swarm-wizard-boundedness-help",
            SwarmWizardStep::Channels => "swarm-wizard-channels-help",
            SwarmWizardStep::Role => "swarm-wizard-role-help",
            SwarmWizardStep::Goal => "swarm-wizard-goal-help",
        }
    }
}

/// What kind of value a field takes.
#[derive(Debug, Clone, Copy, PartialEq, Eq, Structural)]
pub enum PropKind {
    String,
    Bool,
    Integer,
    Float,
    Enum,
    StringArray,
    AliasRef,
}

/// One input to render: what it is called, what it takes, and what it starts with.
#[derive(Debug, PartialEq, Eq)]
pub struct FieldDescriptor {
    pub key: String,
    pub label: String,
    pub help: String,
    pub kind: PropKind,
    pub is_secret: bool,
    pub enum_variants: Option<Vec<String>>,
    pub required: bool,
    pub default: Option<String>,
}

/// A field descriptor as plain values.
#[verifier::ext_equal]
pub struct FieldView {
    pub key: Seq<char>,
    pub label: Seq<char>,
    pub help: Seq<char>,
    pub kind: PropKind,
    pub is_secret: bool,
    pub enum_variants: Option<Seq<Seq<char>>>,
    pub required: bool,
    pub default: Option<Seq<char>>,
}

/// The view of an optional list of strings.
pub open spec fn opt_texts(o: Option<Vec<String>>) -> Option<Seq<Seq<char>>> {
    match o {
        Some(v) => Some(text::views(v@)),
        None => None,
    }
}

impl View for FieldDescriptor {
    type V = FieldView;

    open spec fn view(&self) -> FieldView {
        FieldView {
            key: self.key@,
            label: self.label@,
            help: self.help@,
            kind: self.kind,
            is_secret: self.is_secret,
            enum_variants: opt_texts(self.enum_variants),
            required: self.required,
            default: duplicate::opt_view(self.default),
        }
    }
}

impl Duplicate for FieldDescriptor {
    fn duplicate(&self) -> (r: Self) {
        FieldDescriptor {
            key: self.key.clone(),
            label: self.label.clone(),
            help: self.help.clone(),
            kind: self.kind,
            is_secret: self.is_secret,
            enum_variants: match &self.enum_variants {
                Some(v) => Some(copy_texts(v)),
                None => None,
            },
            required: self.required,
            default: duplicate_opt(&self.default),
        }
    }
}

impl Clone for FieldDescriptor {
    fn clone(&self) -> (r: Self)
        ensures
            r@ == self@,
    {
        self.duplicate()
    }
}

/// One rendered wizard step: what to call it, what to say about it, and the
/// inputs it collects.
#[derive(Debug, PartialEq, Eq)]
pub struct SwarmStepShape {
    pub step: SwarmWizardStep,
    /// Localized heading.
    pub title: String,
    /// Localized one-line blurb.
    pub help: String,
    /// Inputs to render, in order. Never empty.
    pub fields: Vec<FieldDescriptor>,
}

/// A step shape as plain values.
#[verifier::ext_equal]
pub struct StepShapeView {
    pub step: SwarmWizardStep,
    pub title: Seq<char>,
    pub help: Seq<char>,
    pub fields: Seq<FieldView>,
}

impl View for SwarmStepShape {
    type V = StepShapeView;

    open spec fn view(&self) -> StepShapeView {
        StepShapeView {
            step: self.step,
            title: self.title@,
            help: self.help@,
            fields: text::views(self.fields@),
        }
    }
}

impl Duplicate for SwarmStepShape {
    fn duplicate(&self) -> (r: Self) {
        SwarmStepShape {
            step: self.step,
            title: self.title.clone(),
            help: self.help.clone(),
            fields: duplicate_all(&self.fields),
        }
    }
}

impl Clone for SwarmStepShape {
    fn clone(&self) -> (r: Self)
        ensures
            r@ == self@,
    {
        self.duplicate()
    }
}

/// One rejected field. The step is what a client jumps back to.
#[derive(Debug, PartialEq, Eq)]
pub struct SwarmValidationError {
    /// Wizard step that owns the field, or `None` for the fields no step
    /// owns: the swarm id, its name, and the box roster.
    pub step: Option<SwarmWizardStep>,
    pub field: String,
    pub message: String,
}

/// A rejected field as plain values.
#[verifier::ext_equal]
pub struct ProblemView {
    pub step: Option<SwarmWizardStep>,
    pub field: Seq<char>,
    pub message: Seq<char>,
}

impl View for SwarmValidationError {
    type V = ProblemView;

    open spec fn view(&self) -> ProblemView {
        ProblemView { step: self.step, field: self.field@, message: self.message@ }
    }
}

impl Duplicate for SwarmValidationError {
    fn duplicate(&self) -> (r: Self) {
        SwarmValidationError {
            step: self.step,
            field: self.field.clone(),
            message: self.message.clone(),
        }
    }
}

impl Clone for SwarmValidationError {
    fn clone(&self) -> (r: Self)
        ensures
            r@ == self@,
    {
        self.duplicate()
    }
}

impl SwarmValidationError {
    /// A rejection of `field`.
    pub fn new(step: Option<SwarmWizardStep>, field: &str, message: &str) -> (r: Self)
        ensures
            r@ == (ProblemView { step, field: field@, message: message@ }),
    {
        SwarmValidationError { step, field: field.to_owned(), message: message.to_owned() }
    }
}

/// What the authoring rules read of the configuration and of the catalogues.
#[derive(Debug)]
pub struct WizardConfig {
    /// Configured model-provider aliases.
    pub model_providers: Vec<String>,
    /// Known provider families.
    pub provider_families: Vec<String>,
    /// Configured risk profiles.
    pub risk_profiles: Vec<String>,
    /// The canonical risk presets.
    pub risk_presets: Vec<String>,
    /// Configured channel aliases.
    pub channels: Vec<String>,
}

/// What the authoring rules read, as plain values.
#[verifier::ext_equal]
pub struct ConfigView {
    pub model_providers: Seq<Seq<char>>,
    pub provider_families: Seq<Seq<char>>,
    pub risk_profiles: Seq<Seq<char>>,
    pub risk_presets: Seq<Seq<char>>,
    pub channels: Seq<Seq<char>>,
}

impl View for WizardConfig {
    type V = ConfigView;

    open spec fn view(&self) -> ConfigView {
        ConfigView {
            model_providers: text::views(self.model_providers@),
            provider_families: text::views(self.provider_families@),
            risk_profiles: text::views(self.risk_profiles@),
            risk_presets: text::views(self.risk_presets@),
            channels: text::views(self.channels@),
        }
    }
}

// ── Submissions ─────────────────────────────────────────────────────

/// Everything the wizard collects for one swarm. Optional fields carry a default
/// rather than forcing a client to restate it.
#[derive(Debug, PartialEq, Eq)]
pub struct SwarmSubmission {
    /// Caller-chosen id. Generated when absent, which is the normal path;
    /// supplied on update so the round trip keeps the same swarm.
    pub swarm_id: Option<String>,
    pub name: String,
    pub provider: String,
    pub model: String,
    pub risk_profile: String,
    pub budget: SwarmBudget,
    pub channels: Vec<String>,
    pub role: String,
    pub goal: String,
    /// Roster override. Absent means the default unassigned roster.
    pub boxes: Option<Vec<BoxSpec>>,
}

/// A submission as plain values.
#[verifier::ext_equal]
pub struct SubmissionView {
    pub swarm_id: Option<Seq<char>>,
    pub name: Seq<char>,
    pub provider: Seq<char>,
    pub model: Seq<char>,
    pub risk_profile: Seq<char>,
    pub budget: SwarmBudget,
    pub channels: Seq<Seq<char>>,
    pub role: Seq<char>,
    pub goal: Seq<char>,
    pub boxes: Option<Seq<BoxSpecView>>,
}

/// The view of an optional roster.
pub open spec fn opt_boxes(o: Option<Vec<BoxSpec>>) -> Option<Seq<BoxSpecView>> {
    match o {
        Some(v) => Some(text::views(v@)),
        None => None,
    }
}

impl View for SwarmSubmission {
    type V = SubmissionView;

    open spec fn view(&self) -> SubmissionView {
        SubmissionView {
            swarm_id: duplicate::opt_view(self.swarm_id),
            name: self.name@,
            provider: self.provider@,
            model: self.model@,
            risk_profile: self.risk_profile@,
            budget: self.budget,
            channels: text::views(self.channels@),
            role: self.role@,
            goal: self.goal@,
            boxes: opt_boxes(self.boxes),
        }
    }
}

/// The submission that a stored spec came from.
pub open spec fn submission_of(spec: SwarmSpecView) -> SubmissionView {
    SubmissionView {
        swarm_id: Some(spec.id),
        name: spec.name,
        provider: spec.provider,
        model: spec.model,
        risk_profile: spec.risk_profile,
        budget: spec.budget,
        channels: spec.channels,
        role: spec.role,
        goal: spec.goal,
        boxes: Some(spec.boxes),
    }
}

impl SwarmSubmission {
    /// The submission a stored spec came from. Lets an update be expressed as
    /// "the authored submission with these fields replaced".
    pub fn from_spec(spec: &SwarmSpec) -> (r: Self)
        ensures
            r@ == submission_of(spec@),
            r.name@ == spec.name@ && r.provider@ == spec.provider@ && r.model@ == spec.model@,
            r.risk_profile@ == spec.risk_profile@ && r.budget == spec.budget,
            r.role@ == spec.role@ && r.goal@ == spec.goal@,
    {
        SwarmSubmission {
            swarm_id: Some(spec.id.clone()),
            name: spec.name.clone(),
            provider: spec.provider.clone(),
            model: spec.model.clone(),
            risk_profile: spec.risk_profile.clone(),
            budget: spec.budget,
            channels: copy_texts(&spec.channels),
            role: spec.role.clone(),
            goal: spec.goal.clone(),
            boxes: Some(duplicate_all(&spec.boxes)),
        }
    }
}

/// A partial edit of an authored swarm. Every field is optional; an absent
/// field is left as stored. It carries no roster.
#[derive(Debug)]
pub struct SwarmSpecPatch {
    pub name: Option<String>,
    pub provider: Option<String>,
    pub model: Option<String>,
    pub risk_profile: Option<String>,
    pub budget: Option<SwarmBudget>,
    pub channels: Option<Vec<String>>,
    pub role: Option<String>,
    pub goal: Option<String>,
}

/// A partial edit as plain values.
#[verifier::ext_equal]
pub struct PatchView {
    pub name: Option<Seq<char>>,
    pub provider: Option<Seq<char>>,
    pub model: Option<Seq<char>>,
    pub risk_profile: Option<Seq<char>>,
    pub budget: Option<SwarmBudget>,
    pub channels: Option<Seq<Seq<char>>>,
    pub role: Option<Seq<char>>,
    pub goal: Option<Seq<char>>,
}

impl View for SwarmSpecPatch {
    type V = PatchView;

    open spec fn view(&self) -> PatchView {
        PatchView {
            name: duplicate::opt_view(self.name),
            provider: duplicate::opt_view(self.provider),
            model: duplicate::opt_view(self.model),
            risk_profile: duplicate::opt_view(self.risk_profile),
            budget: self.budget,
            channels: opt_texts(self.channels),
            role: duplicate::opt_view(self.role),
            goal: duplicate::opt_view(self.goal),
        }
    }
}

impl Default for SwarmSpecPatch {
    fn default() -> (r: Self)
        ensures
            r@ == (PatchView {
                name: None,
                provider: None,
                model: None,
                risk_profile: None,
                budget: None,
                channels: None,
                role: None,
                goal: None,
            }),
    {
        SwarmSpecPatch {
            name: None,
            provider: None,
            model: None,
            risk_profile: None,
            budget: None,
            channels: None,
            role: None,
            goal: None,
        }
    }
}

/// `new` where it is set, else `old`.
pub open spec fn set_or<T>(new: Option<T>, old_value: T) -> T {
    match new {
        Some(v) => v,
        None => old_value,
    }
}

impl PatchView {
    /// `submission` with the set fields replaced.
    pub open spec fn applied(self, submission: SubmissionView) -> SubmissionView {
        SubmissionView {
            name: set_or(self.name, submission.name),
            provider: set_or(self.provider, submission.provider),
            model: set_or(self.model, submission.model),
            risk_profile: set_or(self.risk_profile, submission.risk_profile),
            budget: set_or(self.budget, submission.budget),
            channels: set_or(self.channels, submission.channels),
            role: set_or(self.role, submission.role),
            goal: set_or(self.goal, submission.goal),
            ..submission
        }
    }
}

impl SwarmSpecPatch {
    /// Overlay the set fields onto a submission. Normalization and validation
    /// stay in [`prepare_spec`], so this only chooses values.
    pub fn apply(&self, submission: &mut SwarmSubmission)
        ensures
            final(submission)@ == self@.applied(old(submission)@),
            self.name matches Some(v) ==> final(submission).name@ == v@,
            self.provider matches Some(v) ==> final(submission).provider@ == v@,
            self.model matches Some(v) ==> final(submission).model@ == v@,
            self.risk_profile matches Some(v) ==> final(submission).risk_profile@ == v@,
            self.budget matches Some(v) ==> final(submission).budget == v,
            self.role matches Some(v) ==> final(submission).role@ == v@,
            self.goal matches Some(v) ==> final(submission).goal@ == v@,
    {
        if let Some(v) = &self.name {
            submission.name = v.clone();
        }
        if let Some(v) = &self.provider {
            submission.provider = v.clone();
        }
        if let Some(v) = &self.model {
            submission.model = v.clone();
        }
        if let Some(v) = &self.risk_profile {
            submission.risk_profile = v.clone();
        }
        if let Some(v) = self.budget {
            submission.budget = v;
        }
        if let Some(v) = &self.channels {
            submission.channels = copy_texts(v);
        }
        if let Some(v) = &self.role {
            submission.role = v.clone();
        }
        if let Some(v) = &self.goal {
            submission.goal = v.clone();
        }
    }
}

// ── Validation ──────────────────────────────────────────────────────

/// A rejection as plain values.
pub open spec fn problem(
    step: Option<SwarmWizardStep>,
    field: Seq<char>,
    message: Seq<char>,
) -> ProblemView {
    ProblemView { step, field, message }
}

/// No rejection.
pub open spec fn fine() -> Seq<ProblemView> {
    Seq::empty()
}

/// What is wrong with a text that must be there and have at most `max` characters.
pub open spec fn length_problems(
    step: Option<SwarmWizardStep>,
    field: Seq<char>,
    value: Seq<char>,
    max: nat,
    missing: Seq<char>,
    too_long: Seq<char>,
) -> Seq<ProblemView> {
    if value.len() == 0 {
        seq![problem(step, field, missing)]
    } else if value.len() > max {
        seq![problem(step, field, too_long)]
    } else {
        fine()
    }
}

/// What is wrong with a caller-supplied swarm id.
pub open spec fn id_problems(id: Seq<char>) -> Seq<ProblemView> {
    (if id.len() > MAX_SWARM_ID_LEN {
        seq![
            problem(
                None,
                "swarm_id"@,
                "a swarm id is at most "@ + text::numeral(MAX_SWARM_ID_LEN as nat)
                    + " characters"@,
            ),
        ]
    } else {
        fine()
    }) + (if text::first_unsluggable(id) is Some {
        seq![
            problem(
                None,
                "swarm_id"@,
                "swarm id '"@ + id
                    + "' may only use ASCII letters, digits, '-' and '_'; omit it to have one generated"@,
            ),
        ]
    } else {
        fine()
    })
}

/// The part of a provider reference before its first dot.
pub open spec fn family_of(provider: Seq<char>) -> Seq<char> {
    provider.take(text::first_of(provider, '.', '.'))
}

/// What is wrong with a provider. A bare family name is accepted too: the rules
/// must not be stricter than the request path they feed.
pub open spec fn provider_problems(provider: Seq<char>, config: ConfigView) -> Seq<ProblemView> {
    let step = Some(SwarmWizardStep::Provider);
    if provider.len() == 0 {
        seq![problem(step, "provider"@, "pick the model provider every box talks to"@)]
    } else if config.model_providers.contains(provider) || config.provider_families.contains(
        family_of(provider),
    ) {
        fine()
    } else {
        let known = if config.model_providers.len() == 0 {
            "no model provider is configured yet; run quickstart, or name a provider family"@
        } else {
            "configured providers: "@ + text::joined(config.model_providers, ", "@)
        };
        seq![
            problem(
                step,
                "provider"@,
                "unknown model provider '"@ + provider + "' ("@ + known + ")"@,
            ),
        ]
    }
}

/// `names` followed by those of the first `n` presets that do not stand there yet.
pub open spec fn with_presets(
    names: Seq<Seq<char>>,
    presets: Seq<Seq<char>>,
    n: int,
) -> Seq<Seq<char>>
    decreases n,
{
    if n <= 0 {
        names
    } else {
        let earlier = with_presets(names, presets, n - 1);
        if earlier.contains(presets[n - 1]) {
            earlier
        } else {
            earlier.push(presets[n - 1])
        }
    }
}

/// Configured risk profiles first, then the canonical presets.
pub open spec fn risk_names(config: ConfigView) -> Seq<Seq<char>> {
    with_presets(config.risk_profiles, config.risk_presets, config.risk_presets.len() as int)
}

/// What is wrong with a risk profile.
pub open spec fn risk_problems(risk_profile: Seq<char>, config: ConfigView) -> Seq<ProblemView> {
    let step = Some(SwarmWizardStep::RiskProfile);
    if risk_profile.len() == 0 {
        seq![problem(step, "risk_profile"@, "pick the risk profile every box runs under"@)]
    } else if risk_names(config).contains(risk_profile) {
        fine()
    } else {
        seq![
            problem(
                step,
                "risk_profile"@,
                "unknown risk profile '"@ + risk_profile + "'; pick one of: "@ + text::joined(
                    risk_names(config),
                    ", "@,
                ),
            ),
        ]
    }
}

/// What is wrong with a budget: a custom ceiling that admits nothing.
pub open spec fn budget_problems(budget: SwarmBudget) -> Seq<ProblemView> {
    let step = Some(SwarmWizardStep::Boundedness);
    match budget {
        SwarmBudget::Preset(_) => fine(),
        SwarmBudget::Custom(limits) => (if limits.max_turns == 0 {
            seq![problem(step, "max_turns"@, "a custom budget needs at least one turn"@)]
        } else {
            fine()
        }) + (if limits.max_tokens == 0 {
            seq![problem(step, "max_tokens"@, "a custom budget needs a non-zero token ceiling"@)]
        } else {
            fine()
        }) + (if limits.max_cost_usd.micros == 0 {
            seq![
                problem(
                    step,
                    "max_cost_usd"@,
                    "a custom budget needs a positive cost ceiling in USD"@,
                ),
            ]
        } else {
            fine()
        }),
    }
}

/// What is wrong with the `i`-th channel.
pub open spec fn channel_problem(
    channels: Seq<Seq<char>>,
    configured: Seq<Seq<char>>,
    i: int,
) -> Option<Seq<char>> {
    let channel = channels[i];
    if channel.len() == 0 {
        Some("a channel entry is blank; remove it or name a configured channel"@)
    } else if channels.take(i).contains(channel) {
        Some("channel '"@ + channel + "' is listed more than once"@)
    } else if configured.contains(channel) {
        None
    } else {
        let known = if configured.len() == 0 {
            "no channel is configured yet"@
        } else {
            "configured channels: "@ + text::joined(configured, ", "@)
        };
        Some("unknown channel '"@ + channel + "' ("@ + known + ")"@)
    }
}

/// What is wrong with the first `n` channels.
pub open spec fn channel_problems(
    channels: Seq<Seq<char>>,
    configured: Seq<Seq<char>>,
    n: int,
) -> Seq<ProblemView>
    decreases n,
{
    if n <= 0 {
        fine()
    } else {
        let earlier = channel_problems(channels, configured, n - 1);
        match channel_problem(channels, configured, n - 1) {
            Some(message) => earlier.push(
                problem(Some(SwarmWizardStep::Channels), "channels"@, message),
            ),
            None => earlier,
        }
    }
}

/// The slots of boxes, in order.
pub open spec fn spec_slots(boxes: Seq<BoxSpecView>) -> Seq<u8> {
    Seq::new(boxes.len(), |i: int| boxes[i].slot)
}

/// What is wrong with the id of the `i`-th box.
pub open spec fn box_id_problem(boxes: Seq<BoxSpecView>, i: int) -> Option<Seq<char>> {
    let id = boxes[i].box_id;
    if id.len() == 0 {
        Some("every box needs a box_id"@)
    } else if roster::spec_ids(boxes).take(i).contains(id) {
        Some("box_id '"@ + id + "' is used by more than one box"@)
    } else {
        None
    }
}

/// What is wrong with the slot of the `i`-th box.
pub open spec fn slot_problem(boxes: Seq<BoxSpecView>, i: int) -> Option<Seq<char>> {
    let slot = boxes[i].slot;
    if slot >= MAX_ROSTER_SIZE {
        Some(
            "box '"@ + boxes[i].box_id + "' asks for slot "@ + text::numeral(slot as nat)
                + " but the pane grid has slots 0-"@ + text::numeral(
                (MAX_ROSTER_SIZE - 1) as nat,
            ),
        )
    } else if spec_slots(boxes).take(i).contains(slot) {
        Some("slot "@ + text::numeral(slot as nat) + " is claimed by more than one box"@)
    } else {
        None
    }
}

/// `problems`, and one more where there is a message.
pub open spec fn noted(problems: Seq<ProblemView>, message: Option<Seq<char>>) -> Seq<ProblemView> {
    match message {
        Some(m) => problems.push(problem(None, "boxes"@, m)),
        None => problems,
    }
}

/// What is wrong with the first `n` boxes.
pub open spec fn box_problems(boxes: Seq<BoxSpecView>, n: int) -> Seq<ProblemView>
    decreases n,
{
    if n <= 0 {
        fine()
    } else {
        noted(
            noted(box_problems(boxes, n - 1), box_id_problem(boxes, n - 1)),
            slot_problem(boxes, n - 1),
        )
    }
}

/// What is wrong with a roster.
pub open spec fn roster_problems(boxes: Seq<BoxSpecView>) -> Seq<ProblemView> {
    if boxes.len() == 0 {
        seq![problem(None, "boxes"@, "a swarm needs at least one box"@)]
    } else {
        (if boxes.len() > MAX_ROSTER_SIZE {
            seq![
                problem(
                    None,
                    "boxes"@,
                    "a swarm carries at most "@ + text::numeral(MAX_ROSTER_SIZE as nat)
                        + " boxes, got "@ + text::numeral(boxes.len()),
                ),
            ]
        } else {
            fine()
        }) + box_problems(boxes, boxes.len() as int)
    }
}

/// What is wrong with a spec, in the order of its fields.
pub open spec fn spec_problems(spec: SwarmSpecView, config: ConfigView) -> Seq<ProblemView> {
    length_problems(
        None,
        "name"@,
        spec.name,
        MAX_SWARM_NAME_LEN as nat,
        "a swarm needs a name"@,
        "a swarm name is at most "@ + text::numeral(MAX_SWARM_NAME_LEN as nat) + " characters"@,
    ) + provider_problems(spec.provider, config) + (if spec.model.len() == 0 {
        seq![
            problem(Some(SwarmWizardStep::Model), "model"@, "pick the model every box runs"@),
        ]
    } else {
        fine()
    }) + risk_problems(spec.risk_profile, config) + budget_problems(spec.budget)
        + channel_problems(spec.channels, config.channels, spec.channels.len() as int)
        + length_problems(
        Some(SwarmWizardStep::Role),
        "role"@,
        spec.role,
        MAX_SWARM_ROLE_LEN as nat,
        "describe the supervising role the swarm plays"@,
        "a swarm role is at most "@ + text::numeral(MAX_SWARM_ROLE_LEN as nat) + " characters"@,
    ) + length_problems(
        Some(SwarmWizardStep::Goal),
        "goal"@,
        spec.goal,
        MAX_SWARM_GOAL_LEN as nat,
        "state what this swarm is being created to accomplish"@,
        "a swarm goal is at most "@ + text::numeral(MAX_SWARM_GOAL_LEN as nat) + " characters"@,
    ) + roster_problems(spec.boxes)
}

fn check_length(
    step: Option<SwarmWizardStep>,
    field: &str,
    value: &str,
    max: usize,
    missing: &str,
    what: &str,
) -> (r: Vec<SwarmValidationError>)
    ensures
        text::views(r@) == length_problems(
            step,
            field@,
            value@,
            max as nat,
            missing@,
            what@ + text::numeral(max as nat) + " characters"@,
        ),
{
    let mut out: Vec<SwarmValidationError> = Vec::new();
    if value.is_empty() {
        out.push(SwarmValidationError::new(step, field, missing));
    } else if value.unicode_len() > max {
        let mut message = what.to_owned();
        message.append(decimal(max as u64).as_str());
        message.append(" characters");
        out.push(SwarmValidationError::new(step, field, message.as_str()));
    }
    assert(text::views(out@) =~= length_problems(
        step,
        field@,
        value@,
        max as nat,
        missing@,
        what@ + text::numeral(max as nat) + " characters"@,
    ));
    out
}

/// Checks a caller-supplied swarm id.
pub fn validate_id(id: &str) -> (r: Vec<SwarmValidationError>)
    ensures
        text::views(r@) == id_problems(id@),
{
    let mut out: Vec<SwarmValidationError> = Vec::new();
    if id.unicode_len() > MAX_SWARM_ID_LEN {
        let mut message = "a swarm id is at most ".to_owned();
        message.append(decimal(MAX_SWARM_ID_LEN as u64).as_str());
        message.append(" characters");
        out.push(SwarmValidationError::new(None, "swarm_id", message.as_str()));
    }
    if find_unsluggable(id).is_some() {
        let mut message = "swarm id '".to_owned();
        message.append(id);
        message.append(
            "' may only use ASCII letters, digits, '-' and '_'; omit it to have one generated",
        );
        out.push(SwarmValidationError::new(None, "swarm_id", message.as_str()));
    }
    assert(text::views(out@) =~= id_problems(id@));
    out
}

/// `anthropic.main` to `anthropic`. A bare family name passes through.
pub fn provider_family(provider: &str) -> (r: &str)
    ensures
        r@ == family_of(provider@),
{
    let chars = chars_of(provider);
    let at: usize = find_of(&chars, '.', '.');
    let family = provider.substring_char(0, at);
    assert(family@ =~= family_of(provider@));
    family
}

/// The family and the alias of a provider reference; `None` for a bare family name.
pub open spec fn entry_of(provider: Seq<char>) -> Option<(Seq<char>, Seq<char>)> {
    let at = text::first_of(provider, '.', '.');
    if at < provider.len() {
        Some((provider.take(at), provider.skip(at + 1)))
    } else {
        None
    }
}

/// `anthropic.main` to `anthropic` and `main`: where the credentials of a provider are
/// configured.
pub fn provider_entry(provider: &str) -> (r: Option<(&str, &str)>)
    ensures
        match r {
            Some((family, alias)) => entry_of(provider@) == Some((family@, alias@)),
            None => entry_of(provider@) is None,
        },
{
    let chars = chars_of(provider);
    let at: usize = find_of(&chars, '.', '.');
    if at < chars.len() {
        let family = provider.substring_char(0, at);
        let alias = provider.substring_char(at + 1, chars.len());
        assert(family@ =~= provider@.take(at as int));
        assert(alias@ =~= provider@.skip(at + 1));
        Some((family, alias))
    } else {
        None
    }
}

/// Checks a provider.
pub fn validate_provider(provider: &str, config: &WizardConfig) -> (r: Vec<SwarmValidationError>)
    ensures
        text::views(r@) == provider_problems(provider@, config@),
{
    let step = Some(SwarmWizardStep::Provider);
    let mut out: Vec<SwarmValidationError> = Vec::new();
    if provider.is_empty() {
        out.push(
            SwarmValidationError::new(
                step,
                "provider",
                "pick the model provider every box talks to",
            ),
        );
    } else if !contains_text(&config.model_providers, provider) && !contains_text(
        &config.provider_families,
        provider_family(provider),
    ) {
        let mut message = "unknown model provider '".to_owned();
        message.append(provider);
        message.append("' (");
        if config.model_providers.len() == 0 {
            message.append(
                "no model provider is configured yet; run quickstart, or name a provider family",
            );
        } else {
            message.append(
                "configured providers: ".to_owned().concat(
                    join(&config.model_providers, ", ").as_str(),
                ).as_str(),
            );
        }
        message.append(")");
        out.push(SwarmValidationError::new(step, "provider", message.as_str()));
    }
    assert(text::views(out@) =~= provider_problems(provider@, config@));
    out
}

/// Configured risk profiles first, then the canonical presets a client can
/// install. One list, so the picker and the validator cannot disagree.
pub fn risk_profile_names(config: &WizardConfig) -> (r: Vec<String>)
    ensures
        text::views(r@) == risk_names(config@),
{
    let mut names = copy_texts(&config.risk_profiles);
    let mut i: usize = 0;
    while i < config.risk_presets.len()
        invariant
            i <= config.risk_presets.len(),
            text::views(names@) == with_presets(
                config@.risk_profiles,
                config@.risk_presets,
                i as int,
            ),
        decreases config.risk_presets.len() - i,
    {
        let ghost before = text::views(names@);
        let preset = &config.risk_presets[i];
        assert(preset@ == config@.risk_presets[i as int]);
        if !contains_text(&names, preset.as_str()) {
            names.push(preset.clone());
            assert(text::views(names@) =~= before.push(preset@));
        }
        i += 1;
    }
    names
}

/// Checks a risk profile.
pub fn validate_risk_profile(risk_profile: &str, config: &WizardConfig) -> (r: Vec<
    SwarmValidationError,
>)
    ensures
        text::views(r@) == risk_problems(risk_profile@, config@),
{
    let step = Some(SwarmWizardStep::RiskProfile);
    let mut out: Vec<SwarmValidationError> = Vec::new();
    if risk_profile.is_empty() {
        out.push(
            SwarmValidationError::new(
                step,
                "risk_profile",
                "pick the risk profile every box runs under",
            ),
        );
    } else {
        let known = risk_profile_names(config);
        if !contains_text(&known, risk_profile) {
            let mut message = "unknown risk profile '".to_owned();
            message.append(risk_profile);
            message.append("'; pick one of: ");
            message.append(join(&known, ", ").as_str());
            out.push(SwarmValidationError::new(step, "risk_profile", message.as_str()));
        }
    }
    assert(text::views(out@) =~= risk_problems(risk_profile@, config@));
    out
}

/// Checks a budget.
pub fn validate_budget(budget: SwarmBudget) -> (r: Vec<SwarmValidationError>)
    ensures
        text::views(r@) == budget_problems(budget),
{
    let step = Some(SwarmWizardStep::Boundedness);
    let mut out: Vec<SwarmValidationError> = Vec::new();
    if let SwarmBudget::Custom(limits) = budget {
        if limits.max_turns == 0 {
            out.push(
                SwarmValidationError::new(
                    step,
                    "max_turns",
                    "a custom budget needs at least one turn",
                ),
            );
        }
        if limits.max_tokens == 0 {
            out.push(
                SwarmValidationError::new(
                    step,
                    "max_tokens",
                    "a custom budget needs a non-zero token ceiling",
                ),
            );
        }
        if limits.max_cost_usd.micros == 0 {
            out.push(
                SwarmValidationError::new(
                    step,
                    "max_cost_usd",
                    "a custom budget needs a positive cost ceiling in USD",
                ),
            );
        }
    }
    assert(text::views(out@) =~= budget_problems(budget));
    out
}

/// Whether `s` stands among the first `n` of `items`.
fn stands_before(items: &Vec<String>, n: usize, s: &str) -> (r: bool)
    requires
        n <= items.len(),
    ensures
        r == text::views(items@).take(n as int).contains(s@),
{
    let ghost seen = text::views(items@).take(n as int);
    let mut j: usize = 0;
    while j < n
        invariant
            j <= n <= items.len(),
            seen == text::views(items@).take(n as int),
            forall|k: int| 0 <= k < j ==> seen[k] != s@,
        decreases n - j,
    {
        assert(seen[j as int] == items@[j as int]@);
        if text_eq(items[j].as_str(), s) {
            return true;
        }
        j += 1;
    }
    false
}

/// Checks the channels.
pub fn validate_channels(channels: &Vec<String>, config: &WizardConfig) -> (r: Vec<
    SwarmValidationError,
>)
    ensures
        text::views(r@) == channel_problems(
            text::views(channels@),
            config@.channels,
            channels.len() as int,
        ),
{
    let step = Some(SwarmWizardStep::Channels);
    let mut out: Vec<SwarmValidationError> = Vec::new();
    let ghost listed = text::views(channels@);
    let mut i: usize = 0;
    assert(text::views(out@) =~= fine());
    while i < channels.len()
        invariant
            i <= channels.len(),
            listed == text::views(channels@),
            step == Some(SwarmWizardStep::Channels),
            text::views(out@) == channel_problems(listed, config@.channels, i as int),
        decreases channels.len() - i,
    {
        let ghost before = text::views(out@);
        let channel = channels[i].as_str();
        assert(channel@ == listed[i as int]);
        let mut message = String::new();
        let mut bad = true;
        if channel.is_empty() {
            message.append("a channel entry is blank; remove it or name a configured channel");
        } else if stands_before(channels, i, channel) {
            message.append("channel '");
            message.append(channel);
            message.append("' is listed more than once");
        } else if contains_text(&config.channels, channel) {
            bad = false;
        } else {
            message.append("unknown channel '");
            message.append(channel);
            message.append("' (");
            if config.channels.len() == 0 {
                message.append("no channel is configured yet");
            } else {
                message.append(
                    "configured channels: ".to_owned().concat(
                        join(&config.channels, ", ").as_str(),
                    ).as_str(),
                );
            }
            message.append(")");
        }
        let ghost said = channel_problem(listed, config@.channels, i as int);
        assert(bad == (said is Some));
        if bad {
            assert(message@ =~= said->0);
            out.push(SwarmValidationError::new(step, "channels", message.as_str()));
            assert(text::views(out@) =~= before.push(problem(step, "channels"@, message@)));
        }
        i += 1;
    }
    out
}

/// Validate a roster on its own. Moving a box must not fail because a provider
/// alias was renamed out from under a swarm that already exists.
pub fn validate_roster(boxes: &Vec<BoxSpec>) -> (r: Vec<SwarmValidationError>)
    ensures
        text::views(r@) == roster_problems(text::views(boxes@)),
{
    let ghost specs = text::views(boxes@);
    let mut out: Vec<SwarmValidationError> = Vec::new();
    if boxes.len() == 0 {
        out.push(SwarmValidationError::new(None, "boxes", "a swarm needs at least one box"));
        assert(text::views(out@) =~= roster_problems(specs));
        return out;
    }
    if boxes.len() > MAX_ROSTER_SIZE {
        let mut message = "a swarm carries at most ".to_owned();
        message.append(decimal(MAX_ROSTER_SIZE as u64).as_str());
        message.append(" boxes, got ");
        message.append(decimal(boxes.len() as u64).as_str());
        out.push(SwarmValidationError::new(None, "boxes", message.as_str()));
    }
    let ghost head = text::views(out@);
    proof {
        assert(head =~= if specs.len() > MAX_ROSTER_SIZE {
            seq![
                problem(
                    None,
                    "boxes"@,
                    "a swarm carries at most "@ + text::numeral(MAX_ROSTER_SIZE as nat)
                        + " boxes, got "@ + text::numeral(specs.len()),
                ),
            ]
        } else {
            fine()
        });
    }
    let mut i: usize = 0;
    assert(head + fine() =~= head);
    while i < boxes.len()
        invariant
            i <= boxes.len(),
            specs == text::views(boxes@),
            text::views(out@) == head + box_problems(specs, i as int),
        decreases boxes.len() - i,
    {
        let ghost start = text::views(out@);
        let b = &boxes[i];
        assert(b@ == specs[i as int]);
        let mut id_seen = false;
        let mut slot_seen = false;
        let mut j: usize = 0;
        while j < i
            invariant
                j <= i < boxes.len(),
                specs == text::views(boxes@),
                b@ == specs[i as int],
                id_seen <==> roster::spec_ids(specs).take(j as int).contains(b@.box_id),
                slot_seen <==> spec_slots(specs).take(j as int).contains(b@.slot),
            decreases i - j,
        {
            let earlier = &boxes[j];
            assert(earlier@ == specs[j as int]);
            let ghost ids = roster::spec_ids(specs);
            let ghost slots = spec_slots(specs);
            proof {
                assert(ids.take(j + 1) =~= ids.take(j as int).push(ids[j as int]));
                assert(slots.take(j + 1) =~= slots.take(j as int).push(slots[j as int]));
                push_contains(ids.take(j as int), ids[j as int], b@.box_id);
                push_contains(slots.take(j as int), slots[j as int], b@.slot);
            }
            if text_eq(earlier.box_id.as_str(), b.box_id.as_str()) {
                id_seen = true;
            }
            if earlier.slot == b.slot {
                slot_seen = true;
            }
            j += 1;
        }
        if b.box_id.as_str().is_empty() {
            out.push(SwarmValidationError::new(None, "boxes", "every box needs a box_id"));
        } else if id_seen {
            let mut message = "box_id '".to_owned();
            message.append(b.box_id.as_str());
            message.append("' is used by more than one box");
            out.push(SwarmValidationError::new(None, "boxes", message.as_str()));
        }
        let ghost middle = text::views(out@);
        assert(middle =~= noted(start, box_id_problem(specs, i as int)));
        if b.slot as usize >= MAX_ROSTER_SIZE {
            let mut message = "box '".to_owned();
            message.append(b.box_id.as_str());
            message.append("' asks for slot ");
            message.append(decimal(b.slot as u64).as_str());
            message.append(" but the pane grid has slots 0-");
            message.append(decimal(MAX_ROSTER_SIZE as u64 - 1).as_str());
            out.push(SwarmValidationError::new(None, "boxes", message.as_str()));
        } else if slot_seen {
            let mut message = "slot ".to_owned();
            message.append(decimal(b.slot as u64).as_str());
            message.append(" is claimed by more than one box");
            out.push(SwarmValidationError::new(None, "boxes", message.as_str()));
        }
        assert(text::views(out@) =~= noted(middle, slot_problem(specs, i as int)));
        assert(text::views(out@) =~= head + box_problems(specs, i + 1));
        i += 1;
    }
    out
}

proof fn push_contains<T>(s: Seq<T>, x: T, y: T)
    ensures
        s.push(x).contains(y) <==> s.contains(y) || x == y,
{
    if s.contains(y) {
        let k = choose|k: int| 0 <= k < s.len() && s[k] == y;
        assert(s.push(x)[k] == y);
    }
    if x == y {
        assert(s.push(x)[s.len() as int] == y);
    }
    if s.push(x).contains(y) {
        let k = choose|k: int| 0 <= k < s.push(x).len() && s.push(x)[k] == y;
        if k < s.len() {
            assert(s[k] == y);
        }
    }
}

/// Appends `more` to `out`.
fn extend(out: &mut Vec<SwarmValidationError>, more: Vec<SwarmValidationError>)
    ensures
        text::views(final(out)@) == text::views(old(out)@) + text::views(more@),
{
    let mut rest = more;
    out.append(&mut rest);
    assert(text::views(out@) =~= text::views(old(out)@) + text::views(more@));
}

/// Validate an already-normalized spec.
pub fn validate_spec(spec: &SwarmSpec, config: &WizardConfig) -> (r: Vec<SwarmValidationError>)
    ensures
        text::views(r@) == spec_problems(spec@, config@),
{
    let mut out = check_length(
        None,
        "name",
        spec.name.as_str(),
        MAX_SWARM_NAME_LEN,
        "a swarm needs a name",
        "a swarm name is at most ",
    );
    extend(&mut out, validate_provider(spec.provider.as_str(), config));
    let mut model: Vec<SwarmValidationError> = Vec::new();
    if spec.model.as_str().is_empty() {
        model.push(
            SwarmValidationError::new(
                Some(SwarmWizardStep::Model),
                "model",
                "pick the model every box runs",
            ),
        );
    }
    assert(text::views(model@) =~= if spec@.model.len() == 0 {
        seq![
            problem(Some(SwarmWizardStep::Model), "model"@, "pick the model every box runs"@),
        ]
    } else {
        fine()
    });
    extend(&mut out, model);
    extend(&mut out, validate_risk_profile(spec.risk_profile.as_str(), config));
    extend(&mut out, validate_budget(spec.budget));
    extend(&mut out, validate_channels(&spec.channels, config));
    extend(
        &mut out,
        check_length(
            Some(SwarmWizardStep::Role),
            "role",
            spec.role.as_str(),
            MAX_SWARM_ROLE_LEN,
            "describe the supervising role the swarm plays",
            "a swarm role is at most ",
        ),
    );
    extend(
        &mut out,
        check_length(
            Some(SwarmWizardStep::Goal),
            "goal",
            spec.goal.as_str(),
            MAX_SWARM_GOAL_LEN,
            "state what this swarm is being created to accomplish",
            "a swarm goal is at most ",
        ),
    );
    extend(&mut out, validate_roster(&spec.boxes));
    out
}

// ── Normalization ───────────────────────────────────────────────────

/// A box with every authored string trimmed.
pub open spec fn trimmed_box(b: BoxSpecView) -> BoxSpecView {
    BoxSpecView {
        box_id: text::trimmed(b.box_id),
        role: text::trimmed(b.role),
        job: text::trimmed(b.job),
        slot: b.slot,
    }
}

/// A roster with every authored string trimmed.
pub open spec fn trimmed_roster(boxes: Seq<BoxSpecView>) -> Seq<BoxSpecView> {
    Seq::new(boxes.len(), |i: int| trimmed_box(boxes[i]))
}

/// A list with every text trimmed.
pub open spec fn trimmed_texts(items: Seq<Seq<char>>) -> Seq<Seq<char>> {
    Seq::new(items.len(), |i: int| text::trimmed(items[i]))
}

/// Trim every authored string in a roster. Applied before validation so a
/// stored box never carries stray whitespace in its id.
pub fn normalize_roster(boxes: &Vec<BoxSpec>) -> (r: Vec<BoxSpec>)
    ensures
        text::views(r@) == trimmed_roster(text::views(boxes@)),
{
    let mut out: Vec<BoxSpec> = Vec::new();
    let mut i: usize = 0;
    while i < boxes.len()
        invariant
            i <= boxes.len(),
            out.len() == i,
            forall|j: int| 0 <= j < i ==> (#[trigger] out@[j])@ == trimmed_box(boxes@[j]@),
        decreases boxes.len() - i,
    {
        let b = &boxes[i];
        out.push(
            BoxSpec {
                box_id: trim(b.box_id.as_str()).to_owned(),
                role: trim(b.role.as_str()).to_owned(),
                job: trim(b.job.as_str()).to_owned(),
                slot: b.slot,
            },
        );
        i += 1;
    }
    assert(text::views(out@) =~= trimmed_roster(text::views(boxes@)));
    out
}

fn trim_all(items: &Vec<String>) -> (r: Vec<String>)
    ensures
        text::views(r@) == trimmed_texts(text::views(items@)),
{
    let mut out: Vec<String> = Vec::new();
    let mut i: usize = 0;
    while i < items.len()
        invariant
            i <= items.len(),
            out.len() == i,
            forall|j: int| 0 <= j < i ==> (#[trigger] out@[j])@ == text::trimmed(items@[j]@),
        decreases items.len() - i,
    {
        out.push(trim(items[i].as_str()).to_owned());
        i += 1;
    }
    assert(text::views(out@) =~= trimmed_texts(text::views(items@)));
    out
}

impl SubmissionView {
    /// The caller names the swarm.
    pub open spec fn names_id(self) -> bool {
        self.swarm_id matches Some(id) && text::trimmed(id).len() > 0
    }

    /// The spec that a submission becomes, under `fresh` where it names no id.
    pub open spec fn normalized(self, fresh: Seq<char>) -> SwarmSpecView {
        SwarmSpecView {
            id: if self.names_id() {
                text::trimmed(self.swarm_id->0)
            } else {
                fresh
            },
            name: text::trimmed(self.name),
            provider: text::trimmed(self.provider),
            model: text::trimmed(self.model),
            risk_profile: text::trimmed(self.risk_profile),
            budget: self.budget,
            channels: trimmed_texts(self.channels),
            role: text::trimmed(self.role),
            goal: text::trimmed(self.goal),
            boxes: match self.boxes {
                Some(boxes) => trimmed_roster(boxes),
                None => model::blank_roster(DEFAULT_ROSTER_SIZE as nat),
            },
        }
    }

    /// What is wrong with a submission.
    pub open spec fn problems(self, fresh: Seq<char>, config: ConfigView) -> Seq<ProblemView> {
        let spec = self.normalized(fresh);
        (if self.names_id() {
            id_problems(spec.id)
        } else {
            fine()
        }) + spec_problems(spec, config)
    }
}

/// An id that the library mints: `sw-` and 32 hexadecimal digits.
pub open spec fn minted_id(id: Seq<char>) -> bool {
    &&& id.len() == 35
    &&& id.take(3) == "sw-"@
    &&& forall|i: int| 3 <= i < 35 ==> ids::hex_digit(#[trigger] id[i])
}

/// A fresh swarm id.
pub fn new_swarm_id() -> (r: String)
    ensures
        minted_id(r@),
{
    let digits = random_simple();
    let ghost d = digits@;
    let out = "sw-".to_owned().concat(digits.as_str());
    proof {
        reveal_strlit("sw-");
        assert(out@.take(3) =~= "sw-"@);
        assert forall|i: int| 3 <= i < 35 implies ids::hex_digit(#[trigger] out@[i]) by {
            assert(out@[i] == d[i - 3]);
        }
    }
    out
}

/// Normalize a submission and validate it against live config. The single gate
/// every write goes through.
pub fn prepare_spec(submission: &SwarmSubmission, config: &WizardConfig) -> (r: Result<
    SwarmSpec,
    Vec<SwarmValidationError>,
>)
    ensures
        exists|fresh: Seq<char>|
            #[trigger] minted_id(fresh) && match r {
                Ok(spec) => submission@.problems(fresh, config@).len() == 0 && spec@
                    == submission@.normalized(fresh),
                Err(errors) => submission@.problems(fresh, config@).len() > 0 && text::views(
                    errors@,
                ) == submission@.problems(fresh, config@),
            },
        r matches Ok(spec) ==> {
            &&& spec.name@ == text::trimmed(submission.name@)
            &&& spec.provider@ == text::trimmed(submission.provider@)
            &&& spec.model@ == text::trimmed(submission.model@)
            &&& spec.risk_profile@ == text::trimmed(submission.risk_profile@)
            &&& spec.budget == submission.budget
            &&& spec.role@ == text::trimmed(submission.role@)
            &&& spec.goal@ == text::trimmed(submission.goal@)
        },
{
    let fresh = new_swarm_id();
    prepare_spec_as(submission, config, fresh.as_str())
}

/// [`prepare_spec`], with `fresh` as the id of a swarm that names none.
pub fn prepare_spec_as(submission: &SwarmSubmission, config: &WizardConfig, fresh: &str) -> (r:
    Result<SwarmSpec, Vec<SwarmValidationError>>)
    ensures
        match r {
            Ok(spec) => submission@.problems(fresh@, config@).len() == 0 && spec@
                == submission@.normalized(fresh@),
            Err(errors) => submission@.problems(fresh@, config@).len() > 0 && text::views(errors@)
                == submission@.problems(fresh@, config@),
        },
        r matches Ok(spec) ==> {
            &&& spec.name@ == text::trimmed(submission.name@)
            &&& spec.provider@ == text::trimmed(submission.provider@)
            &&& spec.model@ == text::trimmed(submission.model@)
            &&& spec.risk_profile@ == text::trimmed(submission.risk_profile@)
            &&& spec.budget == submission.budget
            &&& spec.role@ == text::trimmed(submission.role@)
            &&& spec.goal@ == text::trimmed(submission.goal@)
        },
        text::trimmed(submission.role@).len() == 0 ==> (r matches Err(errors) && raised(
            text::views(errors@),
            Some(SwarmWizardStep::Role),
            "role"@,
        )),
        text::trimmed(submission.goal@).len() == 0 ==> (r matches Err(errors) && raised(
            text::views(errors@),
            Some(SwarmWizardStep::Goal),
            "goal"@,
        )),
{
    proof {
        what_a_submission_is_refused_for(submission@, fresh@, config@);
    }
    let mut errors: Vec<SwarmValidationError> = Vec::new();
    assert(text::views(errors@) =~= fine());
    let id = match &submission.swarm_id {
        Some(raw) => {
            let given = trim(raw.as_str());
            if given.is_empty() {
                fresh.to_owned()
            } else {
                errors = validate_id(given);
                given.to_owned()
            }
        },
        None => fresh.to_owned(),
    };
    let spec = SwarmSpec {
        id,
        name: trim(submission.name.as_str()).to_owned(),
        provider: trim(submission.provider.as_str()).to_owned(),
        model: trim(submission.model.as_str()).to_owned(),
        risk_profile: trim(submission.risk_profile.as_str()).to_owned(),
        budget: submission.budget,
        channels: trim_all(&submission.channels),
        role: trim(submission.role.as_str()).to_owned(),
        goal: trim(submission.goal.as_str()).to_owned(),
        boxes: match &submission.boxes {
            Some(boxes) => normalize_roster(boxes),
            None => default_roster(DEFAULT_ROSTER_SIZE),
        },
    };
    extend(&mut errors, validate_spec(&spec, config));
    assert(text::views(errors@).len() == errors@.len());
    if errors.len() == 0 {
        Ok(spec)
    } else {
        Err(errors)
    }
}

// ── Wizard field shapes ─────────────────────────────────────────────

/// A field with no choices, no prefill and no help.
pub open spec fn plain_field(key: Seq<char>, kind: PropKind, required: bool) -> FieldView {
    FieldView {
        key,
        label: key,
        help: Seq::empty(),
        kind,
        is_secret: false,
        enum_variants: None,
        required,
        default: None,
    }
}

/// A descriptor with no choices and no prefill. Help is left empty: a step whose
/// only input is the step itself says everything in its own help.
pub fn descriptor(key: &str, kind: PropKind, required: bool) -> (r: FieldDescriptor)
    ensures
        r@ == plain_field(key@, kind, required),
{
    FieldDescriptor {
        key: key.to_owned(),
        label: key.to_owned(),
        help: String::new(),
        kind,
        is_secret: false,
        enum_variants: None,
        required,
        default: None,
    }
}

/// The first of `items`.
pub open spec fn first_of_all(items: Seq<Seq<char>>) -> Option<Seq<char>> {
    if items.len() > 0 {
        Some(items[0])
    } else {
        None
    }
}

fn first_text(items: &Vec<String>) -> (r: Option<String>)
    ensures
        duplicate::opt_view(r) == first_of_all(text::views(items@)),
{
    if items.len() > 0 {
        Some(items[0].clone())
    } else {
        None
    }
}

/// The fields among the first `n` that are not the model.
pub open spec fn without_model(fields: Seq<FieldView>, n: int) -> Seq<FieldView>
    decreases n,
{
    if n <= 0 {
        Seq::empty()
    } else {
        let earlier = without_model(fields, n - 1);
        if fields[n - 1].key == "model"@ {
            earlier
        } else {
            earlier.push(fields[n - 1])
        }
    }
}

/// The provider picker, and the credentials of a chosen provider that is not
/// configured yet. Those rows are advisory: they are config fields, not part of the
/// submission, and the model step owns the model.
pub open spec fn provider_shape(
    config: ConfigView,
    chosen: Option<Seq<char>>,
    credentials: Seq<FieldView>,
) -> Seq<FieldView> {
    let picker = FieldView {
        enum_variants: Some(
            with_presets(
                config.model_providers,
                config.provider_families,
                config.provider_families.len() as int,
            ),
        ),
        default: first_of_all(config.model_providers),
        ..plain_field("provider"@, PropKind::AliasRef, true)
    };
    let unconfigured = match chosen {
        Some(p) => text::trimmed(p).len() > 0 && !config.model_providers.contains(
            text::trimmed(p),
        ),
        None => false,
    };
    if unconfigured {
        seq![picker] + without_model(credentials, credentials.len() as int)
    } else {
        seq![picker]
    }
}

/// The model field: a picker once a catalogue is known, else free text.
pub open spec fn model_shape(models: Seq<Seq<char>>) -> FieldView {
    if models.len() == 0 {
        plain_field("model"@, PropKind::String, true)
    } else {
        FieldView {
            enum_variants: Some(models),
            default: Some(models[0]),
            ..plain_field("model"@, PropKind::Enum, true)
        }
    }
}

/// The risk field, landing on the recommended preset where it is on offer.
pub open spec fn risk_shape(config: ConfigView) -> FieldView {
    let names = risk_names(config);
    FieldView {
        enum_variants: Some(names),
        default: if names.contains(RECOMMENDED_RISK_PROFILE@) {
            Some(RECOMMENDED_RISK_PROFILE@)
        } else {
            first_of_all(names)
        },
        ..plain_field("risk_profile"@, PropKind::Enum, true)
    }
}

/// The budget fields: every preset and `custom`, and the triple of the default
/// preset to start a custom one from.
pub open spec fn budget_shape(helps: Seq<Seq<char>>) -> Seq<FieldView> {
    let standard = SwarmBudgetPreset::Standard.ceilings();
    seq![
        FieldView {
            help: helps[0],
            enum_variants: Some(
                seq![
                    SwarmBudgetPreset::Quick.name(),
                    SwarmBudgetPreset::Standard.name(),
                    SwarmBudgetPreset::Marathon.name(),
                    BUDGET_CUSTOM@,
                ],
            ),
            default: Some(SwarmBudgetPreset::Standard.name()),
            ..plain_field("budget_preset"@, PropKind::Enum, true)
        },
        FieldView {
            help: helps[1],
            default: Some(text::numeral(standard.max_turns as nat)),
            ..plain_field("max_turns"@, PropKind::Integer, false)
        },
        FieldView {
            help: helps[2],
            default: Some(text::numeral(standard.max_tokens as nat)),
            ..plain_field("max_tokens"@, PropKind::Integer, false)
        },
        FieldView {
            help: helps[3],
            default: Some(usd::dollars_text(standard.max_cost_usd.micros as nat)),
            ..plain_field("max_cost_usd"@, PropKind::Float, false)
        },
    ]
}

/// The keys of the help texts of the budget fields, in order.
pub open spec fn budget_help_keys() -> Seq<&'static str> {
    seq![
        "swarm-wizard-budget-preset-help",
        "swarm-wizard-max-turns-help",
        "swarm-wizard-max-tokens-help",
        "swarm-wizard-max-cost-help",
    ]
}

/// The channels field.
pub open spec fn channels_shape(config: ConfigView) -> FieldView {
    FieldView {
        enum_variants: Some(config.channels),
        ..plain_field("channels"@, PropKind::StringArray, false)
    }
}

/// The fields of one step.
pub open spec fn step_shape(
    step: SwarmWizardStep,
    config: ConfigView,
    provider: Option<Seq<char>>,
    models: Seq<Seq<char>>,
    credentials: Seq<FieldView>,
    helps: Seq<Seq<char>>,
) -> Seq<FieldView> {
    match step {
        SwarmWizardStep::Provider => provider_shape(config, provider, credentials),
        SwarmWizardStep::Model => seq![model_shape(models)],
        SwarmWizardStep::RiskProfile => seq![risk_shape(config)],
        SwarmWizardStep::Boundedness => budget_shape(helps),
        SwarmWizardStep::Channels => seq![channels_shape(config)],
        SwarmWizardStep::Role => seq![plain_field("role"@, PropKind::String, true)],
        SwarmWizardStep::Goal => seq![plain_field("goal"@, PropKind::String, true)],
    }
}

/// Every step renders something.
pub proof fn no_step_is_empty(
    step: SwarmWizardStep,
    config: ConfigView,
    provider: Option<Seq<char>>,
    models: Seq<Seq<char>>,
    credentials: Seq<FieldView>,
    helps: Seq<Seq<char>>,
)
    ensures
        step_shape(step, config, provider, models, credentials, helps).len() > 0,
{
}

/// The provider step's fields.
pub fn provider_fields(
    config: &WizardConfig,
    chosen: Option<&str>,
    credentials: &Vec<FieldDescriptor>,
) -> (r: Vec<FieldDescriptor>)
    ensures
        text::views(r@) == provider_shape(
            config@,
            opt_str(chosen),
            text::views(credentials@),
        ),
{
    let mut variants = copy_texts(&config.model_providers);
    let mut i: usize = 0;
    while i < config.provider_families.len()
        invariant
            i <= config.provider_families.len(),
            text::views(variants@) == with_presets(
                config@.model_providers,
                config@.provider_families,
                i as int,
            ),
        decreases config.provider_families.len() - i,
    {
        let ghost before = text::views(variants@);
        let family = &config.provider_families[i];
        assert(family@ == config@.provider_families[i as int]);
        if !contains_text(&variants, family.as_str()) {
            variants.push(family.clone());
            assert(text::views(variants@) =~= before.push(family@));
        }
        i += 1;
    }
    let mut picker = descriptor("provider", PropKind::AliasRef, true);
    picker.enum_variants = Some(variants);
    picker.default = first_text(&config.model_providers);
    let ghost first = picker@;
    let mut out: Vec<FieldDescriptor> = Vec::new();
    out.push(picker);
    let unconfigured = match chosen {
        Some(p) => {
            let p = trim(p);
            !p.is_empty() && !contains_text(&config.model_providers, p)
        },
        None => false,
    };
    assert(text::views(out@) =~= seq![first]);
    if unconfigured {
        let ghost given = text::views(credentials@);
        let mut k: usize = 0;
        assert(seq![first] + without_model(given, 0) =~= seq![first]);
        while k < credentials.len()
            invariant
                k <= credentials.len(),
                given == text::views(credentials@),
                text::views(out@) == seq![first] + without_model(given, k as int),
            decreases credentials.len() - k,
        {
            let ghost before = text::views(out@);
            assert(credentials@[k as int]@ == given[k as int]);
            if !text_eq(credentials[k].key.as_str(), "model") {
                out.push(credentials[k].duplicate());
                assert(text::views(out@) =~= before.push(given[k as int]));
                assert(text::views(out@) =~= seq![first] + without_model(given, k + 1));
            }
            k += 1;
        }
    }
    out
}

/// The view of an optional text.
pub open spec fn opt_str(o: Option<&str>) -> Option<Seq<char>> {
    match o {
        Some(s) => Some(s@),
        None => None,
    }
}

/// The model step's field. With no catalogue it falls back to free text rather than
/// an empty picker the client cannot answer.
pub fn model_field(models: &Vec<String>) -> (r: FieldDescriptor)
    ensures
        r@ == model_shape(text::views(models@)),
{
    if models.len() == 0 {
        return descriptor("model", PropKind::String, true);
    }
    let mut out = descriptor("model", PropKind::Enum, true);
    out.enum_variants = Some(copy_texts(models));
    out.default = Some(models[0].clone());
    out
}

/// The risk step's field.
pub fn risk_profile_field(config: &WizardConfig) -> (r: FieldDescriptor)
    ensures
        r@ == risk_shape(config@),
{
    let names = risk_profile_names(config);
    let mut out = descriptor("risk_profile", PropKind::Enum, true);
    out.default = if contains_text(&names, RECOMMENDED_RISK_PROFILE) {
        Some(RECOMMENDED_RISK_PROFILE.to_owned())
    } else {
        first_text(&names)
    };
    out.enum_variants = Some(names);
    out
}

/// The boundedness step's fields, with their help texts in order.
pub fn boundedness_fields(
    preset_help: String,
    turns_help: String,
    tokens_help: String,
    cost_help: String,
) -> (r: Vec<FieldDescriptor>)
    ensures
        text::views(r@) == budget_shape(
            seq![preset_help@, turns_help@, tokens_help@, cost_help@],
        ),
{
    let ghost helps = seq![preset_help@, turns_help@, tokens_help@, cost_help@];
    let mut variants: Vec<String> = Vec::new();
    variants.push(SwarmBudgetPreset::Quick.wire_name().to_owned());
    variants.push(SwarmBudgetPreset::Standard.wire_name().to_owned());
    variants.push(SwarmBudgetPreset::Marathon.wire_name().to_owned());
    variants.push(BUDGET_CUSTOM.to_owned());
    assert(text::views(variants@) =~= seq![
        SwarmBudgetPreset::Quick.name(),
        SwarmBudgetPreset::Standard.name(),
        SwarmBudgetPreset::Marathon.name(),
        BUDGET_CUSTOM@,
    ]);
    let standard = SwarmBudgetPreset::Standard.limits();
    let mut preset = descriptor("budget_preset", PropKind::Enum, true);
    preset.help = preset_help;
    preset.enum_variants = Some(variants);
    preset.default = Some(SwarmBudgetPreset::Standard.wire_name().to_owned());
    let mut turns = descriptor("max_turns", PropKind::Integer, false);
    turns.help = turns_help;
    turns.default = Some(decimal(standard.max_turns as u64));
    let mut tokens = descriptor("max_tokens", PropKind::Integer, false);
    tokens.help = tokens_help;
    tokens.default = Some(decimal(standard.max_tokens));
    let mut cost = descriptor("max_cost_usd", PropKind::Float, false);
    cost.help = cost_help;
    cost.default = Some(standard.max_cost_usd.dollars_text());
    let mut out: Vec<FieldDescriptor> = Vec::new();
    out.push(preset);
    out.push(turns);
    out.push(tokens);
    out.push(cost);
    assert(text::views(out@) =~= budget_shape(helps));
    out
}

/// The channels step's field.
pub fn channels_field(config: &WizardConfig) -> (r: FieldDescriptor)
    ensures
        r@ == channels_shape(config@),
{
    let mut out = descriptor("channels", PropKind::StringArray, false);
    out.enum_variants = Some(copy_texts(&config.channels));
    out
}

fn just(field: FieldDescriptor) -> (r: Vec<FieldDescriptor>)
    ensures
        text::views(r@) == seq![field@],
{
    let ghost v = field@;
    let mut out: Vec<FieldDescriptor> = Vec::new();
    out.push(field);
    assert(text::views(out@) =~= seq![v]);
    out
}

/// Describe every wizard step for a client to render.
///
/// `provider` is the provider chosen so far; `models` is the catalogue already
/// resolved for it and `credentials` the fields that its family needs; `lookup`
/// finds the localized text of a message key.
pub fn wizard_steps<F: Fn(&'static str) -> String>(
    config: &WizardConfig,
    provider: Option<&str>,
    models: &Vec<String>,
    credentials: &Vec<FieldDescriptor>,
    lookup: F,
) -> (r: Vec<SwarmStepShape>)
    requires
        forall|key: &'static str| #[trigger] lookup.requires((key,)),
    ensures
        r.len() == 7,
        exists|helps: Seq<String>|
            {
                &&& helps.len() == 4
                &&& forall|k: int|
                    0 <= k < 4 ==> lookup.ensures((budget_help_keys()[k],), #[trigger] helps[k])
                &&& forall|i: int|
                    0 <= i < 7 ==> {
                        let step = SwarmWizardStep::ALL@[i];
                        &&& (#[trigger] r@[i]).step == step
                        &&& lookup.ensures((step.title_key_text(),), r@[i].title)
                        &&& lookup.ensures((step.help_key_text(),), r@[i].help)
                        &&& r@[i]@.fields == step_shape(
                            step,
                            config@,
                            opt_str(provider),
                            text::views(models@),
                            text::views(credentials@),
                            text::views(helps),
                        )
                    }
            },
{
    let preset_help = lookup("swarm-wizard-budget-preset-help");
    let turns_help = lookup("swarm-wizard-max-turns-help");
    let tokens_help = lookup("swarm-wizard-max-tokens-help");
    let cost_help = lookup("swarm-wizard-max-cost-help");
    let ghost helps = seq![preset_help, turns_help, tokens_help, cost_help];
    assert(text::views(helps) =~= seq![preset_help@, turns_help@, tokens_help@, cost_help@]);
    let budget = boundedness_fields(preset_help, turns_help, tokens_help, cost_help);
    let mut out: Vec<SwarmStepShape> = Vec::new();
    let step = SwarmWizardStep::Provider;
    let title = lookup(step.title_key());
    let help = lookup(step.help_key());
    out.push(
        SwarmStepShape { step, title, help, fields: provider_fields(config, provider, credentials) },
    );
    let step = SwarmWizardStep::Model;
    let title = lookup(step.title_key());
    let help = lookup(step.help_key());
    out.push(SwarmStepShape { step, title, help, fields: just(model_field(models)) });
    let step = SwarmWizardStep::RiskProfile;
    let title = lookup(step.title_key());
    let help = lookup(step.help_key());
    out.push(SwarmStepShape { step, title, help, fields: just(risk_profile_field(config)) });
    let step = SwarmWizardStep::Boundedness;
    let title = lookup(step.title_key());
    let help = lookup(step.help_key());
    out.push(SwarmStepShape { step, title, help, fields: budget });
    let step = SwarmWizardStep::Channels;
    let title = lookup(step.title_key());
    let help = lookup(step.help_key());
    out.push(SwarmStepShape { step, title, help, fields: just(channels_field(config)) });
    let step = SwarmWizardStep::Role;
    let title = lookup(step.title_key());
    let help = lookup(step.help_key());
    out.push(
        SwarmStepShape {
            step,
            title,
            help,
            fields: just(descriptor("role", PropKind::String, true)),
        },
    );
    let step = SwarmWizardStep::Goal;
    let title = lookup(step.title_key());
    let help = lookup(step.help_key());
    out.push(
        SwarmStepShape {
            step,
            title,
            help,
            fields: just(descriptor("goal", PropKind::String, true)),
        },
    );
    assert(forall|k: int|
        0 <= k < 4 ==> lookup.ensures((budget_help_keys()[k],), #[trigger] helps[k]));
    out
}

// ── Laws ────────────────────────────────────────────────────────────

proof fn trimmed_as_is(s: Seq<char>)
    requires
        s.len() > 0,
        !text::white_space(s[0]),
        !text::white_space(s.last()),
    ensures
        text::trimmed(s) == s,
{
}

/// A minted id is one that a caller could have supplied: no field rule refuses it.
pub proof fn minted_ids_are_usable(id: Seq<char>)
    requires
        minted_id(id),
    ensures
        id_problems(id).len() == 0,
        text::trimmed(id) == id,
        id.len() > 0,
{
    reveal_strlit("sw-");
    assert forall|i: int| 0 <= i < id.len() implies text::slug_char(#[trigger] id[i]) by {
        if i < 3 {
            assert(id[i] == id.take(3)[i]);
        } else {
            assert(ids::hex_digit(id[i]));
        }
    }
    text::sluggable_everywhere(id);
    assert(text::slug_char(id[0]));
    assert(text::slug_char(id[34]));
    trimmed_as_is(id);
}

proof fn numeral_ends_in_a_digit(n: nat)
    ensures
        text::numeral(n).len() > 0,
        !text::white_space(text::numeral(n).last()),
    decreases n,
{
}

proof fn blank_boxes_are_trimmed(i: int)
    requires
        0 <= i,
    ensures
        trimmed_box(model::blank_box(i)) == model::blank_box(i),
{
    reveal_strlit("box-");
    let id = model::blank_box(i).box_id;
    numeral_ends_in_a_digit((i + 1) as nat);
    assert(id[0] == 'b');
    assert(id.last() == text::numeral((i + 1) as nat).last());
    trimmed_as_is(id);
}

/// Re-submitting an accepted spec gives the same spec again, whatever id would have
/// been minted: an update that changes nothing keeps the swarm as it is.
pub proof fn accepted_specs_round_trip(
    submission: SubmissionView,
    fresh: Seq<char>,
    other: Seq<char>,
    config: ConfigView,
)
    requires
        minted_id(fresh),
        submission.problems(fresh, config).len() == 0,
    ensures
        submission_of(submission.normalized(fresh)).normalized(other) == submission.normalized(
            fresh,
        ),
        submission_of(submission.normalized(fresh)).problems(other, config).len() == 0,
{
    let spec = submission.normalized(fresh);
    let again = submission_of(spec).normalized(other);
    minted_ids_are_usable(fresh);
    if submission.names_id() {
        text::trimmed_idempotent(submission.swarm_id->0);
    }
    text::trimmed_idempotent(submission.name);
    text::trimmed_idempotent(submission.provider);
    text::trimmed_idempotent(submission.model);
    text::trimmed_idempotent(submission.risk_profile);
    text::trimmed_idempotent(submission.role);
    text::trimmed_idempotent(submission.goal);
    assert forall|i: int| 0 <= i < submission.channels.len() implies text::trimmed(
        #[trigger] spec.channels[i],
    ) == spec.channels[i] by {
        text::trimmed_idempotent(submission.channels[i]);
    }
    assert(again.channels =~= spec.channels);
    match submission.boxes {
        Some(boxes) => {
            assert forall|i: int| 0 <= i < boxes.len() implies trimmed_box(
                #[trigger] spec.boxes[i],
            ) == spec.boxes[i] by {
                text::trimmed_idempotent(boxes[i].box_id);
                text::trimmed_idempotent(boxes[i].role);
                text::trimmed_idempotent(boxes[i].job);
            }
        },
        None => {
            assert forall|i: int| 0 <= i < spec.boxes.len() implies trimmed_box(
                #[trigger] spec.boxes[i],
            ) == spec.boxes[i] by {
                blank_boxes_are_trimmed(i);
            }
        },
    }
    assert(again.boxes =~= spec.boxes);
    assert(again == spec);
}

/// A dry run and the write that follows it agree: they refuse the same fields in the
/// same words, and accept the same spec but for an id that each mints.
pub proof fn a_dry_run_and_a_write_agree(
    submission: SubmissionView,
    dry: Seq<char>,
    written: Seq<char>,
    config: ConfigView,
)
    ensures
        submission.problems(dry, config) == submission.problems(written, config),
        submission.normalized(written) == (SwarmSpecView {
            id: submission.normalized(written).id,
            ..submission.normalized(dry)
        }),
        submission.names_id() ==> submission.normalized(written) == submission.normalized(dry),
{
}

/// A patch replaces the fields it sets and no others; it never edits the id or the
/// roster, and an empty one changes nothing.
pub proof fn patches_replace_only_what_they_set(patch: PatchView, submission: SubmissionView)
    ensures
        patch.applied(submission).swarm_id == submission.swarm_id,
        patch.applied(submission).boxes == submission.boxes,
        patch.name is None ==> patch.applied(submission).name == submission.name,
        patch.provider is None ==> patch.applied(submission).provider == submission.provider,
        patch.model is None ==> patch.applied(submission).model == submission.model,
        patch.risk_profile is None ==> patch.applied(submission).risk_profile
            == submission.risk_profile,
        patch.budget is None ==> patch.applied(submission).budget == submission.budget,
        patch.channels is None ==> patch.applied(submission).channels == submission.channels,
        patch.role is None ==> patch.applied(submission).role == submission.role,
        patch.goal is None ==> patch.applied(submission).goal == submission.goal,
        patch.applied(patch.applied(submission)) == patch.applied(submission),
{
}

/// Every choice of the risk picker is one that the validator accepts.
pub proof fn the_risk_picker_and_the_validator_agree(config: ConfigView, name: Seq<char>)
    requires
        name.len() > 0,
    ensures
        risk_shape(config).enum_variants->0.contains(name) <==> risk_problems(
            name,
            config,
        ).len() == 0,
{
}

proof fn no_box_problems(boxes: Seq<BoxSpecView>, n: int)
    requires
        forall|i: int|
            0 <= i < n ==> (#[trigger] box_id_problem(boxes, i)) is None && slot_problem(
                boxes,
                i,
            ) is None,
    ensures
        box_problems(boxes, n).len() == 0,
    decreases n,
{
    if n > 0 {
        no_box_problems(boxes, n - 1);
        assert(box_id_problem(boxes, n - 1) is None);
    }
}

/// A roster of unfilled boxes passes the roster rules, whatever its size: the default
/// one, and any other that a swarm may have.
pub proof fn the_default_roster_is_valid(size: nat)
    requires
        1 <= size <= MAX_ROSTER_SIZE,
    ensures
        roster_problems(model::blank_roster(size)).len() == 0,
{
    let boxes = model::blank_roster(size);
    let ids = roster::spec_ids(boxes);
    let slots = spec_slots(boxes);
    let prefix = "box-"@;
    assert forall|i: int| 0 <= i < size implies (#[trigger] box_id_problem(boxes, i)) is None
        && slot_problem(boxes, i) is None by {
        let id = prefix + text::numeral((i + 1) as nat);
        text::numeral_nonempty((i + 1) as nat);
        assert(boxes[i].box_id == id);
        assert(boxes[i].slot == i);
        if ids.take(i).contains(id) {
            let k = choose|k: int| 0 <= k < ids.take(i).len() && ids.take(i)[k] == id;
            let other = prefix + text::numeral((k + 1) as nat);
            assert(boxes[k].box_id == other);
            assert(text::numeral((i + 1) as nat) =~= id.skip(prefix.len() as int));
            assert(text::numeral((k + 1) as nat) =~= other.skip(prefix.len() as int));
            text::numeral_injective((i + 1) as nat, (k + 1) as nat);
        }
        if slots.take(i).contains(boxes[i].slot) {
            let k = choose|k: int|
                0 <= k < slots.take(i).len() && slots.take(i)[k] == boxes[i].slot;
            assert(boxes[k].slot == k);
        }
    }
    no_box_problems(boxes, size as int);
}

/// Each field of a prepared spec is the trimmed text of the same field of the submission,
/// and its id is the one that the submission names, or else the fresh one. A submission
/// without a roster gets four boxes.
pub proof fn a_spec_says_what_was_submitted(submission: SubmissionView, fresh: Seq<char>)
    ensures
        ({
            let spec = submission.normalized(fresh);
            &&& spec.name == text::trimmed(submission.name)
            &&& spec.provider == text::trimmed(submission.provider)
            &&& spec.model == text::trimmed(submission.model)
            &&& spec.risk_profile == text::trimmed(submission.risk_profile)
            &&& spec.budget == submission.budget
            &&& spec.role == text::trimmed(submission.role)
            &&& spec.goal == text::trimmed(submission.goal)
            &&& spec.channels.len() == submission.channels.len()
            &&& forall|i: int|
                0 <= i < submission.channels.len() ==> #[trigger] spec.channels[i]
                    == text::trimmed(submission.channels[i])
            &&& submission.boxes matches Some(boxes) ==> {
                &&& spec.boxes.len() == boxes.len()
                &&& forall|i: int|
                    0 <= i < boxes.len() ==> {
                        &&& (#[trigger] spec.boxes[i]).box_id == text::trimmed(boxes[i].box_id)
                        &&& spec.boxes[i].role == text::trimmed(boxes[i].role)
                        &&& spec.boxes[i].job == text::trimmed(boxes[i].job)
                        &&& spec.boxes[i].slot == boxes[i].slot
                    }
            }
            &&& submission.boxes is None ==> {
                &&& spec.boxes.len() == 4
                &&& forall|i: int|
                    0 <= i < 4 ==> {
                        &&& (#[trigger] spec.boxes[i]).role.len() == 0
                        &&& spec.boxes[i].job.len() == 0
                        &&& spec.boxes[i].slot == i
                    }
            }
            &&& submission.swarm_id is None ==> spec.id == fresh
            &&& submission.swarm_id matches Some(id) ==> spec.id == if text::trimmed(id).len() == 0 {
                fresh
            } else {
                text::trimmed(id)
            }
        }),
{
}

/// One of `problems` is on `field`, of `step`.
pub open spec fn raised(
    problems: Seq<ProblemView>,
    step: Option<SwarmWizardStep>,
    field: Seq<char>,
) -> bool {
    exists|i: int|
        0 <= i < problems.len() && (#[trigger] problems[i]).step == step && problems[i].field
            == field
}

proof fn raised_in_either(
    a: Seq<ProblemView>,
    b: Seq<ProblemView>,
    step: Option<SwarmWizardStep>,
    field: Seq<char>,
)
    ensures
        raised(a + b, step, field) <==> raised(a, step, field) || raised(b, step, field),
{
    let c = a + b;
    if raised(a, step, field) {
        let i = choose|i: int|
            0 <= i < a.len() && (#[trigger] a[i]).step == step && a[i].field == field;
        assert(c[i] == a[i]);
    }
    if raised(b, step, field) {
        let i = choose|i: int|
            0 <= i < b.len() && (#[trigger] b[i]).step == step && b[i].field == field;
        assert(c[a.len() + i] == b[i]);
    }
    if raised(c, step, field) {
        let i = choose|i: int|
            0 <= i < c.len() && (#[trigger] c[i]).step == step && c[i].field == field;
        if i < a.len() {
            assert(a[i] == c[i]);
        } else {
            assert(b[i - a.len()] == c[i]);
        }
    }
}

/// Every one of `problems` is of `step`.
spec fn all_of_step(problems: Seq<ProblemView>, step: Option<SwarmWizardStep>) -> bool {
    forall|i: int| 0 <= i < problems.len() ==> (#[trigger] problems[i]).step == step
}

/// Every one of `problems` is on `field`.
spec fn all_on_field(problems: Seq<ProblemView>, field: Seq<char>) -> bool {
    forall|i: int| 0 <= i < problems.len() ==> (#[trigger] problems[i]).field == field
}

/// The `i`-th channel is blank, listed before, or not configured.
pub open spec fn bad_channel(
    channels: Seq<Seq<char>>,
    configured: Seq<Seq<char>>,
    i: int,
) -> bool {
    ||| channels[i].len() == 0
    ||| !configured.contains(channels[i])
    ||| exists|j: int| 0 <= j < i && #[trigger] channels[j] == channels[i]
}

proof fn channel_part(channels: Seq<Seq<char>>, configured: Seq<Seq<char>>, n: int)
    requires
        0 <= n <= channels.len(),
    ensures
        ({
            let part = channel_problems(channels, configured, n);
            &&& all_of_step(part, Some(SwarmWizardStep::Channels))
            &&& all_on_field(part, "channels"@)
            &&& part.len() > 0 <==> exists|i: int|
                0 <= i < n && #[trigger] bad_channel(channels, configured, i)
        }),
    decreases n,
{
    if n > 0 {
        channel_part(channels, configured, n - 1);
        let earlier = channels.take(n - 1);
        assert(earlier.contains(channels[n - 1]) <==> exists|j: int|
            0 <= j < n - 1 && #[trigger] channels[j] == channels[n - 1]) by {
            if earlier.contains(channels[n - 1]) {
                let j = choose|j: int| 0 <= j < earlier.len() && earlier[j] == channels[n - 1];
                assert(channels[j] == channels[n - 1]);
            }
            if exists|j: int| 0 <= j < n - 1 && #[trigger] channels[j] == channels[n - 1] {
                let j = choose|j: int| 0 <= j < n - 1 && #[trigger] channels[j] == channels[n - 1];
                assert(earlier[j] == channels[n - 1]);
            }
        }
        assert(channel_problem(channels, configured, n - 1) is Some <==> bad_channel(
            channels,
            configured,
            n - 1,
        ));
        if exists|i: int| 0 <= i < n && #[trigger] bad_channel(channels, configured, i) {
            let i = choose|i: int| 0 <= i < n && #[trigger] bad_channel(channels, configured, i);
            if i < n - 1 {
                assert(bad_channel(channels, configured, i));
            }
        }
    }
}

/// The `i`-th box has no id or an earlier box's, or a slot beyond the sixteen or an earlier
/// box's.
pub open spec fn bad_box(boxes: Seq<BoxSpecView>, i: int) -> bool {
    ||| boxes[i].box_id.len() == 0
    ||| boxes[i].slot >= 16
    ||| exists|j: int| 0 <= j < i && (#[trigger] boxes[j]).box_id == boxes[i].box_id
    ||| exists|j: int| 0 <= j < i && (#[trigger] boxes[j]).slot == boxes[i].slot
}

proof fn box_part(boxes: Seq<BoxSpecView>, n: int)
    requires
        0 <= n <= boxes.len(),
    ensures
        ({
            let part = box_problems(boxes, n);
            &&& all_of_step(part, None)
            &&& all_on_field(part, "boxes"@)
            &&& part.len() > 0 <==> exists|i: int| 0 <= i < n && #[trigger] bad_box(boxes, i)
        }),
    decreases n,
{
    if n > 0 {
        box_part(boxes, n - 1);
        let at = n - 1;
        let ids = roster::spec_ids(boxes).take(at);
        let slots = spec_slots(boxes).take(at);
        if ids.contains(boxes[at].box_id) {
            let j = choose|j: int| 0 <= j < ids.len() && ids[j] == boxes[at].box_id;
            assert(boxes[j].box_id == boxes[at].box_id);
        }
        if slots.contains(boxes[at].slot) {
            let j = choose|j: int| 0 <= j < slots.len() && slots[j] == boxes[at].slot;
            assert(boxes[j].slot == boxes[at].slot);
        }
        if exists|j: int| 0 <= j < at && (#[trigger] boxes[j]).box_id == boxes[at].box_id {
            let j = choose|j: int|
                0 <= j < at && (#[trigger] boxes[j]).box_id == boxes[at].box_id;
            assert(ids[j] == boxes[at].box_id);
        }
        if exists|j: int| 0 <= j < at && (#[trigger] boxes[j]).slot == boxes[at].slot {
            let j = choose|j: int| 0 <= j < at && (#[trigger] boxes[j]).slot == boxes[at].slot;
            assert(slots[j] == boxes[at].slot);
        }
        assert(box_id_problem(boxes, at) is Some || slot_problem(boxes, at) is Some <==> bad_box(
            boxes,
            at,
        ));
        if exists|i: int| 0 <= i < n && #[trigger] bad_box(boxes, i) {
            let i = choose|i: int| 0 <= i < n && #[trigger] bad_box(boxes, i);
            if i < n - 1 {
                assert(bad_box(boxes, i));
            }
        }
    }
}

/// A provider that is blank, or neither configured nor of a known family.
pub open spec fn bad_provider(provider: Seq<char>, config: ConfigView) -> bool {
    ||| provider.len() == 0
    ||| !config.model_providers.contains(provider) && !config.provider_families.contains(
        family_of(provider),
    )
}

/// A risk profile that is blank, or neither configured nor a preset.
pub open spec fn bad_risk(risk_profile: Seq<char>, config: ConfigView) -> bool {
    ||| risk_profile.len() == 0
    ||| !config.risk_profiles.contains(risk_profile) && !config.risk_presets.contains(risk_profile)
}

/// A list of channels with a bad one among them.
pub open spec fn bad_channels(channels: Seq<Seq<char>>, configured: Seq<Seq<char>>) -> bool {
    exists|i: int| 0 <= i < channels.len() && #[trigger] bad_channel(channels, configured, i)
}

/// A roster that is empty, holds more than sixteen boxes, or has a bad one among them.
pub open spec fn bad_roster(boxes: Seq<BoxSpecView>) -> bool {
    ||| boxes.len() == 0
    ||| boxes.len() > 16
    ||| exists|i: int| 0 <= i < boxes.len() && #[trigger] bad_box(boxes, i)
}

proof fn presets_join_the_names(
    names: Seq<Seq<char>>,
    presets: Seq<Seq<char>>,
    n: int,
    name: Seq<char>,
)
    requires
        0 <= n <= presets.len(),
    ensures
        with_presets(names, presets, n).contains(name) <==> names.contains(name)
            || presets.take(n).contains(name),
        with_presets(names, presets, n).len() >= names.len(),
        with_presets(names, presets, n).take(names.len() as int) == names,
    decreases n,
{
    if n > 0 {
        presets_join_the_names(names, presets, n - 1, name);
        presets_join_the_names(names, presets, n - 1, presets[n - 1]);
        let earlier = with_presets(names, presets, n - 1);
        push_contains(earlier, presets[n - 1], name);
        assert(presets.take(n) =~= presets.take(n - 1).push(presets[n - 1]));
        push_contains(presets.take(n - 1), presets[n - 1], name);
        assert(with_presets(names, presets, n).take(names.len() as int) =~= names);
    } else {
        assert(names.take(names.len() as int) =~= names);
    }
}

/// The risk profiles on offer are the configured ones, in their order, and then those
/// presets that are not configured: every one of either, and nothing else.
pub proof fn risk_profiles_on_offer(config: ConfigView, name: Seq<char>)
    ensures
        risk_names(config).contains(name) <==> config.risk_profiles.contains(name)
            || config.risk_presets.contains(name),
        risk_names(config).take(config.risk_profiles.len() as int) == config.risk_profiles,
{
    presets_join_the_names(
        config.risk_profiles,
        config.risk_presets,
        config.risk_presets.len() as int,
        name,
    );
    assert(config.risk_presets.take(config.risk_presets.len() as int) =~= config.risk_presets);
}

/// A provider reference is its family, and where there is a dot, the dot and the alias; a
/// family holds no dot.
pub proof fn a_provider_is_its_family_and_alias(provider: Seq<char>)
    ensures
        ({
            let family = family_of(provider);
            &&& forall|i: int| 0 <= i < family.len() ==> #[trigger] family[i] != '.'
            &&& family.len() <= provider.len()
            &&& family == provider.take(family.len() as int)
            &&& family.len() < provider.len() ==> provider[family.len() as int] == '.'
            &&& entry_of(provider) is None <==> family == provider
            &&& entry_of(provider) matches Some((f, alias)) ==> f == family && provider == family
                + seq!['.'] + alias
        }),
{
    text::nothing_stands_before_the_first(provider, '.', '.');
    let at = text::first_of(provider, '.', '.');
    if at < provider.len() {
        assert(provider =~= provider.take(at) + seq!['.'] + provider.skip(at + 1));
    } else {
        assert(provider.take(at) =~= provider);
    }
}

/// What is wrong with a spec, one field at a time: a problem is raised on a field exactly
/// where the value of that field is wrong, whatever the other fields hold; and a spec is
/// accepted exactly where no field is.
pub proof fn what_a_spec_is_refused_for(spec: SwarmSpecView, config: ConfigView)
    ensures
        ({
            let problems = spec_problems(spec, config);
            let custom = spec.budget matches SwarmBudget::Custom(_);
            let limits = spec.budget->Custom_0;
            &&& raised(problems, None, "name"@) <==> spec.name.len() == 0 || spec.name.len() > 120
            &&& raised(problems, Some(SwarmWizardStep::Provider), "provider"@) <==> bad_provider(
                spec.provider,
                config,
            )
            &&& raised(problems, Some(SwarmWizardStep::Model), "model"@) <==> spec.model.len() == 0
            &&& raised(problems, Some(SwarmWizardStep::RiskProfile), "risk_profile"@) <==> bad_risk(
                spec.risk_profile,
                config,
            )
            &&& raised(problems, Some(SwarmWizardStep::Boundedness), "max_turns"@) <==> custom
                && limits.max_turns == 0
            &&& raised(problems, Some(SwarmWizardStep::Boundedness), "max_tokens"@) <==> custom
                && limits.max_tokens == 0
            &&& raised(problems, Some(SwarmWizardStep::Boundedness), "max_cost_usd"@) <==> custom
                && limits.max_cost_usd.micros == 0
            &&& raised(problems, Some(SwarmWizardStep::Channels), "channels"@) <==> bad_channels(
                spec.channels,
                config.channels,
            )
            &&& raised(problems, Some(SwarmWizardStep::Role), "role"@) <==> spec.role.len() == 0
                || spec.role.len() > 120
            &&& raised(problems, Some(SwarmWizardStep::Goal), "goal"@) <==> spec.goal.len() == 0
                || spec.goal.len() > 4000
            &&& raised(problems, None, "boxes"@) <==> bad_roster(spec.boxes)
            &&& problems.len() == 0 <==> {
                &&& 0 < spec.name.len() <= 120
                &&& !bad_provider(spec.provider, config)
                &&& spec.model.len() > 0
                &&& !bad_risk(spec.risk_profile, config)
                &&& custom ==> limits.max_turns > 0 && limits.max_tokens > 0
                    && limits.max_cost_usd.micros > 0
                &&& !bad_channels(spec.channels, config.channels)
                &&& 0 < spec.role.len() <= 120
                &&& 0 < spec.goal.len() <= 4000
                &&& !bad_roster(spec.boxes)
            }
        }),
{
    risk_profiles_on_offer(config, spec.risk_profile);
    channel_part(spec.channels, config.channels, spec.channels.len() as int);
    box_part(spec.boxes, spec.boxes.len() as int);
    budget_part(spec.budget);
    reveal_strlit("name");
    reveal_strlit("boxes");
    assert("name"@.len() == 4 && "boxes"@.len() == 5);
    part_raises(spec, config, None, "name"@);
    part_raises(spec, config, None, "boxes"@);
    part_raises(spec, config, Some(SwarmWizardStep::Provider), "provider"@);
    part_raises(spec, config, Some(SwarmWizardStep::Model), "model"@);
    part_raises(spec, config, Some(SwarmWizardStep::RiskProfile), "risk_profile"@);
    part_raises(spec, config, Some(SwarmWizardStep::Boundedness), "max_turns"@);
    part_raises(spec, config, Some(SwarmWizardStep::Boundedness), "max_tokens"@);
    part_raises(spec, config, Some(SwarmWizardStep::Boundedness), "max_cost_usd"@);
    part_raises(spec, config, Some(SwarmWizardStep::Channels), "channels"@);
    part_raises(spec, config, Some(SwarmWizardStep::Role), "role"@);
    part_raises(spec, config, Some(SwarmWizardStep::Goal), "goal"@);
}

/// A problem of a spec comes from the part that owns its step.
proof fn part_raises(
    spec: SwarmSpecView,
    config: ConfigView,
    step: Option<SwarmWizardStep>,
    field: Seq<char>,
)
    ensures
        raised(spec_problems(spec, config), step, field) <==> match step {
            None => field == "name"@ && name_part(spec).len() > 0 || field == "boxes"@
                && roster_problems(spec.boxes).len() > 0,
            Some(SwarmWizardStep::Provider) => field == "provider"@ && provider_problems(
                spec.provider,
                config,
            ).len() > 0,
            Some(SwarmWizardStep::Model) => field == "model"@ && model_part(spec).len() > 0,
            Some(SwarmWizardStep::RiskProfile) => field == "risk_profile"@ && risk_problems(
                spec.risk_profile,
                config,
            ).len() > 0,
            Some(SwarmWizardStep::Boundedness) => raised(
                budget_problems(spec.budget),
                step,
                field,
            ),
            Some(SwarmWizardStep::Channels) => field == "channels"@ && channel_problems(
                spec.channels,
                config.channels,
                spec.channels.len() as int,
            ).len() > 0,
            Some(SwarmWizardStep::Role) => field == "role"@ && role_part(spec).len() > 0,
            Some(SwarmWizardStep::Goal) => field == "goal"@ && goal_part(spec).len() > 0,
        },
{
    let name = name_part(spec);
    let provider = provider_problems(spec.provider, config);
    let model = model_part(spec);
    let risk = risk_problems(spec.risk_profile, config);
    let budget = budget_problems(spec.budget);
    let channels = channel_problems(spec.channels, config.channels, spec.channels.len() as int);
    let role = role_part(spec);
    let goal = goal_part(spec);
    let boxes = roster_problems(spec.boxes);
    channel_part(spec.channels, config.channels, spec.channels.len() as int);
    box_part(spec.boxes, spec.boxes.len() as int);
    uniform(name, None, "name"@, step, field);
    uniform(provider, Some(SwarmWizardStep::Provider), "provider"@, step, field);
    uniform(model, Some(SwarmWizardStep::Model), "model"@, step, field);
    uniform(risk, Some(SwarmWizardStep::RiskProfile), "risk_profile"@, step, field);
    assert(all_of_step(budget, Some(SwarmWizardStep::Boundedness)));
    uniform(channels, Some(SwarmWizardStep::Channels), "channels"@, step, field);
    uniform(role, Some(SwarmWizardStep::Role), "role"@, step, field);
    uniform(goal, Some(SwarmWizardStep::Goal), "goal"@, step, field);
    uniform(boxes, None, "boxes"@, step, field);
    nine_parts(name, provider, model, risk, budget, channels, role, goal, boxes, step, field);
}

spec fn name_part(spec: SwarmSpecView) -> Seq<ProblemView> {
    length_problems(
        None,
        "name"@,
        spec.name,
        MAX_SWARM_NAME_LEN as nat,
        "a swarm needs a name"@,
        "a swarm name is at most "@ + text::numeral(MAX_SWARM_NAME_LEN as nat) + " characters"@,
    )
}

spec fn model_part(spec: SwarmSpecView) -> Seq<ProblemView> {
    if spec.model.len() == 0 {
        seq![problem(Some(SwarmWizardStep::Model), "model"@, "pick the model every box runs"@)]
    } else {
        fine()
    }
}

spec fn role_part(spec: SwarmSpecView) -> Seq<ProblemView> {
    length_problems(
        Some(SwarmWizardStep::Role),
        "role"@,
        spec.role,
        MAX_SWARM_ROLE_LEN as nat,
        "describe the supervising role the swarm plays"@,
        "a swarm role is at most "@ + text::numeral(MAX_SWARM_ROLE_LEN as nat) + " characters"@,
    )
}

spec fn goal_part(spec: SwarmSpecView) -> Seq<ProblemView> {
    length_problems(
        Some(SwarmWizardStep::Goal),
        "goal"@,
        spec.goal,
        MAX_SWARM_GOAL_LEN as nat,
        "state what this swarm is being created to accomplish"@,
        "a swarm goal is at most "@ + text::numeral(MAX_SWARM_GOAL_LEN as nat) + " characters"@,
    )
}

proof fn uniform(
    part: Seq<ProblemView>,
    step: Option<SwarmWizardStep>,
    field: Seq<char>,
    asked: Option<SwarmWizardStep>,
    named: Seq<char>,
)
    requires
        all_of_step(part, step),
        all_on_field(part, field),
    ensures
        raised(part, asked, named) <==> part.len() > 0 && step == asked && field == named,
{
    if part.len() > 0 {
        assert(part[0].step == step && part[0].field == field);
    }
}

proof fn budget_part(budget: SwarmBudget)
    ensures
        ({
            let part = budget_problems(budget);
            let step = Some(SwarmWizardStep::Boundedness);
            let custom = budget matches SwarmBudget::Custom(_);
            let limits = budget->Custom_0;
            &&& raised(part, step, "max_turns"@) <==> custom && limits.max_turns == 0
            &&& raised(part, step, "max_tokens"@) <==> custom && limits.max_tokens == 0
            &&& raised(part, step, "max_cost_usd"@) <==> custom && limits.max_cost_usd.micros == 0
            &&& part.len() == 0 <==> (custom ==> limits.max_turns > 0 && limits.max_tokens > 0
                && limits.max_cost_usd.micros > 0)
        }),
{
    reveal_strlit("max_turns");
    reveal_strlit("max_tokens");
    reveal_strlit("max_cost_usd");
    assert("max_turns"@.len() == 9 && "max_tokens"@.len() == 10 && "max_cost_usd"@.len() == 12);
    let step = Some(SwarmWizardStep::Boundedness);
    if let SwarmBudget::Custom(limits) = budget {
        let a = if limits.max_turns == 0 {
            seq![problem(step, "max_turns"@, "a custom budget needs at least one turn"@)]
        } else {
            fine()
        };
        let b = if limits.max_tokens == 0 {
            seq![problem(step, "max_tokens"@, "a custom budget needs a non-zero token ceiling"@)]
        } else {
            fine()
        };
        let c = if limits.max_cost_usd.micros == 0 {
            seq![
                problem(
                    step,
                    "max_cost_usd"@,
                    "a custom budget needs a positive cost ceiling in USD"@,
                ),
            ]
        } else {
            fine()
        };
        assert(budget_problems(budget) == a + b + c);
        three_parts(a, b, c, step, "max_turns"@);
        three_parts(a, b, c, step, "max_tokens"@);
        three_parts(a, b, c, step, "max_cost_usd"@);
        uniform(a, step, "max_turns"@, step, "max_turns"@);
        uniform(a, step, "max_turns"@, step, "max_tokens"@);
        uniform(a, step, "max_turns"@, step, "max_cost_usd"@);
        uniform(b, step, "max_tokens"@, step, "max_turns"@);
        uniform(b, step, "max_tokens"@, step, "max_tokens"@);
        uniform(b, step, "max_tokens"@, step, "max_cost_usd"@);
        uniform(c, step, "max_cost_usd"@, step, "max_turns"@);
        uniform(c, step, "max_cost_usd"@, step, "max_tokens"@);
        uniform(c, step, "max_cost_usd"@, step, "max_cost_usd"@);
    }
}

proof fn three_parts(
    a: Seq<ProblemView>,
    b: Seq<ProblemView>,
    c: Seq<ProblemView>,
    step: Option<SwarmWizardStep>,
    field: Seq<char>,
)
    ensures
        raised(a + b + c, step, field) <==> raised(a, step, field) || raised(b, step, field)
            || raised(c, step, field),
{
    raised_in_either(a, b, step, field);
    raised_in_either(a + b, c, step, field);
}

proof fn nine_parts(
    a: Seq<ProblemView>,
    b: Seq<ProblemView>,
    c: Seq<ProblemView>,
    d: Seq<ProblemView>,
    e: Seq<ProblemView>,
    f: Seq<ProblemView>,
    g: Seq<ProblemView>,
    h: Seq<ProblemView>,
    i: Seq<ProblemView>,
    step: Option<SwarmWizardStep>,
    field: Seq<char>,
)
    ensures
        raised(a + b + c + d + e + f + g + h + i, step, field) <==> raised(a, step, field)
            || raised(b, step, field) || raised(c, step, field) || raised(d, step, field) || raised(
            e,
            step,
            field,
        ) || raised(f, step, field) || raised(g, step, field) || raised(h, step, field) || raised(
            i,
            step,
            field,
        ),
{
    three_parts(a, b, c, step, field);
    three_parts(a + b + c, d, e, step, field);
    three_parts(a + b + c + d + e, f, g, step, field);
    three_parts(a + b + c + d + e + f + g, h, i, step, field);
}

/// What a submission is refused for: on its role exactly where that is blank or over one
/// hundred and twenty characters, whatever its goal says, and so for every other field; on
/// its id exactly where it names one that is over sixty-four characters or holds a character
/// other than an ASCII letter, a digit, `-` or `_`.
pub proof fn what_a_submission_is_refused_for(
    submission: SubmissionView,
    fresh: Seq<char>,
    config: ConfigView,
)
    ensures
        ({
            let problems = submission.problems(fresh, config);
            let name = text::trimmed(submission.name);
            let provider = text::trimmed(submission.provider);
            let model = text::trimmed(submission.model);
            let risk = text::trimmed(submission.risk_profile);
            let role = text::trimmed(submission.role);
            let goal = text::trimmed(submission.goal);
            let id = text::trimmed(submission.swarm_id->0);
            let bad_id = submission.swarm_id is Some && id.len() > 0 && (id.len() > 64 || exists|
                i: int,
            |
                0 <= i < id.len() && !text::slug_char(#[trigger] id[i]));
            &&& raised(problems, None, "swarm_id"@) <==> bad_id
            &&& raised(problems, None, "name"@) <==> name.len() == 0 || name.len() > 120
            &&& raised(problems, Some(SwarmWizardStep::Provider), "provider"@) <==> bad_provider(
                provider,
                config,
            )
            &&& raised(problems, Some(SwarmWizardStep::Model), "model"@) <==> model.len() == 0
            &&& raised(problems, Some(SwarmWizardStep::RiskProfile), "risk_profile"@) <==> bad_risk(
                risk,
                config,
            )
            &&& raised(problems, Some(SwarmWizardStep::Role), "role"@) <==> role.len() == 0
                || role.len() > 120
            &&& raised(problems, Some(SwarmWizardStep::Goal), "goal"@) <==> goal.len() == 0
                || goal.len() > 4000
            &&& problems.len() == 0 ==> !bad_id
            &&& problems.len() == 0 <==> !bad_id && spec_problems(
                submission.normalized(fresh),
                config,
            ).len() == 0
        }),
{
    let spec = submission.normalized(fresh);
    let first = if submission.names_id() {
        id_problems(spec.id)
    } else {
        fine()
    };
    let rest = spec_problems(spec, config);
    what_a_spec_is_refused_for(spec, config);
    text::sluggable_everywhere(spec.id);
    reveal_strlit("name");
    reveal_strlit("boxes");
    reveal_strlit("swarm_id");
    assert("name"@.len() == 4 && "boxes"@.len() == 5 && "swarm_id"@.len() == 8);
    assert(all_of_step(first, None) && all_on_field(first, "swarm_id"@));
    uniform(first, None, "swarm_id"@, None, "swarm_id"@);
    uniform(first, None, "swarm_id"@, None, "name"@);
    raised_in_either(first, rest, None, "swarm_id"@);
    raised_in_either(first, rest, None, "name"@);
    raised_in_either(first, rest, Some(SwarmWizardStep::Provider), "provider"@);
    raised_in_either(first, rest, Some(SwarmWizardStep::Model), "model"@);
    raised_in_either(first, rest, Some(SwarmWizardStep::RiskProfile), "risk_profile"@);
    raised_in_either(first, rest, Some(SwarmWizardStep::Role), "role"@);
    raised_in_either(first, rest, Some(SwarmWizardStep::Goal), "goal"@);
    no_id_problem(spec, config);
}

proof fn no_id_problem(spec: SwarmSpecView, config: ConfigView)
    ensures
        !raised(spec_problems(spec, config), None, "swarm_id"@),
{
    reveal_strlit("name");
    reveal_strlit("boxes");
    reveal_strlit("swarm_id");
    assert("name"@.len() == 4 && "boxes"@.len() == 5 && "swarm_id"@.len() == 8);
    part_raises(spec, config, None, "swarm_id"@);
}

/// What a patch sets is what the submission then says, field by field.
pub proof fn patches_set_what_they_say(patch: PatchView, submission: SubmissionView)
    ensures
        ({
            let after = patch.applied(submission);
            &&& patch.name matches Some(v) ==> after.name == v
            &&& patch.provider matches Some(v) ==> after.provider == v
            &&& patch.model matches Some(v) ==> after.model == v
            &&& patch.risk_profile matches Some(v) ==> after.risk_profile == v
            &&& patch.budget matches Some(v) ==> after.budget == v
            &&& patch.channels matches Some(v) ==> after.channels == v
            &&& patch.role matches Some(v) ==> after.role == v
            &&& patch.goal matches Some(v) ==> after.goal == v
        }),
{
}

/// A stored spec reads back as the submission with the same fields, under its own id.
pub proof fn a_stored_spec_is_its_submission(spec: SwarmSpecView)
    ensures
        ({
            let submission = submission_of(spec);
            &&& submission.swarm_id == Some(spec.id)
            &&& submission.name == spec.name
            &&& submission.provider == spec.provider
            &&& submission.model == spec.model
            &&& submission.risk_profile == spec.risk_profile
            &&& submission.budget == spec.budget
            &&& submission.channels == spec.channels
            &&& submission.role == spec.role
            &&& submission.goal == spec.goal
            &&& submission.boxes == Some(spec.boxes)
        }),
{
}

/// The credential fields that a chosen provider asks for are handed on in order, all but the
/// model; a provider that is configured already, or none, asks for nothing.
pub proof fn what_the_provider_step_asks(
    config: ConfigView,
    chosen: Option<Seq<char>>,
    credentials: Seq<FieldView>,
    name: Seq<char>,
    i: int,
)
    ensures
        ({
            let fields = provider_shape(config, chosen, credentials);
            let picker = fields[0];
            let wanted = chosen is Some && text::trimmed(chosen->0).len() > 0
                && !config.model_providers.contains(text::trimmed(chosen->0));
            &&& picker.key == "provider"@ && picker.required && picker.kind == PropKind::AliasRef
            &&& picker.enum_variants is Some
            &&& picker.enum_variants->0.contains(name) <==> config.model_providers.contains(name)
                || config.provider_families.contains(name)
            &&& config.model_providers.len() > 0 ==> picker.default == Some(
                config.model_providers[0],
            )
            &&& config.model_providers.len() == 0 ==> picker.default is None
            &&& !wanted ==> fields.len() == 1
            &&& wanted && 0 <= i < credentials.len() ==> (fields.skip(1).contains(credentials[i])
                <==> credentials[i].key != "model"@)
            &&& 1 <= i < fields.len() ==> fields[i].key != "model"@ && credentials.contains(
                fields[i],
            )
        }),
{
    presets_join_the_names(
        config.model_providers,
        config.provider_families,
        config.provider_families.len() as int,
        name,
    );
    assert(config.provider_families.take(config.provider_families.len() as int)
        =~= config.provider_families);
    let kept = without_model(credentials, credentials.len() as int);
    let fields = provider_shape(config, chosen, credentials);
    if fields.len() > 1 || (chosen is Some && text::trimmed(chosen->0).len() > 0
        && !config.model_providers.contains(text::trimmed(chosen->0))) {
        assert(fields.skip(1) =~= kept);
        if 1 <= i < fields.len() {
            assert(kept[i - 1] == fields[i]);
            assert(kept.contains(fields[i]));
            without_model_keeps(credentials, credentials.len() as int, fields[i]);
            let k = choose|k: int|
                0 <= k < credentials.len() && #[trigger] credentials[k] == fields[i];
            assert(credentials[k] == fields[i]);
        }
        if 0 <= i < credentials.len() {
            without_model_keeps(credentials, credentials.len() as int, credentials[i]);
        }
    }
}

proof fn without_model_keeps(fields: Seq<FieldView>, n: int, field: FieldView)
    requires
        0 <= n <= fields.len(),
    ensures
        without_model(fields, n).contains(field) <==> field.key != "model"@ && exists|k: int|
            0 <= k < n && #[trigger] fields[k] == field,
    decreases n,
{
    if n > 0 {
        without_model_keeps(fields, n - 1, field);
        push_contains(without_model(fields, n - 1), fields[n - 1], field);
        if exists|k: int| 0 <= k < n && #[trigger] fields[k] == field {
            let k = choose|k: int| 0 <= k < n && #[trigger] fields[k] == field;
            if k < n - 1 {
                assert(fields[k] == field);
            }
        }
        if exists|k: int| 0 <= k < n - 1 && #[trigger] fields[k] == field {
            let k = choose|k: int| 0 <= k < n - 1 && #[trigger] fields[k] == field;
            assert(fields[k] == field);
        }
        if fields[n - 1] == field {
            assert(fields[n - 1] == field);
        }
    }
}

/// What each of the other steps collects: the field that the submission calls it, required
/// but for the channels and a custom triple; the model from the catalogue where there is
/// one, starting with its first; the risk profile starting with the recommended one where
/// that is on offer; and the budget starting with the standard preset.
pub proof fn what_the_other_steps_ask(
    config: ConfigView,
    provider: Option<Seq<char>>,
    models: Seq<Seq<char>>,
    credentials: Seq<FieldView>,
    helps: Seq<Seq<char>>,
)
    ensures
        ({
            let fields = |step: SwarmWizardStep|
                step_shape(step, config, provider, models, credentials, helps);
            let model = fields(SwarmWizardStep::Model);
            let risk = fields(SwarmWizardStep::RiskProfile);
            let budget = fields(SwarmWizardStep::Boundedness);
            let channels = fields(SwarmWizardStep::Channels);
            let role = fields(SwarmWizardStep::Role);
            let goal = fields(SwarmWizardStep::Goal);
            &&& fields(SwarmWizardStep::Provider) == provider_shape(config, provider, credentials)
            &&& model.len() == 1 && model[0].key == "model"@ && model[0].required
            &&& models.len() == 0 ==> model[0].kind == PropKind::String
                && model[0].enum_variants is None && model[0].default is None
            &&& models.len() > 0 ==> model[0].kind == PropKind::Enum && model[0].enum_variants
                == Some(models) && model[0].default == Some(models[0])
            &&& risk.len() == 1 && risk[0].key == "risk_profile"@ && risk[0].required
            &&& risk[0].enum_variants == Some(risk_names(config))
            &&& risk_names(config).contains("balanced"@) ==> risk[0].default == Some("balanced"@)
            &&& !risk_names(config).contains("balanced"@) && risk_names(config).len() > 0
                ==> risk[0].default == Some(risk_names(config)[0])
            &&& budget.len() == 4
            &&& budget[0].key == "budget_preset"@ && budget[0].default == Some("standard"@)
                && budget[0].enum_variants == Some(
                seq!["quick"@, "standard"@, "marathon"@, "custom"@],
            )
            &&& budget[1].key == "max_turns"@ && budget[1].default == Some(text::numeral(100))
            &&& budget[2].key == "max_tokens"@ && budget[2].default == Some(
                text::numeral(1_000_000),
            )
            &&& budget[3].key == "max_cost_usd"@ && budget[3].default == Some(
                usd::dollars_text(20_000_000),
            )
            &&& forall|k: int| 0 <= k < 4 ==> (#[trigger] budget[k]).help == helps[k]
            &&& forall|k: int| 1 <= k < 4 ==> !(#[trigger] budget[k]).required
            &&& budget[0].required
            &&& channels.len() == 1 && channels[0].key == "channels"@ && !channels[0].required
                && channels[0].enum_variants == Some(config.channels)
            &&& role.len() == 1 && role[0].key == "role"@ && role[0].required && role[0].kind
                == PropKind::String
            &&& goal.len() == 1 && goal[0].key == "goal"@ && goal[0].required && goal[0].kind
                == PropKind::String
        }),
{
}

/// The steps are walked in one order, each with the keys of its own heading and blurb.
pub proof fn the_steps_come_in_order(i: int, j: int)
    requires
        0 <= i < 7,
        0 <= j < 7,
        i != j,
    ensures
        SwarmWizardStep::ALL@.len() == 7,
        SwarmWizardStep::ALL@[0] == SwarmWizardStep::Provider,
        SwarmWizardStep::ALL@[1] == SwarmWizardStep::Model,
        SwarmWizardStep::ALL@[2] == SwarmWizardStep::RiskProfile,
        SwarmWizardStep::ALL@[3] == SwarmWizardStep::Boundedness,
        SwarmWizardStep::ALL@[4] == SwarmWizardStep::Channels,
        SwarmWizardStep::ALL@[5] == SwarmWizardStep::Role,
        SwarmWizardStep::ALL@[6] == SwarmWizardStep::Goal,
        SwarmWizardStep::ALL@[i] != SwarmWizardStep::ALL@[j],
{
}

/// A refusal of a provider, a risk profile or a channel that is not known quotes what was
/// given.
pub proof fn refusals_quote_what_was_given(
    config: ConfigView,
    given: Seq<char>,
    channels: Seq<Seq<char>>,
    i: int,
)
    requires
        given.len() > 0,
        0 <= i < channels.len(),
        channels[i] == given,
    ensures
        provider_problems(given, config).len() > 0 ==> text::stands_in(
            given,
            provider_problems(given, config)[0].message,
        ),
        risk_problems(given, config).len() > 0 ==> text::stands_in(
            given,
            risk_problems(given, config)[0].message,
        ),
        channel_problem(channels, config.channels, i) matches Some(message) ==> text::stands_in(
            given,
            message,
        ),
{
    if provider_problems(given, config).len() > 0 {
        let message = provider_problems(given, config)[0].message;
        let head = "unknown model provider '"@;
        let rest = message.skip((head + given).len() as int);
        assert(text::stands_in(given, message)) by {
            assert(head + given + rest =~= message);
            text::stands_between(head, given, rest);
        }
    }
    if risk_problems(given, config).len() > 0 {
        let message = risk_problems(given, config)[0].message;
        let head = "unknown risk profile '"@;
        let rest = message.skip((head + given).len() as int);
        assert(text::stands_in(given, message)) by {
            assert(head + given + rest =~= message);
            text::stands_between(head, given, rest);
        }
    }
    if let Some(message) = channel_problem(channels, config.channels, i) {
        let head = if channels.take(i).contains(given) {
            "channel '"@
        } else {
            "unknown channel '"@
        };
        let rest = message.skip((head + given).len() as int);
        assert(text::stands_in(given, message)) by {
            assert(head + given + rest =~= message);
            text::stands_between(head, given, rest);
        }
    }
}

/// A refusal of a box quotes the id that is used twice, or the slot that is out of reach or
/// taken.
pub proof fn refusals_quote_the_box(boxes: Seq<BoxSpecView>, i: int)
    requires
        0 <= i < boxes.len(),
    ensures
        boxes[i].box_id.len() > 0 ==> (box_id_problem(boxes, i) matches Some(message)
            ==> text::stands_in(boxes[i].box_id, message)),
        slot_problem(boxes, i) matches Some(message) ==> text::stands_in(
            "slot "@ + text::numeral(boxes[i].slot as nat),
            message,
        ),
{
    let id = boxes[i].box_id;
    if id.len() > 0 {
        if let Some(message) = box_id_problem(boxes, i) {
            let head = "box_id '"@;
            let rest = message.skip((head + id).len() as int);
            assert(text::stands_in(id, message)) by {
                assert(head + id + rest =~= message);
                text::stands_between(head, id, rest);
            }
        }
    }
    if let Some(message) = slot_problem(boxes, i) {
        let part = "slot "@ + text::numeral(boxes[i].slot as nat);
        assert(text::stands_in(part, message)) by {
            if boxes[i].slot >= MAX_ROSTER_SIZE {
                reveal_strlit("' asks for slot ");
                reveal_strlit("slot ");
                let asks = "' asks for slot "@;
                let head = "box '"@ + id + asks.take(asks.len() - 5);
                let rest = message.skip((head + part).len() as int);
                assert(asks.take(asks.len() - 5) + "slot "@ =~= asks);
                assert(head + part + rest =~= message);
                text::stands_between(head, part, rest);
            } else {
                let rest = message.skip(part.len() as int);
                assert(Seq::<char>::empty() + part + rest =~= message);
                text::stands_between(Seq::empty(), part, rest);
            }
        }
    }
}

} // verus!
