//! The swarm calls of the daemon's line-based JSON-RPC: what an answer says, and what
//! is told of a call that failed.

use vstd::prelude::*;

use super::phrase;
use super::phrase::{t, ta_one, Phrase, PhraseView};
use crate::json;
use crate::json::{member, parse, string_member, string_member_owned};
use crate::text;
use crate::text::{contains_text, decimal, text_eq, trim};

verus! {

/// The daemon does not know the method.
pub const METHOD_NOT_FOUND: i32 = -32601;

/// The parameters were refused.
pub const INVALID_PARAMS: i32 = -32602;

/// A failure of no other class.
pub const INTERNAL_ERROR: i32 = -32603;

/// A live run holds the swarm.
pub const SWARM_RUN_ACTIVE: i32 = -32020;

pub const INITIALIZE: &'static str = "initialize";

pub const SWARM_LIST: &'static str = "swarm/list";

pub const SWARM_CREATE: &'static str = "swarm/create";

pub const SWARM_DELETE: &'static str = "swarm/delete";

pub const SWARM_FIELDS: &'static str = "swarm/fields";

pub const SWARM_VALIDATE: &'static str = "swarm/validate";

pub const SWARM_SUBSCRIBE: &'static str = "swarm/subscribe";

pub const SWARM_START: &'static str = "swarm/start";

pub const SWARM_PAUSE: &'static str = "swarm/pause";

pub const SWARM_RESUME: &'static str = "swarm/resume";

pub const SWARM_STOP: &'static str = "swarm/stop";

pub const SWARM_CHAT: &'static str = "swarm/chat";

pub const SWARM_UPDATE_LAYOUT: &'static str = "swarm/update-layout";

/// Notification: one step of a box's turn.
pub const SWARM_UPDATE: &'static str = "swarm/update";

/// Notification: a change on a swarm's board.
pub const SWARM_BOARD: &'static str = "swarm/board";

/// Notification: steps were dropped before they could be sent.
pub const SWARM_GAP: &'static str = "swarm/gap";

// ── Failures ────────────────────────────────────────────────────────

/// A JSON-RPC error frame: the code and the message are the whole of it.
#[derive(Debug, PartialEq, Eq)]
pub struct RpcFailure {
    pub code: i32,
    pub message: String,
}

/// An error frame as plain values.
#[verifier::ext_equal]
pub struct RpcFailureView {
    pub code: i32,
    pub message: Seq<char>,
}

impl View for RpcFailure {
    type V = RpcFailureView;

    open spec fn view(&self) -> RpcFailureView {
        RpcFailureView { code: self.code, message: self.message@ }
    }
}

impl RpcFailure {
    /// The daemon does not know this method: the build predates swarms.
    pub fn is_method_not_found(&self) -> (r: bool)
        ensures
            r == (self@.code == METHOD_NOT_FOUND),
    {
        self.code == METHOD_NOT_FOUND
    }
}

/// Why a call did not produce a value.
#[derive(Debug, PartialEq, Eq)]
pub enum CallError {
    /// The connection itself is unusable; nothing further will succeed. The text says
    /// why, with its chain of causes.
    Transport(String),
    /// The daemon answered, with an error.
    Rpc(RpcFailure),
}

impl CallError {
    /// The failure behind this error, when the daemon answered at all.
    pub fn failure(&self) -> (r: Option<&RpcFailure>)
        ensures
            r == (match self {
                CallError::Rpc(failure) => Some(failure),
                CallError::Transport(_) => None,
            }),
    {
        match self {
            CallError::Rpc(failure) => Some(failure),
            CallError::Transport(_) => None,
        }
    }

    /// What the error says: the daemon's own message where it answered.
    pub fn message(&self) -> (r: String)
        ensures
            r@ == match self {
                CallError::Rpc(failure) => failure@.message,
                CallError::Transport(error) => error@,
            },
    {
        match self {
            CallError::Rpc(failure) => failure.message.clone(),
            CallError::Transport(error) => error.clone(),
        }
    }
}

// ── Frames ──────────────────────────────────────────────────────────

/// What a response frame says of a call, besides its result.
#[derive(Debug, PartialEq, Eq)]
pub struct Frame {
    /// The id, where it is text.
    pub id: Option<String>,
    /// The error, where the frame has one.
    pub error: Option<FrameError>,
}

/// The error of a frame: its code and its message, where they have their types.
#[derive(Debug, PartialEq, Eq)]
pub struct FrameError {
    pub code: Option<i64>,
    pub message: Option<String>,
}

/// The parts of a frame as plain values.
pub open spec fn parts_of(frame: Frame) -> (
    Option<Seq<char>>,
    Option<(Option<i64>, Option<Seq<char>>)>,
) {
    (
        crate::duplicate::opt_view(frame.id),
        match frame.error {
            Some(e) => Some((e.code, crate::duplicate::opt_view(e.message))),
            None => None,
        },
    )
}

/// The text member of a JSON object.
pub open spec fn text_member(value: serde_json::Value, name: Seq<char>) -> Option<Seq<char>> {
    if json::string_members(value).contains_key(name) {
        Some(json::string_members(value)[name])
    } else {
        None
    }
}

/// What a JSON value says of a call: its `id`, and the `code` and the `message` of its
/// `error`, each where it has its type.
pub open spec fn frame_of(value: serde_json::Value) -> (
    Option<Seq<char>>,
    Option<(Option<i64>, Option<Seq<char>>)>,
) {
    let members = json::members(value);
    (
        text_member(value, "id"@),
        if members.contains_key("error"@) {
            let error = members["error"@];
            Some(
                (
                    if json::members(error).contains_key("code"@) {
                        json::integer_of(json::members(error)["code"@])
                    } else {
                        None
                    },
                    text_member(error, "message"@),
                ),
            )
        } else {
            None
        },
    )
}

/// The frame that a JSON value is.
pub fn frame(value: &serde_json::Value) -> (r: Frame)
    ensures
        parts_of(r) == frame_of(*value),
{
    let error = match member(value, "error") {
        Some(e) => {
            let code: Option<i64> = match member(e, "code") {
                Some(c) => c.as_i64(),
                None => None,
            };
            Some(FrameError { code, message: string_member_owned(e, "message") })
        },
        None => None,
    };
    Frame { id: string_member_owned(value, "id"), error }
}

/// Reads one line of the stream.
pub fn read_frame(raw: &str) -> (r: Option<Frame>)
    ensures
        match r {
            Some(frame) => json::parsed(text::trimmed(raw@)) matches Some(value)
                && text::trimmed(raw@).len() > 0 && parts_of(frame) == frame_of(value),
            None => text::trimmed(raw@).len() == 0 || json::parsed(text::trimmed(raw@)) is None,
        },
{
    let line = trim(raw);
    if line.is_empty() {
        return None;
    }
    match parse(line) {
        Some(value) => Some(frame(&value)),
        None => None,
    }
}

/// What a frame is to a call.
#[derive(Debug, PartialEq, Eq)]
pub enum Reply {
    /// Not the answer of this call: a notification, or a stray id.
    Skip,
    /// The daemon refused.
    Failed(RpcFailure),
    /// The answer: its result is to be decoded.
    Answered,
}

/// The failure that an error frame stands for. A code outside `i32` is none of ours.
pub open spec fn failure_of(error: (Option<i64>, Option<Seq<char>>)) -> RpcFailureView {
    RpcFailureView {
        code: match error.0 {
            Some(code) => if i32::MIN <= code <= i32::MAX {
                code as i32
            } else {
                INTERNAL_ERROR
            },
            None => INTERNAL_ERROR,
        },
        message: match error.1 {
            Some(m) => m,
            None => ""@,
        },
    }
}

/// What a frame is to the call `id`.
pub fn classify(frame: &Frame, id: &str) -> (r: Reply)
    ensures
        match parts_of(*frame) {
            (Some(x), error) => if x == id@ {
                match error {
                    Some(e) => r matches Reply::Failed(f) && f@ == failure_of(e),
                    None => r is Answered,
                }
            } else {
                r is Skip
            },
            (None, _) => r is Skip,
        },
{
    match &frame.id {
        Some(x) => {
            if !text_eq(x.as_str(), id) {
                return Reply::Skip;
            }
        },
        None => {
            return Reply::Skip;
        },
    }
    match &frame.error {
        Some(error) => {
            let code: i32 = match error.code {
                Some(code) => {
                    if (i32::MIN as i64) <= code && code <= (i32::MAX as i64) {
                        code as i32
                    } else {
                        INTERNAL_ERROR
                    }
                },
                None => INTERNAL_ERROR,
            };
            let message = match &error.message {
                Some(m) => m.clone(),
                None => "".to_owned(),
            };
            Reply::Failed(RpcFailure { code, message })
        },
        None => Reply::Answered,
    }
}

/// What a notification tells of.
#[derive(Debug, Clone, Copy, PartialEq, Eq, Structural)]
pub enum Note {
    /// One step of a box's turn.
    Step,
    /// A change on a swarm's board.
    Board,
    /// Steps were dropped.
    Gap,
}

/// What a notification of `method` tells of. The others are of no interest.
pub open spec fn note_named(method: Seq<char>) -> Option<Note> {
    if method == SWARM_UPDATE@ {
        Some(Note::Step)
    } else if method == SWARM_BOARD@ {
        Some(Note::Board)
    } else if method == SWARM_GAP@ {
        Some(Note::Gap)
    } else {
        None
    }
}

/// What a notification of `method` tells of.
pub fn note(method: &str) -> (r: Option<Note>)
    ensures
        r == note_named(method@),
{
    if text_eq(method, SWARM_UPDATE) {
        Some(Note::Step)
    } else if text_eq(method, SWARM_BOARD) {
        Some(Note::Board)
    } else if text_eq(method, SWARM_GAP) {
        Some(Note::Gap)
    } else {
        None
    }
}

/// What a line of the stream tells of, where it is a notification: it is JSON, and its
/// `method` is text.
pub open spec fn note_line(value: Option<serde_json::Value>) -> Option<Note> {
    match value {
        Some(value) => match text_member(value, "method"@) {
            Some(method) => note_named(method),
            None => None,
        },
        None => None,
    }
}

/// Reads one line of the stream as a notification.
pub fn read_note(raw: &str) -> (r: Option<Note>)
    ensures
        r == note_line(json::parsed(raw@)),
{
    match parse(raw) {
        Some(value) => match string_member(&value, "method") {
            Some(method) => note(method),
            None => None,
        },
        None => None,
    }
}

/// The ids of the calls on one connection.
pub struct CallIds {
    next: u64,
}

impl View for CallIds {
    type V = u64;

    closed spec fn view(&self) -> u64 {
        self.next
    }
}

impl CallIds {
    /// No call made yet.
    pub fn new() -> (r: Self)
        ensures
            r@ == 0,
    {
        CallIds { next: 0 }
    }

    /// The id of the next call.
    pub fn next_id(&mut self) -> (r: String)
        ensures
            r@ == "swarm-"@ + text::numeral(old(self)@ as nat),
            final(self)@ == if old(self)@ < u64::MAX {
                (old(self)@ + 1) as u64
            } else {
                u64::MAX
            },
    {
        let id: u64 = self.next;
        self.next = self.next.saturating_add(1);
        "swarm-".to_owned().concat(decimal(id).as_str())
    }
}

// ── What is said of the daemon ──────────────────────────────────────

/// Whether the daemon advertised the swarm read surface.
pub fn supports_swarms(capabilities: &Vec<String>) -> (r: bool)
    ensures
        r == text::views(capabilities@).contains(SWARM_LIST@),
{
    contains_text(capabilities, SWARM_LIST)
}

/// What is said when the socket goes away mid-call.
pub fn dropped_message() -> (r: Phrase)
    ensures
        r@ == phrase::said("cli-swarm-daemon-dropped"@, "The daemon closed the connection."@),
{
    t("cli-swarm-daemon-dropped", "The daemon closed the connection.")
}

/// What is said when a daemon that was started never bound its socket.
pub fn not_ready_message(socket: &str) -> (r: Phrase)
    ensures
        r@ == phrase::said_with(
            "cli-swarm-daemon-not-ready"@,
            seq![phrase::slot("socket"@, socket@)],
            "The spawned daemon never bound its socket."@,
        ),
{
    ta_one(
        "cli-swarm-daemon-not-ready",
        "socket",
        socket,
        "The spawned daemon never bound its socket.",
    )
}

/// What is said of a daemon without swarms.
pub open spec fn unsupported() -> PhraseView {
    phrase::said(
        "cli-swarm-unsupported"@,
        "This daemon has no swarm methods; it was built before swarms existed."@,
    )
}

/// What is said of a daemon without swarms.
pub fn unsupported_message() -> (r: Phrase)
    ensures
        r@ == unsupported(),
{
    t(
        "cli-swarm-unsupported",
        "This daemon has no swarm methods; it was built before swarms existed.",
    )
}

/// What is said of a call that was refused with `message`.
pub open spec fn refused(message: Seq<char>) -> PhraseView {
    phrase::said_with(
        "cli-swarm-call-failed"@,
        seq![phrase::slot("message"@, message)],
        "The daemon refused the call."@,
    )
}

/// What is said of a call that failed.
pub fn call_failed(error: &CallError) -> (r: Phrase)
    ensures
        match error {
            CallError::Rpc(failure) => r@ == if failure@.code == METHOD_NOT_FOUND {
                unsupported()
            } else {
                refused(failure@.message)
            },
            CallError::Transport(error) => r@ == refused(error@),
        },
{
    if let Some(failure) = error.failure() {
        if failure.is_method_not_found() {
            return unsupported_message();
        }
    }
    let detail = error.message();
    ta_one("cli-swarm-call-failed", "message", detail.as_str(), "The daemon refused the call.")
}

// ── Laws ────────────────────────────────────────────────────────────

/// A failure is told as the daemon told it: its own code where that fits, its own message,
/// and an internal error where it gives no code.
pub proof fn a_failure_is_told_as_it_came(code: Option<i64>, message: Option<Seq<char>>)
    ensures
        ({
            let failure = failure_of((code, message));
            &&& code matches Some(c) ==> (-0x8000_0000 <= c <= 0x7fff_ffff ==> failure.code == c)
            &&& code matches Some(c) ==> (c < -0x8000_0000 || c > 0x7fff_ffff ==> failure.code
                == -32603)
            &&& code is None ==> failure.code == -32603
            &&& message matches Some(m) ==> failure.message == m
            &&& message is None ==> failure.message.len() == 0
        }),
{
    reveal_strlit("");
}

/// Which method is which note, and that no other method is one.
pub proof fn which_method_is_which_note(method: Seq<char>)
    ensures
        note_named(method) == Some(Note::Step) <==> method == "swarm/update"@,
        note_named(method) == Some(Note::Board) <==> method == "swarm/board"@,
        note_named(method) == Some(Note::Gap) <==> method == "swarm/gap"@,
{
    reveal_strlit("swarm/update");
    reveal_strlit("swarm/board");
    reveal_strlit("swarm/gap");
    assert("swarm/update"@.len() == 12 && "swarm/board"@.len() == 11 && "swarm/gap"@.len() == 9);
}

/// A frame's id and error are its members of those names, and the error's code and message
/// the error's members of those.
pub proof fn what_a_frame_holds(value: serde_json::Value)
    ensures
        ({
            let (id, error) = frame_of(value);
            let members = json::members(value);
            &&& id is Some <==> json::string_members(value).contains_key("id"@)
            &&& id matches Some(said) ==> said == json::string_members(value)["id"@]
            &&& error is Some <==> members.contains_key("error"@)
            &&& error matches Some((code, message)) ==> {
                let told = json::members(members["error"@]);
                &&& !told.contains_key("code"@) ==> code is None
                &&& told.contains_key("code"@) ==> code == json::integer_of(told["code"@])
                &&& message matches Some(m) ==> json::string_members(
                    members["error"@],
                ).contains_key("message"@) && m == json::string_members(
                    members["error"@],
                )["message"@]
            }
        }),
{
}

/// Two calls with different numbers have different ids.
pub proof fn call_ids_differ(a: nat, b: nat)
    requires
        a != b,
    ensures
        "swarm-"@ + text::numeral(a) != "swarm-"@ + text::numeral(b),
{
    let prefix = "swarm-"@;
    assert((prefix + text::numeral(a)).skip(prefix.len() as int) =~= text::numeral(a));
    assert((prefix + text::numeral(b)).skip(prefix.len() as int) =~= text::numeral(b));
    text::numeral_injective(a, b);
}

} // verus!
