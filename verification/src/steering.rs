//! Mid-turn steering.
//!
//! A steering message is text a caller pushes into a turn that is already
//! streaming. A queue owns the messages it has not handed over yet and orders
//! them: people first, then machines, oldest first within each. It hands over a
//! batch only once the turn has consumed everything handed over before.

use std::collections::VecDeque;

use vstd::prelude::*;

use crate::text;
use crate::text::decimal;

verus! {

/// Capacity of the handoff channel between a queue and the turn draining it.
pub const STEERING_CHANNEL_CAPACITY: usize = 32;

/// Upper bound on messages a queue will hold on top of whatever is already
/// committed to the handoff channel.
pub const STEERING_MAX_PENDING: usize = 64;

/// Priority class of a steering message, highest priority first.
#[derive(Debug, Clone, Copy, PartialEq, Eq, PartialOrd, Ord, Hash, Structural)]
pub enum SteeringClass {
    /// A human interjecting mid-turn. The default for every caller that names
    /// no class.
    User,
    /// A programmatic steer. Yields to queued `User` messages so a person
    /// talking over a machine always wins.
    Orchestrator,
}

impl Default for SteeringClass {
    fn default() -> (r: Self)
        ensures
            r == SteeringClass::User,
    {
        SteeringClass::User
    }
}

impl SteeringClass {
    /// Every class in drain order, highest priority first.
    pub const ALL: [SteeringClass; 2] = [SteeringClass::User, SteeringClass::Orchestrator];

    /// Stable token for wire payloads and log attributes.
    pub fn as_str(self) -> (r: &'static str)
        ensures
            r@ == (match self {
                SteeringClass::User => "user"@,
                SteeringClass::Orchestrator => "orchestrator"@,
            }),
    {
        match self {
            SteeringClass::User => "user",
            SteeringClass::Orchestrator => "orchestrator",
        }
    }

    /// Position of this class in [`Self::ALL`].
    pub fn lane(self) -> (r: usize)
        ensures
            r < 2,
            SteeringClass::ALL@[r as int] == self,
    {
        match self {
            SteeringClass::User => 0,
            SteeringClass::Orchestrator => 1,
        }
    }
}

/// Why a steering message was refused.
#[derive(Debug, Clone, Copy, PartialEq, Eq, Structural)]
pub enum SteeringError {
    /// No turn is in flight for the session, so there is nothing to steer.
    NoTurnInFlight,
    /// The caller aimed at a turn that has already ended.
    StaleGeneration { requested: u64, current: u64 },
    /// The queue is saturated; the caller should back off and retry.
    QueueFull,
    /// The turn ended (or was torn down) while the queue was still registered.
    TurnEnded,
}

impl SteeringError {
    /// What the refusal says.
    pub open spec fn text(self) -> Seq<char> {
        match self {
            SteeringError::NoTurnInFlight => "no turn in flight for this session"@,
            SteeringError::StaleGeneration { requested, current } => {
                "steering message targets turn generation "@ + text::numeral(requested as nat)
                    + "; the session is on generation "@ + text::numeral(current as nat)
            },
            SteeringError::QueueFull => "steering queue is full for the running turn"@,
            SteeringError::TurnEnded => "the running turn is no longer accepting steering"@,
        }
    }

    /// What the refusal says.
    pub fn message(self) -> (r: String)
        ensures
            r@ == self.text(),
    {
        match self {
            SteeringError::NoTurnInFlight => "no turn in flight for this session".to_owned(),
            SteeringError::StaleGeneration { requested, current } => {
                let mut out = "steering message targets turn generation ".to_owned();
                out.append(decimal(requested).as_str());
                out.append("; the session is on generation ");
                out.append(decimal(current).as_str());
                out
            },
            SteeringError::QueueFull => "steering queue is full for the running turn".to_owned(),
            SteeringError::TurnEnded => {
                "the running turn is no longer accepting steering".to_owned()
            },
        }
    }
}

/// The messages a queue owns, by class.
#[verifier::ext_equal]
pub struct BufferView {
    pub user: Seq<Seq<char>>,
    pub orchestrator: Seq<Seq<char>>,
    pub closed: bool,
}

impl BufferView {
    /// All messages in the order in which they are to be handed over.
    pub open spec fn queue(self) -> Seq<Seq<char>> {
        self.user + self.orchestrator
    }

    /// After a message has been queued.
    pub open spec fn pushed(self, class: SteeringClass, message: Seq<char>) -> BufferView {
        match class {
            SteeringClass::User => BufferView { user: self.user.push(message), ..self },
            SteeringClass::Orchestrator => BufferView {
                orchestrator: self.orchestrator.push(message),
                ..self
            },
        }
    }

    /// How many messages a batch of at most `max` takes.
    pub open spec fn batch_len(self, max: nat) -> nat {
        if self.queue().len() <= max {
            self.queue().len()
        } else {
            max
        }
    }

    /// The next batch of at most `max` messages.
    pub open spec fn batch(self, max: nat) -> Seq<Seq<char>> {
        self.queue().take(self.batch_len(max) as int)
    }

    /// What stays queued once the next batch has been taken.
    pub open spec fn rest(self, max: nat) -> BufferView {
        let n = self.batch_len(max) as int;
        let from_user = if n <= self.user.len() {
            n
        } else {
            self.user.len() as int
        };
        BufferView {
            user: self.user.skip(from_user),
            orchestrator: self.orchestrator.skip(n - from_user),
            closed: self.closed,
        }
    }
}

/// Per-class lanes of messages the queue still owns.
#[derive(Debug)]
pub struct SteeringBuffer {
    user: VecDeque<String>,
    orchestrator: VecDeque<String>,
    closed: bool,
}

impl View for SteeringBuffer {
    type V = BufferView;

    closed spec fn view(&self) -> BufferView {
        BufferView {
            user: text::views(self.user@),
            orchestrator: text::views(self.orchestrator@),
            closed: self.closed,
        }
    }
}

impl Default for SteeringBuffer {
    fn default() -> (r: Self)
        ensures
            r@ == (BufferView { user: Seq::empty(), orchestrator: Seq::empty(), closed: false }),
    {
        let r = SteeringBuffer {
            user: VecDeque::new(),
            orchestrator: VecDeque::new(),
            closed: false,
        };
        assert(r@.user =~= Seq::<Seq<char>>::empty());
        assert(r@.orchestrator =~= Seq::<Seq<char>>::empty());
        r
    }
}

/// Moves messages from the front of `lane` to the end of `batch` while there are
/// any and `batch` has fewer than `max`.
fn drain_lane(lane: &mut VecDeque<String>, batch: &mut Vec<String>, max: usize)
    requires
        old(batch).len() <= max,
    ensures
        final(batch).len() <= max,
        final(batch).len() < max ==> final(lane)@.len() == 0,
        text::views(final(batch)@) + text::views(final(lane)@) == text::views(old(batch)@)
            + text::views(old(lane)@),
        final(batch).len() >= old(batch).len(),
{
    let ghost all = text::views(batch@) + text::views(lane@);
    while batch.len() < max && lane.len() > 0
        invariant
            batch.len() <= max,
            batch.len() >= old(batch).len(),
            text::views(batch@) + text::views(lane@) == all,
        decreases lane.len(),
    {
        let ghost before_lane = lane@;
        let ghost before_batch = batch@;
        if let Some(message) = lane.pop_front() {
            batch.push(message);
            assert(text::views(batch@) + text::views(lane@) =~= text::views(before_batch)
                + text::views(before_lane));
        }
    }
}

impl SteeringBuffer {
    /// The number of queued messages.
    pub fn len(&self) -> (r: usize)
        requires
            self@.queue().len() <= usize::MAX,
        ensures
            r == self@.queue().len(),
    {
        self.user.len() + self.orchestrator.len()
    }

    /// Queue a message behind those of its class.
    pub fn push(&mut self, class: SteeringClass, message: String)
        ensures
            final(self)@ == old(self)@.pushed(class, message@),
    {
        match class {
            SteeringClass::User => {
                self.user.push_back(message);
                assert(self@.user =~= old(self)@.user.push(message@));
            },
            SteeringClass::Orchestrator => {
                self.orchestrator.push_back(message);
                assert(self@.orchestrator =~= old(self)@.orchestrator.push(message@));
            },
        }
    }

    /// Take up to `max` messages in drain order: every queued `User` message
    /// (oldest first) before any `Orchestrator` message.
    pub fn drain_prioritized(&mut self, max: usize) -> (r: Vec<String>)
        ensures
            text::views(r@) == old(self)@.batch(max as nat),
            final(self)@ == old(self)@.rest(max as nat),
    {
        let mut batch: Vec<String> = Vec::new();
        let ghost u = text::views(self.user@);
        let ghost o = text::views(self.orchestrator@);
        drain_lane(&mut self.user, &mut batch, max);
        let ghost b1 = text::views(batch@);
        proof {
            let u1 = text::views(self.user@);
            assert(b1 + u1 =~= u);
            assert(b1 =~= u.take(b1.len() as int));
            assert(u1 =~= u.skip(b1.len() as int));
        }
        drain_lane(&mut self.orchestrator, &mut batch, max);
        proof {
            let b2 = text::views(batch@);
            let o2 = text::views(self.orchestrator@);
            assert(b2 + o2 == b1 + o);
            assert(b2.len() >= b1.len());
            let n = b2.len() as int;
            let m = b1.len() as int;
            assert(b2 =~= (b1 + o).take(n));
            assert(o2 =~= (b1 + o).skip(n));
            assert(o2 =~= o.skip(n - m));
            let q = old(self)@.queue();
            assert(q =~= u + o);
            if m == u.len() {
                assert(b1 =~= u);
                assert(b2 =~= q.take(n));
                if n < max {
                    assert(o2.len() == 0);
                    assert(n == q.len());
                }
                assert(n == old(self)@.batch_len(max as nat));
            } else {
                assert(m == max);
                assert(n == m);
                assert(b2 =~= q.take(n));
            }
            assert(self@.user =~= old(self)@.rest(max as nat).user);
            assert(self@.orchestrator =~= old(self)@.rest(max as nat).orchestrator);
        }
        batch
    }
}

/// What the pump that feeds the turn's channel is to do.
#[derive(Debug, Clone, Copy, PartialEq, Eq, Structural)]
pub enum PumpStep {
    /// The queue is closed: end.
    Stop,
    /// Nothing is queued: sleep until something is.
    Wait,
    /// Reserve this many places in the turn's channel. That completes once the
    /// turn has drained everything handed over before.
    Reserve(usize),
}

/// Producer side of mid-turn steering for one turn.
#[derive(Debug)]
pub struct SteeringQueue {
    channel_capacity: usize,
    max_pending: usize,
    buffer: SteeringBuffer,
}

impl View for SteeringQueue {
    type V = BufferView;

    closed spec fn view(&self) -> BufferView {
        self.buffer@
    }
}

impl SteeringQueue {
    /// The size of a batch.
    pub closed spec fn capacity(&self) -> usize {
        self.channel_capacity
    }

    /// How many messages may be queued.
    pub closed spec fn bound(&self) -> usize {
        self.max_pending
    }

    #[verifier::type_invariant]
    spec fn bounded(&self) -> bool {
        &&& self.channel_capacity >= 1
        &&& self.buffer@.queue().len() <= self.max_pending
    }

    /// Start a queue with the default bounds.
    pub fn start() -> (r: Self)
        ensures
            r@ == (BufferView { user: Seq::empty(), orchestrator: Seq::empty(), closed: false }),
            r.capacity() == STEERING_CHANNEL_CAPACITY,
            r.bound() == STEERING_MAX_PENDING,
            r.capacity() == 32 && r.bound() == 64,
    {
        SteeringQueue::start_with_capacity(STEERING_CHANNEL_CAPACITY, STEERING_MAX_PENDING)
    }

    /// [`Self::start`] with explicit bounds. A batch holds at least one message.
    pub fn start_with_capacity(channel_capacity: usize, max_pending: usize) -> (r: Self)
        ensures
            r@ == (BufferView { user: Seq::empty(), orchestrator: Seq::empty(), closed: false }),
            r.capacity() == (if channel_capacity == 0 {
                1
            } else {
                channel_capacity
            }),
            r.bound() == max_pending,
    {
        SteeringQueue {
            channel_capacity: if channel_capacity == 0 {
                1
            } else {
                channel_capacity
            },
            max_pending,
            buffer: SteeringBuffer::default(),
        }
    }

    /// Queue a steering message for the running turn. `receiver_gone` says that the
    /// turn's end of the channel has been dropped.
    pub fn send(&mut self, receiver_gone: bool, class: SteeringClass, message: String) -> (r: Result<
        (),
        SteeringError,
    >)
        ensures
            final(self).capacity() == old(self).capacity(),
            final(self).bound() == old(self).bound(),
            if receiver_gone || old(self)@.closed {
                r == Err::<(), SteeringError>(SteeringError::TurnEnded) && final(self)@
                    == old(self)@
            } else if old(self)@.queue().len() >= old(self).bound() {
                r == Err::<(), SteeringError>(SteeringError::QueueFull) && final(self)@
                    == old(self)@
            } else {
                r == Ok::<(), SteeringError>(()) && final(self)@ == old(self)@.pushed(
                    class,
                    message@,
                )
            },
    {
        if receiver_gone {
            return Err(SteeringError::TurnEnded);
        }
        proof {
            use_type_invariant(&*self);
        }
        if self.buffer.closed {
            return Err(SteeringError::TurnEnded);
        }
        if self.buffer.len() >= self.max_pending {
            return Err(SteeringError::QueueFull);
        }
        let mut buffer = SteeringBuffer::default();
        std::mem::swap(&mut self.buffer, &mut buffer);
        buffer.push(class, message);
        self.buffer = buffer;
        Ok(())
    }

    /// Messages the queue still owns, i.e. queued but not yet handed to the turn.
    pub fn pending(&self) -> (r: usize)
        ensures
            r == self@.queue().len(),
    {
        proof {
            use_type_invariant(self);
        }
        self.buffer.len()
    }

    /// Stop accepting messages and discard whatever is still queued. Returns
    /// the number discarded so the loss can be logged. Idempotent; subsequent
    /// calls return 0.
    pub fn close(&mut self) -> (r: usize)
        ensures
            r == old(self)@.queue().len(),
            final(self)@ == (BufferView {
                user: Seq::empty(),
                orchestrator: Seq::empty(),
                closed: true,
            }),
            final(self).capacity() == old(self).capacity(),
            final(self).bound() == old(self).bound(),
    {
        let undelivered: usize = self.pending();
        let mut buffer = SteeringBuffer::default();
        buffer.closed = true;
        assert(buffer@.queue() =~= Seq::<Seq<char>>::empty());
        proof {
            use_type_invariant(&*self);
        }
        self.buffer = buffer;
        undelivered
    }

    /// What the pump does next.
    pub fn pump_step(&self) -> (r: PumpStep)
        ensures
            r == (if self@.closed {
                PumpStep::Stop
            } else if self@.queue().len() == 0 {
                PumpStep::Wait
            } else {
                PumpStep::Reserve(self.capacity())
            }),
    {
        if self.buffer.closed {
            PumpStep::Stop
        } else if self.pending() == 0 {
            PumpStep::Wait
        } else {
            PumpStep::Reserve(self.channel_capacity)
        }
    }

    /// The batch to hand over once places in the channel have been reserved; `None`
    /// where the reservation failed, since the turn is gone, or where the queue was
    /// closed in the meantime.
    pub fn hand_over(&mut self, reserved: bool) -> (r: Option<Vec<String>>)
        ensures
            final(self).capacity() == old(self).capacity(),
            final(self).bound() == old(self).bound(),
            match r {
                Some(batch) => {
                    &&& reserved && !old(self)@.closed
                    &&& text::views(batch@) == old(self)@.batch(old(self).capacity() as nat)
                    &&& final(self)@ == old(self)@.rest(old(self).capacity() as nat)
                },
                None => (!reserved || old(self)@.closed) && final(self)@ == old(self)@,
            },
    {
        if !reserved || self.buffer.closed {
            return None;
        }
        proof {
            use_type_invariant(&*self);
        }
        let mut buffer = SteeringBuffer::default();
        std::mem::swap(&mut self.buffer, &mut buffer);
        let batch = buffer.drain_prioritized(self.channel_capacity);
        self.buffer = buffer;
        Some(batch)
    }
}

// ── Laws ────────────────────────────────────────────────────────────

/// A batch takes from the front of the drain order and what stays keeps the rest of
/// it: nothing is lost, doubled or reordered.
pub proof fn batches_keep_every_message(buffer: BufferView, max: nat)
    ensures
        buffer.batch(max) + buffer.rest(max).queue() == buffer.queue(),
        buffer.batch(max).len() <= max,
{
    assert(buffer.batch(max) + buffer.rest(max).queue() =~= buffer.queue());
}

/// Every user message that is queued goes before every orchestrator message: a
/// batch holds an orchestrator message only once no user message stays behind.
pub proof fn users_go_first(buffer: BufferView, max: nat)
    ensures
        buffer.batch(max).len() > buffer.user.len() ==> buffer.rest(max).user.len() == 0,
        forall|i: int|
            0 <= i < buffer.batch(max).len() && i < buffer.user.len() ==> buffer.batch(max)[i]
                == buffer.user[i],
{
}

/// A user message queued behind orchestrator messages overtakes all of them, and
/// goes behind the user messages that came before it.
pub proof fn a_user_message_overtakes(buffer: BufferView, message: Seq<char>)
    ensures
        buffer.pushed(SteeringClass::User, message).queue() == buffer.user.push(message)
            + buffer.orchestrator,
        buffer.pushed(SteeringClass::Orchestrator, message).queue() == buffer.queue().push(message),
{
    assert(buffer.pushed(SteeringClass::Orchestrator, message).queue() =~= buffer.queue().push(
        message,
    ));
}

/// A batch is as full as it can be: the whole queue where that fits, else as many messages
/// as were asked for; and what is left keeps its order and its lane.
pub proof fn a_batch_is_as_full_as_it_can_be(buffer: BufferView, max: nat)
    ensures
        buffer.queue().len() <= max ==> buffer.batch(max) == buffer.queue() && buffer.rest(
            max,
        ).user.len() == 0 && buffer.rest(max).orchestrator.len() == 0,
        buffer.queue().len() > max ==> buffer.batch(max).len() == max,
        max <= buffer.user.len() ==> buffer.rest(max).orchestrator == buffer.orchestrator
            && buffer.rest(max).user == buffer.user.skip(max as int),
        buffer.rest(max).closed == buffer.closed,
{
    if buffer.queue().len() <= max {
        assert(buffer.batch(max) =~= buffer.queue());
    }
    if max <= buffer.user.len() {
        assert(buffer.rest(max).orchestrator =~= buffer.orchestrator);
    }
}

/// A message joins the end of the lane of its class, and the other lane stays.
pub proof fn a_message_joins_its_lane(buffer: BufferView, message: Seq<char>)
    ensures
        buffer.pushed(SteeringClass::User, message).user == buffer.user.push(message),
        buffer.pushed(SteeringClass::User, message).orchestrator == buffer.orchestrator,
        buffer.pushed(SteeringClass::Orchestrator, message).orchestrator
            == buffer.orchestrator.push(message),
        buffer.pushed(SteeringClass::Orchestrator, message).user == buffer.user,
        buffer.pushed(SteeringClass::User, message).closed == buffer.closed,
        buffer.pushed(SteeringClass::Orchestrator, message).closed == buffer.closed,
        buffer.queue().len() == buffer.user.len() + buffer.orchestrator.len(),
{
}

} // verus!
