//! The per-connection session: a state machine that owns one client's
//! duplex transport. It registers with the room registry on startup,
//! enforces the ping/pong liveness protocol, forwards registry-delivered
//! events to the client, and deregisters exactly once, whichever of the
//! termination triggers (peer close, protocol violation, read error,
//! heartbeat timeout) fires first.
//!
//! Each transition returns a [`Step`]: the outward effect the session's
//! owner must perform (answer a pong, send a ping, write an event, or tear
//! the connection down). The session itself never performs I/O.

use vstd::prelude::*;

verus! {

/// How often the heartbeat timer fires while the session is active, in
/// abstract time units.
pub const HEARTBEAT_INTERVAL: u64 = 5;

/// How long the session tolerates silence from the client before it drops
/// the connection, in abstract time units.
pub const CLIENT_TIMEOUT: u64 = 10;

/// Where a session stands in its lifecycle.
#[derive(Clone, Copy, Debug, PartialEq, Eq, Structural)]
pub enum SessionState {
    /// Waiting for the registry's answer to its join request; no identifier
    /// has been assigned yet.
    Connecting,
    /// Registered; the heartbeat runs and traffic is processed.
    Active,
    /// Torn down; nothing is processed any more.
    Terminated,
}

/// The reason given with a close frame, echoed back to the peer.
#[derive(Clone, Debug, PartialEq, Eq)]
pub struct CloseReason {
    pub code: u16,
    pub description: Option<String>,
}

/// A frame arriving from the client's transport.
#[derive(Debug, PartialEq, Eq)]
pub enum Frame {
    /// A client ping; its payload is echoed in the pong answer.
    Ping(Vec<u8>),
    /// The client's answer to one of our pings.
    Pong(Vec<u8>),
    /// Text from the client: accepted and deliberately ignored — this
    /// channel is a push feed, no inbound command protocol exists.
    Text(String),
    /// Binary from the client: unexpected, ignored.
    Binary(Vec<u8>),
    /// The client closes the connection, possibly giving a reason.
    Close(Option<CloseReason>),
    /// A continuation frame: unsupported, treated as a protocol violation.
    Continuation,
    /// Nothing to act on.
    Nop,
}

/// How a terminating session parts from its peer.
#[derive(Debug, PartialEq, Eq)]
pub enum Parting {
    /// Stop without writing a close frame.
    Silent,
    /// Write a close frame first, echoing the peer's reason if it gave one.
    Echo(Option<CloseReason>),
}

/// The outward effect of one transition, to be performed by the session's
/// owner.
#[derive(Debug, PartialEq, Eq)]
pub enum Step {
    /// Nothing outward: the input was ignored, or only reset the liveness
    /// clock.
    Ignored,
    /// Answer the client's ping, echoing its payload.
    Pong(Vec<u8>),
    /// Send an unsolicited heartbeat ping.
    Ping,
    /// Write this event's serialized form to the client as one text frame.
    Forward(String),
    /// Terminate: part from the peer as `parting` says, and — if an
    /// identifier was ever assigned — send its one deregistration to the
    /// registry.
    Stop { parting: Parting, deregister: Option<u64> },
}

/// One client's live connection. Owned exclusively by its task; nothing
/// else reads or writes these fields.
pub struct Session {
    /// Lifecycle state.
    pub state: SessionState,
    /// Identifier assigned by the registry; 0 until registration completes.
    pub session_id: u64,
    /// The room joined at creation, immutable for the session's lifetime.
    pub room_id: u64,
    /// When the client last gave a liveness signal (a ping or a pong).
    pub last_activity: u64,
}

/// Everything a session can be driven by.
pub enum Input {
    /// A frame read from the transport at the given time.
    Frame(Frame, u64),
    /// A transport-level read error: treated as an implicit close.
    ReadError,
    /// The heartbeat timer fires at the given time.
    Tick(u64),
    /// The registry's answer to the join request: the assigned identifier,
    /// or nothing if the registry refused or was unreachable.
    Reply(Option<u64>),
    /// The registry routes a serialized domain event to this session.
    Push(String),
}

impl Session {
    /// A session as built for an authorized connection to `room_id` at time
    /// `now`: not yet registered, clock fresh.
    pub open spec fn init(room_id: u64, now: u64) -> Session {
        Session {
            state: SessionState::Connecting,
            session_id: 0,
            room_id,
            last_activity: now,
        }
    }
}

/// The registry has answered the join request. Success stores the assigned
/// identifier and activates the session; refusal terminates it without a
/// deregistration — a session never deregisters an identifier it was never
/// assigned. A session not waiting for a reply ignores one.
pub open spec fn reply_step(s: Session, reply: Option<u64>) -> (Session, Step) {
    if s.state is Connecting {
        match reply {
            Some(id) => (
                Session { state: SessionState::Active, session_id: id, ..s },
                Step::Ignored,
            ),
            None => (
                Session { state: SessionState::Terminated, ..s },
                Step::Stop { parting: Parting::Silent, deregister: None },
            ),
        }
    } else {
        (s, Step::Ignored)
    }
}

/// A frame arrives at time `now`. Pings and pongs reset the liveness clock
/// (pings are answered); text and binary are ignored; a close frame is
/// honored and echoed; a continuation frame is a protocol violation. Every
/// terminal outcome deregisters the session's identifier. Only an active
/// session processes traffic.
pub open spec fn frame_step(s: Session, frame: Frame, now: u64) -> (Session, Step) {
    if !(s.state is Active) {
        (s, Step::Ignored)
    } else {
        match frame {
            Frame::Ping(payload) => (
                Session { last_activity: now, ..s },
                Step::Pong(payload),
            ),
            Frame::Pong(_) => (Session { last_activity: now, ..s }, Step::Ignored),
            Frame::Text(_) => (s, Step::Ignored),
            Frame::Binary(_) => (s, Step::Ignored),
            Frame::Close(reason) => (
                Session { state: SessionState::Terminated, ..s },
                Step::Stop {
                    parting: Parting::Echo(reason),
                    deregister: Some(s.session_id),
                },
            ),
            Frame::Continuation => (
                Session { state: SessionState::Terminated, ..s },
                Step::Stop { parting: Parting::Silent, deregister: Some(s.session_id) },
            ),
            Frame::Nop => (s, Step::Ignored),
        }
    }
}

/// A transport read error: treated as an implicit close, without an echo.
pub open spec fn error_step(s: Session) -> (Session, Step) {
    if s.state is Active {
        (
            Session { state: SessionState::Terminated, ..s },
            Step::Stop { parting: Parting::Silent, deregister: Some(s.session_id) },
        )
    } else {
        (s, Step::Ignored)
    }
}

/// The heartbeat timer fires at time `now`. If the client has been silent
/// for longer than the timeout window the session is torn down, with its
/// one deregistration; otherwise an unsolicited ping goes out. The timer
/// only runs while the session is active.
pub open spec fn tick_step(s: Session, now: u64) -> (Session, Step) {
    if !(s.state is Active) {
        (s, Step::Ignored)
    } else if now - s.last_activity > CLIENT_TIMEOUT {
        (
            Session { state: SessionState::Terminated, ..s },
            Step::Stop { parting: Parting::Silent, deregister: Some(s.session_id) },
        )
    } else {
        (s, Step::Ping)
    }
}

/// The registry pushes a serialized event: an active session forwards it
/// verbatim to the client. Delivery is not a liveness signal — the clock is
/// untouched.
pub open spec fn push_step(s: Session, payload: String) -> (Session, Step) {
    if s.state is Active {
        (s, Step::Forward(payload))
    } else {
        (s, Step::Ignored)
    }
}

/// One transition, whatever drove it.
pub open spec fn input_step(s: Session, inp: Input) -> (Session, Step) {
    match inp {
        Input::Frame(frame, now) => frame_step(s, frame, now),
        Input::ReadError => error_step(s),
        Input::Tick(now) => tick_step(s, now),
        Input::Reply(reply) => reply_step(s, reply),
        Input::Push(payload) => push_step(s, payload),
    }
}

/// The session after a whole sequence of inputs.
pub open spec fn run(s: Session, ins: Seq<Input>) -> Session
    decreases ins.len(),
{
    if ins.len() == 0 {
        s
    } else {
        input_step(run(s, ins.drop_last()), ins.last()).0
    }
}

/// Does this step carry a deregistration to the registry?
pub open spec fn is_deregistration(step: Step) -> bool {
    step matches Step::Stop { deregister: Some(_), .. }
}

/// How many of the steps taken over `ins` carried a deregistration.
pub open spec fn dereg_count(s: Session, ins: Seq<Input>) -> nat
    decreases ins.len(),
{
    if ins.len() == 0 {
        0
    } else {
        dereg_count(s, ins.drop_last()) + if is_deregistration(
            input_step(run(s, ins.drop_last()), ins.last()).1,
        ) {
            1nat
        } else {
            0nat
        }
    }
}

impl Session {
    /// Builds the session for an already-authorized connection to
    /// `room_id`, with its liveness clock starting at `now`.
    pub fn new(room_id: u64, now: u64) -> (s: Session)
        ensures
            s == Session::init(room_id, now),
    {
        Session {
            state: SessionState::Connecting,
            session_id: 0,
            room_id,
            last_activity: now,
        }
    }

    /// Applies the registry's answer to the join request.
    pub fn on_reply(&mut self, reply: Option<u64>) -> (step: Step)
        ensures
            (*final(self), step) == reply_step(*old(self), reply),
    {
        if matches!(self.state, SessionState::Connecting) {
            match reply {
                Some(id) => {
                    self.state = SessionState::Active;
                    self.session_id = id;
                    Step::Ignored
                },
                None => {
                    self.state = SessionState::Terminated;
                    Step::Stop { parting: Parting::Silent, deregister: None }
                },
            }
        } else {
            Step::Ignored
        }
    }

    /// Processes one frame read from the transport at time `now`.
    pub fn on_frame(&mut self, frame: Frame, now: u64) -> (step: Step)
        ensures
            (*final(self), step) == frame_step(*old(self), frame, now),
    {
        if !matches!(self.state, SessionState::Active) {
            return Step::Ignored;
        }
        match frame {
            Frame::Ping(payload) => {
                self.last_activity = now;
                Step::Pong(payload)
            },
            Frame::Pong(_) => {
                self.last_activity = now;
                Step::Ignored
            },
            Frame::Text(_) => Step::Ignored,
            Frame::Binary(_) => Step::Ignored,
            Frame::Close(reason) => {
                self.state = SessionState::Terminated;
                Step::Stop { parting: Parting::Echo(reason), deregister: Some(self.session_id) }
            },
            Frame::Continuation => {
                self.state = SessionState::Terminated;
                Step::Stop { parting: Parting::Silent, deregister: Some(self.session_id) }
            },
            Frame::Nop => Step::Ignored,
        }
    }

    /// Handles a transport-level read error.
    pub fn on_transport_error(&mut self) -> (step: Step)
        ensures
            (*final(self), step) == error_step(*old(self)),
    {
        if matches!(self.state, SessionState::Active) {
            self.state = SessionState::Terminated;
            Step::Stop { parting: Parting::Silent, deregister: Some(self.session_id) }
        } else {
            Step::Ignored
        }
    }

    /// Handles a heartbeat timer firing at time `now`. The clock never runs
    /// backwards past the last recorded activity.
    pub fn on_tick(&mut self, now: u64) -> (step: Step)
        requires
            old(self).last_activity <= now,
        ensures
            (*final(self), step) == tick_step(*old(self), now),
    {
        if !matches!(self.state, SessionState::Active) {
            return Step::Ignored;
        }
        if now - self.last_activity > CLIENT_TIMEOUT {
            self.state = SessionState::Terminated;
            Step::Stop { parting: Parting::Silent, deregister: Some(self.session_id) }
        } else {
            Step::Ping
        }
    }

    /// Forwards a registry-delivered event (already serialized to its text
    /// form) to the client. Leaves the session — in particular its liveness
    /// clock — untouched.
    pub fn forward_event(&self, payload: String) -> (step: Step)
        ensures
            (*self, step) == push_step(*self, payload),
    {
        if matches!(self.state, SessionState::Active) {
            Step::Forward(payload)
        } else {
            Step::Ignored
        }
    }
}

/// Screens a connection attempt: only an authorized one yields a session,
/// fresh for `room_id` at time `now`. An unauthorized attempt yields
/// nothing — no session is built, so nothing can ever be registered for it.
pub fn accept_connection(authorized: bool, room_id: u64, now: u64) -> (r: Option<Session>)
    ensures
        authorized ==> r == Some(Session::init(room_id, now)),
        !authorized ==> r is None,
{
    if authorized {
        Some(Session::new(room_id, now))
    } else {
        None
    }
}

/// A terminated session is inert: every further input leaves it untouched
/// and produces no outward effect.
pub proof fn lemma_terminated_is_inert(s: Session, inp: Input)
    requires
        s.state is Terminated,
    ensures
        input_step(s, inp).0 == s,
        input_step(s, inp).1 == Step::Ignored,
{
}

/// A step that carries a deregistration always leaves the session
/// terminated.
proof fn lemma_deregistration_terminates(s: Session, inp: Input)
    ensures
        is_deregistration(input_step(s, inp).1) ==> input_step(s, inp).0.state is Terminated,
{
}

/// A terminated session stays terminated over any sequence of inputs and
/// never deregisters.
pub proof fn lemma_terminated_run(s: Session, ins: Seq<Input>)
    requires
        s.state is Terminated,
    ensures
        run(s, ins) == s,
        dereg_count(s, ins) == 0,
    decreases ins.len(),
{
    if ins.len() > 0 {
        lemma_terminated_run(s, ins.drop_last());
        lemma_terminated_is_inert(s, ins.last());
    }
}

/// Deregistration happens at most once per session, whatever arrives in
/// whatever order: the first termination trigger tears the session down,
/// and a terminated session reacts to nothing further.
pub proof fn lemma_at_most_one_deregistration(s: Session, ins: Seq<Input>)
    ensures
        dereg_count(s, ins) <= 1,
        dereg_count(s, ins) == 1 ==> run(s, ins).state is Terminated,
    decreases ins.len(),
{
    if ins.len() > 0 {
        let prefix = ins.drop_last();
        lemma_at_most_one_deregistration(s, prefix);
        let r = run(s, prefix);
        lemma_deregistration_terminates(r, ins.last());
        if dereg_count(s, prefix) == 1 {
            lemma_terminated_is_inert(r, ins.last());
        }
    }
}

/// Once the timeout window has elapsed, a heartbeat tick tears the session
/// down: silently, deregistering exactly its own identifier.
pub proof fn lemma_timeout_fires(s: Session, now: u64)
    requires
        s.state is Active,
        now - s.last_activity > CLIENT_TIMEOUT,
    ensures
        tick_step(s, now).0.state is Terminated,
        tick_step(s, now).1 == (Step::Stop {
            parting: Parting::Silent,
            deregister: Some(s.session_id),
        }),
{
}

/// The heartbeat detects a timeout within one interval of its elapsing: if
/// the tick one interval earlier still found the client inside the window,
/// a tick at `now` that finds the window elapsed comes no later than one
/// interval past its end — and it disconnects.
pub proof fn lemma_timeout_within_one_interval(s: Session, now: u64)
    requires
        s.state is Active,
        HEARTBEAT_INTERVAL <= now,
        now - s.last_activity > CLIENT_TIMEOUT,
        (now - HEARTBEAT_INTERVAL) - s.last_activity <= CLIENT_TIMEOUT,
    ensures
        now <= s.last_activity + CLIENT_TIMEOUT + HEARTBEAT_INTERVAL,
        tick_step(s, now).0.state is Terminated,
        tick_step(s, now).1 == (Step::Stop {
            parting: Parting::Silent,
            deregister: Some(s.session_id),
        }),
{
}

/// A ping or pong answered at time `heard_at` followed by a tick at
/// `tick_at`.
pub open spec fn liveness_round(s: Session, f: Frame, heard_at: u64, tick_at: u64) -> Session {
    tick_step(frame_step(s, f, heard_at).0, tick_at).0
}

/// The session after a whole sequence of rounds, each a `(frame, heard_at,
/// tick_at)` triple.
pub open spec fn run_rounds(s: Session, rounds: Seq<(Frame, u64, u64)>) -> Session
    decreases rounds.len(),
{
    if rounds.len() == 0 {
        s
    } else {
        liveness_round(
            run_rounds(s, rounds.drop_last()),
            rounds.last().0,
            rounds.last().1,
            rounds.last().2,
        )
    }
}

/// A client that keeps giving liveness signals is never torn down by the
/// heartbeat: after arbitrarily many rounds — a ping or pong heard at some
/// time, then a tick no more than CLIENT_TIMEOUT later — the session is
/// still active, under its original identity, however long it runs.
pub proof fn lemma_steady_pongs_never_time_out(s: Session, rounds: Seq<(Frame, u64, u64)>)
    requires
        s.state is Active,
        forall|i: int| #![trigger rounds[i]]
            0 <= i < rounds.len() ==> (rounds[i].0 is Ping || rounds[i].0 is Pong),
        forall|i: int| #![trigger rounds[i]]
            0 <= i < rounds.len() ==> rounds[i].1 <= rounds[i].2 <= rounds[i].1 + CLIENT_TIMEOUT,
    ensures
        run_rounds(s, rounds).state is Active,
        run_rounds(s, rounds).session_id == s.session_id,
        run_rounds(s, rounds).room_id == s.room_id,
    decreases rounds.len(),
{
    if rounds.len() > 0 {
        lemma_steady_pongs_never_time_out(s, rounds.drop_last());
        let prev = run_rounds(s, rounds.drop_last());
        let last = rounds.last();
        assert(rounds[rounds.len() - 1] == last);
        let heard = frame_step(prev, last.0, last.1).0;
        assert(heard.last_activity == last.1);
        assert(tick_step(heard, last.2).0.state is Active);
    }
}

/// A ping of ours answered by a pong resets the liveness clock: after the
/// pong lands at time `heard_at`, a tick anywhere up to CLIENT_TIMEOUT
/// later — in particular one a full interval later, however stale the
/// clock was before — finds the session alive and sends the next ping
/// instead of disconnecting.
pub proof fn lemma_pong_resets_clock(s: Session, f: Frame, heard_at: u64, tick_at: u64)
    requires
        s.state is Active,
        f is Ping || f is Pong,
        heard_at <= tick_at <= heard_at + CLIENT_TIMEOUT,
    ensures
        frame_step(s, f, heard_at).0.state is Active,
        frame_step(s, f, heard_at).0.last_activity == heard_at,
        tick_step(frame_step(s, f, heard_at).0, tick_at).0 == frame_step(s, f, heard_at).0,
        tick_step(frame_step(s, f, heard_at).0, tick_at).1 == Step::Ping,
{
}

} // verus!
