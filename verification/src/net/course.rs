//! The course of a session: what is sent first, what is sent when something happens, and what ends
//! the session.
//!
//! Each side greets the other before anything else. After that it sends what happens on it and
//! answers what it receives. A frame that cannot be received ends the session, and so does a message
//! that cannot be sent; it ends with an error where that message was the greeting or a reply.

use vstd::prelude::*;

use crate::net::protocol::Message;
use crate::net::transport::{hello, Action, LocalEvent, Session};

verus! {

/// How far a session has come.
#[derive(Debug, Clone, Copy, PartialEq, Eq, Structural)]
pub enum Phase {
    /// The greeting is being sent.
    Greeting,
    /// Nothing is being sent.
    Open,
    /// What happened on this side is being sent.
    Reporting,
    /// A reply is being sent.
    Replying,
    Ended,
}

/// A session and how far it has come.
#[derive(Debug, Clone, Copy, PartialEq, Eq, Structural)]
pub struct Course {
    pub session: Session,
    pub phase: Phase,
}

/// Something that moves a session on.
#[derive(Debug)]
pub enum Input {
    /// The message was sent.
    Sent,
    /// The message could not be sent.
    SendFailed,
    /// Something happened on this side.
    Local(LocalEvent),
    /// A message arrived; the clock shows `now` milliseconds.
    Received { msg: Message, now: u64 },
    /// No further message can be received.
    ReceiveFailed,
}

/// What is to be done next.
#[derive(Debug)]
pub enum Step {
    /// Wait for the next input.
    Wait,
    /// Send the message, and say whether it was sent.
    Send(Message),
    /// Do what a received message asks for, then wait.
    Perform(Action),
    /// Close the connection, with an error or without.
    End { failed: bool },
}

/// Starts a session. Returns its greeting, which is to be sent.
pub fn begin(session: Session, name: &str, platform: &str, screen_w: u32, screen_h: u32) -> (r: (
    Course,
    Message,
))
    ensures
        r.0 == (Course { session, phase: Phase::Greeting }),
        r.1 matches Message::Hello { name: n, platform: p, screen_w: w, screen_h: h } && n@ == name@
            && p@ == platform@ && w == screen_w && h == screen_h,
{
    (
        Course { session, phase: Phase::Greeting },
        hello(name, platform, screen_w, screen_h),
    )
}

impl Course {
    /// The session after an input, and what is to be done. While a message is being sent only its
    /// outcome counts; otherwise what happens here and what arrives.
    pub open spec fn advanced(self, input: Input) -> (Course, Step) {
        match (self.phase, input) {
            (Phase::Greeting, Input::Sent)
            | (Phase::Reporting, Input::Sent)
            | (Phase::Replying, Input::Sent) => (Course { phase: Phase::Open, ..self }, Step::Wait),
            (Phase::Greeting, Input::SendFailed) | (Phase::Replying, Input::SendFailed) => (
                Course { phase: Phase::Ended, ..self },
                Step::End { failed: true },
            ),
            (Phase::Reporting, Input::SendFailed) | (Phase::Open, Input::ReceiveFailed) => (
                Course { phase: Phase::Ended, ..self },
                Step::End { failed: false },
            ),
            (Phase::Open, Input::Local(event)) => match self.session.outgoing_spec(event) {
                Some(msg) => (Course { phase: Phase::Reporting, ..self }, Step::Send(msg)),
                None => (self, Step::Wait),
            },
            (Phase::Open, Input::Received { msg, now }) => {
                let session = self.session.after(msg);
                match self.session.response(msg, now) {
                    Action::Reply(reply) => (
                        Course { session, phase: Phase::Replying },
                        Step::Send(reply),
                    ),
                    action => (Course { session, ..self }, Step::Perform(action)),
                }
            },
            _ => (self, Step::Wait),
        }
    }

    /// Moves the session on.
    pub fn advance(&mut self, input: Input) -> (r: Step)
        ensures
            (*final(self), r) == old(self).advanced(input),
            old(self).session.well_formed() ==> final(self).session.well_formed(),
    {
        match (self.phase, input) {
            (Phase::Greeting, Input::Sent)
            | (Phase::Reporting, Input::Sent)
            | (Phase::Replying, Input::Sent) => {
                self.phase = Phase::Open;
                Step::Wait
            },
            (Phase::Greeting, Input::SendFailed) | (Phase::Replying, Input::SendFailed) => {
                self.phase = Phase::Ended;
                Step::End { failed: true }
            },
            (Phase::Reporting, Input::SendFailed) | (Phase::Open, Input::ReceiveFailed) => {
                self.phase = Phase::Ended;
                Step::End { failed: false }
            },
            (Phase::Open, Input::Local(event)) => match self.session.outgoing(event) {
                Some(msg) => {
                    self.phase = Phase::Reporting;
                    Step::Send(msg)
                },
                None => Step::Wait,
            },
            (Phase::Open, Input::Received { msg, now }) => match self.session.handle_msg(msg, now) {
                Action::Reply(reply) => {
                    self.phase = Phase::Replying;
                    Step::Send(reply)
                },
                action => Step::Perform(action),
            },
            _ => Step::Wait,
        }
    }

    /// The session after the first `n` of a run of inputs.
    pub open spec fn after(self, inputs: Seq<Input>, n: nat) -> Course
        decreases n,
    {
        if n == 0 {
            self
        } else {
            self.after(inputs, (n - 1) as nat).advanced(inputs[n - 1]).0
        }
    }

    /// What is to be done at input `i` of a run.
    pub open spec fn step(self, inputs: Seq<Input>, i: int) -> Step {
        self.after(inputs, i as nat).advanced(inputs[i]).1
    }

    /// Every message that is sent up to and with the first `n` of a run of inputs, from the
    /// greeting on.
    pub open spec fn transcript(self, greeting: Message, inputs: Seq<Input>, n: nat) -> Seq<Message>
        decreases n,
    {
        if n == 0 {
            seq![greeting]
        } else {
            let before = self.transcript(greeting, inputs, (n - 1) as nat);
            match self.step(inputs, n - 1) {
                Step::Send(msg) => before.push(msg),
                _ => before,
            }
        }
    }
}

/// A session keeps its role, whether it injects, and whether it is in switch mode.
proof fn lemma_role_stays(c: Course, inputs: Seq<Input>, n: nat)
    requires
        c.session.well_formed(),
    ensures
        ({
            let s = c.after(inputs, n).session;
            &&& s.well_formed()
            &&& s.is_client == c.session.is_client
            &&& s.inject == c.session.inject
            &&& s.switch is Some == c.session.switch is Some
        }),
    decreases n,
{
    if n > 0 {
        lemma_role_stays(c, inputs, (n - 1) as nat);
    }
}

/// The greeting goes first, whatever happens. In switch mode only heartbeats, their answers and
/// transfers follow; a client never sends input or cursor states; and no second greeting is sent.
pub proof fn greeting_goes_first(c: Course, greeting: Message, inputs: Seq<Input>, n: nat)
    requires
        c.session.well_formed(),
        n <= inputs.len(),
    ensures
        ({
            let sent = c.transcript(greeting, inputs, n);
            &&& sent.len() >= 1
            &&& sent[0] == greeting
            &&& forall|i: int| 1 <= i < sent.len() ==> !((#[trigger] sent[i]) is Hello)
            &&& c.session.switch is Some ==> forall|i: int|
                1 <= i < sent.len() ==> (#[trigger] sent[i]) is Heartbeat
                    || sent[i] is HeartbeatAck || sent[i] is Transfer
            &&& c.session.is_client ==> forall|i: int|
                1 <= i < sent.len() ==> !((#[trigger] sent[i]) is Input) && !(
                sent[i] is CursorState)
        }),
    decreases n,
{
    if n > 0 {
        greeting_goes_first(c, greeting, inputs, (n - 1) as nat);
        lemma_role_stays(c, inputs, (n - 1) as nat);
    }
}

/// A side that is not to inject never does: neither in switch mode nor where injection is off.
pub proof fn nothing_is_injected_unasked(c: Course, inputs: Seq<Input>, i: int)
    requires
        c.session.well_formed(),
        c.session.switch is Some || !c.session.inject,
        0 <= i < inputs.len(),
    ensures
        !(c.step(inputs, i) matches Step::Perform(Action::Inject(_))),
{
    lemma_role_stays(c, inputs, i as nat);
}

/// A session that has ended does nothing any more.
pub proof fn ended_sessions_are_silent(c: Course, inputs: Seq<Input>, i: int)
    requires
        c.phase is Ended,
        0 <= i < inputs.len(),
    ensures
        c.after(inputs, i as nat) == c,
        c.step(inputs, i) is Wait,
    decreases i,
{
    if i > 0 {
        ended_sessions_are_silent(c, inputs, i - 1);
    }
}

/// A side in switch mode, and the crossings that its monitor has reported and that have not
/// reached the session yet.
pub struct Endpoint {
    pub course: Course,
    pub crossings: Seq<crate::net::protocol::Transfer>,
}

/// What can happen to a side.
pub enum EndpointEvent {
    /// The monitor comes round; the cursor is at `(x, y)`.
    Monitor { x: i32, y: i32 },
    /// The session is moved on. A crossing among the inputs is the next one reported.
    Session(Input),
}

impl Endpoint {
    /// The side after an event, and what it is to do. An event that cannot happen changes nothing.
    pub open spec fn next(self, e: EndpointEvent) -> (Endpoint, Step) {
        match e {
            EndpointEvent::Monitor { x, y } => match self.course.session.switch {
                Some(s) => {
                    let (next, left) = s.happened(crate::switch::Happening::Read { x, y });
                    let session = Session { switch: Some(next), ..self.course.session };
                    (
                        Endpoint {
                            course: Course { session, ..self.course },
                            crossings: match left {
                                Some(t) => self.crossings.push(t),
                                None => self.crossings,
                            },
                        },
                        Step::Wait,
                    )
                },
                None => (self, Step::Wait),
            },
            EndpointEvent::Session(Input::Local(LocalEvent::Crossed(t))) => if self.crossings.len()
                > 0 && t == self.crossings.first() {
                let (course, step) = self.course.advanced(Input::Local(LocalEvent::Crossed(t)));
                (Endpoint { course, crossings: self.crossings.drop_first() }, step)
            } else {
                (self, Step::Wait)
            },
            EndpointEvent::Session(input) => {
                let (course, step) = self.course.advanced(input);
                (Endpoint { course, ..self }, step)
            },
        }
    }

    /// The side after the first `n` of a run of events.
    pub open spec fn after(self, events: Seq<EndpointEvent>, n: nat) -> Endpoint
        decreases n,
    {
        if n == 0 {
            self
        } else {
            self.after(events, (n - 1) as nat).next(events[n - 1]).0
        }
    }

    /// What the side is to do at event `i` of a run.
    pub open spec fn step(self, events: Seq<EndpointEvent>, i: int) -> Step {
        self.after(events, i as nat).next(events[i]).1
    }
}

/// The event is the arrival of a transfer.
pub open spec fn is_arrival(e: EndpointEvent) -> bool {
    e matches EndpointEvent::Session(Input::Received { msg, .. }) && msg is Transfer
}

proof fn lemma_stays_without_pointer(side: Endpoint, events: Seq<EndpointEvent>, n: nat)
    requires
        n <= events.len(),
        side.course.session.switch matches Some(s) && !s.owning,
        side.crossings.len() == 0,
        forall|k: int| 0 <= k < n ==> !is_arrival(#[trigger] events[k]),
    ensures
        side.after(events, n).course.session.switch matches Some(s) && !s.owning,
        side.after(events, n).crossings.len() == 0,
    decreases n,
{
    if n > 0 {
        lemma_stays_without_pointer(side, events, (n - 1) as nat);
        assert(!is_arrival(events[n - 1]));
    }
}

/// A side that starts without the pointer, as a client does, sends no transfer before it has
/// received one.
pub proof fn first_transfer_is_received(side: Endpoint, events: Seq<EndpointEvent>, j: int)
    requires
        0 <= j < events.len(),
        side.course.session.switch matches Some(s) && !s.owning,
        side.crossings.len() == 0,
        side.step(events, j) matches Step::Send(msg) && msg is Transfer,
    ensures
        exists|k: int| 0 <= k < j && is_arrival(#[trigger] events[k]),
{
    if forall|k: int| 0 <= k < j ==> !is_arrival(#[trigger] events[k]) {
        lemma_stays_without_pointer(side, events, j as nat);
    }
}

} // verus!
