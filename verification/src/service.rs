//! The handler thread as a state machine.
//!
//! A [`Service`] tells one action at a time. Whoever performs the action hands back what came of
//! it, with the method that the action names, or with [`Service::failed`] if it could not be done.
use vstd::prelude::*;
use vstd::string::*;
use crate::fault::{Event, EventError, FaultHandler, Response, Round};
use crate::ioctl::{check_copy, respond, CopyError, CopyReply, UffdOp};
use crate::mmap::{Mmap, PageState};
use crate::uffd::{Command, Message};

verus! {

/// How many events are read from the queue at most in one round.
pub const MAX_EVENTS: usize = 100;

/// Why the handler thread gives up.
#[derive(Debug, Clone, Copy, PartialEq, Eq, Structural)]
pub enum Abort {
    /// It got a message that is not for it.
    UnexpectedMessage(Message),
    /// The queue holds an event that it cannot serve.
    BadEvent(EventError),
    /// A copy request did not go through.
    BadCopy(CopyError),
    /// It could not receive, read the queue, send, or make a request other than a copy.
    ActionFailed,
}

/// What the thread says when it gives up, where that is the same on every system. Of an event with a
/// bad address, of a failed copy and of a failed action nothing is said here.
pub open spec fn abort_text(abort: Abort) -> Option<Seq<char>> {
    match abort {
        Abort::UnexpectedMessage(message) => Some(
            "uffd handler: unexpected command: '"@ + crate::uffd::message_name(message) + "'"@,
        ),
        Abort::BadEvent(EventError::WriteProtectFault { .. }) => Some(
            "internal error: entered unreachable code: We don't handle WriteProtect faults currently"@,
        ),
        Abort::BadEvent(EventError::MinorFault { .. }) => Some("Unexpected MINOR fault"@),
        Abort::BadEvent(_) => None,
        Abort::BadCopy(error) => crate::ioctl::copy_error_text(error),
        Abort::ActionFailed => None,
    }
}

impl Abort {
    /// What the thread says when it gives up, where that is the same on every system.
    pub fn text(&self) -> (text: Option<String>)
        ensures
            match abort_text(*self) {
                Some(said) => text is Some && text->Some_0@ == said,
                None => text is None,
            },
    {
        match self {
            Abort::UnexpectedMessage(message) => {
                let mut text = "uffd handler: unexpected command: '".to_owned();
                text.append(message.name());
                text.append("'");
                Some(text)
            },
            Abort::BadEvent(EventError::WriteProtectFault { .. }) => Some(
                "internal error: entered unreachable code: We don't handle WriteProtect faults currently".to_owned(),
            ),
            Abort::BadEvent(EventError::MinorFault { .. }) => Some(
                "Unexpected MINOR fault".to_owned(),
            ),
            Abort::BadEvent(_) => None,
            Abort::BadCopy(error) => error.text(),
            Abort::ActionFailed => None,
        }
    }
}

/// What the handler thread does next.
#[derive(Debug, Clone, Copy, PartialEq, Eq, Structural)]
pub enum Action {
    /// Wait for a message; then [`Service::received`].
    Receive,
    /// Read the queue; then [`Service::read`].
    ReadEvents,
    /// Make a request; then [`Service::copied`] if it is a copy, else [`Service::performed`].
    Request(UffdOp),
    /// Send a message; then [`Service::sent`].
    Send(Message),
    /// End.
    Return,
    /// Give up.
    Abort(Abort),
}

/// What the handler thread is about.
#[derive(Debug, Clone, Copy, PartialEq, Eq, Structural)]
pub enum Phase {
    /// It waits to be let on.
    Frozen,
    /// It has been let on, and has not read the queue.
    Thawed,
    /// It makes the requests of a round.
    Serving,
    /// It has been told to end.
    Ended,
    /// It has given up.
    Aborted(Abort),
}

/// The handler thread.
pub struct Service {
    /// What it knows of the pages.
    pub handler: FaultHandler,
    /// The last round.
    pub round: Round,
    /// The requests of that round.
    pub ops: Vec<UffdOp>,
    /// How many of them have been made.
    pub made: usize,
    pub phase: Phase,
}

/// The requests that carry out the responses, one after the other.
pub open spec fn round_ops(mmap: Mmap, responses: Seq<Response>) -> Seq<UffdOp>
    decreases responses.len(),
{
    if responses.len() == 0 {
        seq![]
    } else {
        round_ops(mmap, responses.drop_last()) + crate::ioctl::response_ops(
            mmap,
            responses.last(),
        )
    }
}

/// The action that the thread is at. The requests of a round come first; then the round is
/// reported, or given up if it ended early.
pub open spec fn action_of(service: Service) -> Action {
    match service.phase {
        Phase::Frozen => Action::Receive,
        Phase::Thawed => Action::ReadEvents,
        Phase::Serving => if service.made < service.ops@.len() {
            Action::Request(service.ops@[service.made as int])
        } else {
            match service.round.error {
                Some(error) => Action::Abort(Abort::BadEvent(error)),
                None => Action::Send(Message::Done),
            }
        },
        Phase::Ended => Action::Return,
        Phase::Aborted(abort) => Action::Abort(abort),
    }
}

/// The phase that a message leads to.
pub open spec fn phase_after(message: Message) -> Phase {
    match crate::uffd::command_of(message) {
        Some(Command::Serve) => Phase::Thawed,
        Some(Command::Return) => Phase::Ended,
        None => Phase::Aborted(Abort::UnexpectedMessage(message)),
    }
}

/// What becomes of the thread when a message has arrived.
pub open spec fn after_received(service: Service, message: Message) -> Service {
    Service { phase: phase_after(message), ..service }
}

/// What becomes of the thread when a request has gone through.
pub open spec fn after_performed(service: Service) -> Service {
    Service { made: (service.made + 1) as usize, ..service }
}

/// What becomes of the thread when a copy request has been replied to.
pub open spec fn after_copied(service: Service, reply: CopyReply) -> Service {
    match crate::ioctl::copy_verdict(reply) {
        Ok(()) => after_performed(service),
        Err(error) => Service { phase: Phase::Aborted(Abort::BadCopy(error)), ..service },
    }
}

/// What becomes of the thread when an action could not be performed.
pub open spec fn after_failed(service: Service) -> Service {
    Service { phase: Phase::Aborted(Abort::ActionFailed), ..service }
}

/// What becomes of the thread when it has reported a round.
pub open spec fn after_sent(service: Service) -> Service {
    Service { phase: Phase::Frozen, ..service }
}

/// What becomes of the thread when it has read the queue, a limited number of events: it serves a
/// round on all of them, and has the requests of that round to make.
pub open spec fn is_read(before: Service, after: Service, events: Seq<Event>) -> bool {
    let mmap = before.handler.mmap;
    let pages = before.handler.pages@;
    &&& events.len() <= MAX_EVENTS
    &&& after.phase == Phase::Serving
    &&& after.handler.mmap == mmap
    &&& crate::fault::is_round(mmap, pages, events, after.round)
    &&& after.handler.pages@ == crate::fault::pages_after(
        mmap,
        pages,
        events,
        after.round.swept as int,
        after.round.responses@.len() as int,
    )
    &&& after.ops@ == round_ops(mmap, after.round.responses@)
    &&& after.made == 0
}

impl Service {
    /// The knowledge of the pages is well-formed, and no more requests were made than there are.
    pub open spec fn wf(&self) -> bool {
        &&& self.handler.wf()
        &&& self.made <= self.ops@.len()
    }

    /// The thread as it starts: frozen, with no page touched.
    pub fn new(mmap: Mmap) -> (service: Service)
        requires
            mmap.wf(),
        ensures
            service.wf(),
            service.phase == Phase::Frozen,
            service.round.swept == 0,
            service.round.responses@.len() == 0,
            service.round.error is None,
            service.ops@.len() == 0,
            service.made == 0,
            service.handler.mmap == mmap,
            forall|page: int|
                0 <= page < mmap.nr_pages() ==> (#[trigger] service.handler.pages@[page])
                    == PageState::Untouched,
    {
        Service {
            handler: FaultHandler::new(mmap),
            round: Round { swept: 0, responses: Vec::new(), error: None },
            ops: Vec::new(),
            made: 0,
            phase: Phase::Frozen,
        }
    }

    /// What to do next.
    pub fn action(&self) -> (action: Action)
        requires
            self.wf(),
        ensures
            action == action_of(*self),
    {
        match self.phase {
            Phase::Frozen => Action::Receive,
            Phase::Thawed => Action::ReadEvents,
            Phase::Serving => if self.made < self.ops.len() {
                Action::Request(self.ops[self.made])
            } else {
                match self.round.error {
                    Some(error) => Action::Abort(Abort::BadEvent(error)),
                    None => Action::Send(Message::Done),
                }
            },
            Phase::Ended => Action::Return,
            Phase::Aborted(abort) => Action::Abort(abort),
        }
    }

    /// Takes the message that arrived.
    pub fn received(&mut self, message: Message)
        requires
            old(self).wf(),
            action_of(*old(self)) == Action::Receive,
        ensures
            final(self).wf(),
            *final(self) == after_received(*old(self), message),
    {
        self.phase = match message.command() {
            Some(Command::Serve) => Phase::Thawed,
            Some(Command::Return) => Phase::Ended,
            None => Phase::Aborted(Abort::UnexpectedMessage(message)),
        };
    }

    /// Takes the events that were read from the queue, and serves a round on them.
    pub fn read(&mut self, events: &[Event])
        requires
            old(self).wf(),
            action_of(*old(self)) == Action::ReadEvents,
            events@.len() <= MAX_EVENTS,
        ensures
            final(self).wf(),
            is_read(*old(self), *final(self), events@),
    {
        let round = self.handler.round(events);
        let mut ops: Vec<UffdOp> = Vec::new();
        let mut k: usize = 0;
        while k < round.responses.len()
            invariant
                k <= round.responses@.len(),
                ops@ == round_ops(self.handler.mmap, round.responses@.take(k as int)),
            decreases round.responses@.len() - k,
        {
            let mut answer: Vec<UffdOp> = respond(&self.handler.mmap, round.responses[k]);
            ops.append(&mut answer);
            k = k + 1;
            proof {
                let taken = round.responses@.take(k as int);
                assert(taken.drop_last() =~= round.responses@.take(k - 1));
            }
        }
        assert(round.responses@.take(k as int) =~= round.responses@);
        self.round = round;
        self.ops = ops;
        self.made = 0;
        self.phase = Phase::Serving;
    }

    /// Takes note that a request other than a copy has gone through.
    pub fn performed(&mut self)
        requires
            old(self).wf(),
            action_of(*old(self)) is Request,
            action_of(*old(self))->Request_0 !is Copy,
        ensures
            final(self).wf(),
            *final(self) == after_performed(*old(self)),
    {
        assert(self.made < self.ops.len());
        self.made = self.made + 1;
    }

    /// Takes the reply to a copy request.
    pub fn copied(&mut self, reply: CopyReply)
        requires
            old(self).wf(),
            action_of(*old(self)) is Request,
            action_of(*old(self))->Request_0 is Copy,
        ensures
            final(self).wf(),
            *final(self) == after_copied(*old(self), reply),
    {
        assert(self.made < self.ops.len());
        match check_copy(reply) {
            Ok(()) => {
                self.made = self.made + 1;
            },
            Err(error) => {
                self.phase = Phase::Aborted(Abort::BadCopy(error));
            },
        }
    }

    /// Takes note that the action could not be performed. A copy request that fails has a reply of
    /// its own, which [`Service::copied`] takes.
    pub fn failed(&mut self)
        requires
            old(self).wf(),
            match action_of(*old(self)) {
                Action::Receive | Action::ReadEvents | Action::Send(_) => true,
                Action::Request(op) => op !is Copy,
                _ => false,
            },
        ensures
            final(self).wf(),
            *final(self) == after_failed(*old(self)),
    {
        self.phase = Phase::Aborted(Abort::ActionFailed);
    }

    /// Takes note that the report of a round has been sent.
    pub fn sent(&mut self)
        requires
            old(self).wf(),
            action_of(*old(self)) is Send,
        ensures
            final(self).wf(),
            *final(self) == after_sent(*old(self)),
    {
        self.phase = Phase::Frozen;
    }
}

} // verus!
