//! The main thread, the handler thread and the two channels between them, as one system.
//!
//! A channel hands messages over in the order in which they were sent, and has no limit. The
//! handler thread goes by [`Service`]; the main thread sends what `UffdHandler::thaw` and
//! `UffdHandler::stop` say, and receives what `UffdHandler::wait` accepts.
use vstd::prelude::*;
use crate::fault::Event;
use crate::ioctl::{CopyReply, UffdOp};
use crate::mmap::{Mmap, PageState};
use crate::service::{Action, Phase, Service, MAX_EVENTS};
use crate::uffd::Message;

verus! {

/// Both threads and both channels, with what has happened so far.
pub struct System {
    /// The handler thread.
    pub service: Service,
    /// Messages that the handler has not received yet.
    pub to_handler: Seq<Message>,
    /// Messages that the main thread has not received yet.
    pub to_main: Seq<Message>,
    /// Whether the main thread has asked the handler to end.
    pub stopped: bool,
    /// How often the main thread has let the handler on.
    pub thaws: nat,
    /// How many waits of the main thread have returned.
    pub waits: nat,
    /// How many rounds the handler has reported.
    pub reports: nat,
    /// The events that the handler has read, batch by batch.
    pub queues: Seq<Seq<Event>>,
    /// The requests that have gone through, in order.
    pub requests: Seq<UffdOp>,
}

/// The states of the pages of a region of which none has been touched.
pub open spec fn untouched(mmap: Mmap) -> Seq<PageState> {
    Seq::new(mmap.nr_pages() as nat, |page: int| PageState::Untouched)
}

/// The system as it starts, with the handler as `Service::new` makes it.
pub open spec fn starts(mmap: Mmap, s: System) -> bool {
    &&& s.service.wf()
    &&& s.service.phase == Phase::Frozen
    &&& s.service.handler.mmap == mmap
    &&& s.service.handler.pages@ == untouched(mmap)
    &&& s.to_handler == Seq::<Message>::empty()
    &&& s.to_main == Seq::<Message>::empty()
    &&& !s.stopped
    &&& s.thaws == 0
    &&& s.waits == 0
    &&& s.reports == 0
    &&& s.queues == Seq::<Seq<Event>>::empty()
    &&& s.requests == Seq::<UffdOp>::empty()
}

/// The main thread lets the handler on.
pub open spec fn thaw_step(s: System, t: System) -> bool {
    &&& !s.stopped
    &&& t == System {
        to_handler: s.to_handler.push(Message::Continue),
        thaws: s.thaws + 1,
        ..s
    }
}

/// A wait of the main thread returns: it has received a report.
pub open spec fn wait_step(s: System, t: System) -> bool {
    &&& !s.stopped
    &&& s.to_main.len() > 0
    &&& s.to_main[0] == Message::Done
    &&& t == System { to_main: s.to_main.drop_first(), waits: s.waits + 1, ..s }
}

/// The main thread asks the handler to end. It does nothing after that but join the thread.
pub open spec fn stop_step(s: System, t: System) -> bool {
    &&& !s.stopped
    &&& t == System { to_handler: s.to_handler.push(Message::Exit), stopped: true, ..s }
}

/// The handler performs its action, and hands back to the service what came of it.
pub open spec fn handler_step(s: System, t: System) -> bool {
    match crate::service::action_of(s.service) {
        Action::Receive => {
            &&& s.to_handler.len() > 0
            &&& t == System {
                service: crate::service::after_received(s.service, s.to_handler[0]),
                to_handler: s.to_handler.drop_first(),
                ..s
            }
        },
        Action::ReadEvents => {
            &&& t.service.wf()
            &&& exists|events: Seq<Event>|
                crate::service::is_read(s.service, t.service, events) && t == (System {
                    service: t.service,
                    queues: #[trigger] s.queues.push(events),
                    ..s
                })
        },
        Action::Request(op) => t == System {
            service: crate::service::after_performed(s.service),
            requests: s.requests.push(op),
            ..s
        },
        Action::Send(message) => t == System {
            service: crate::service::after_sent(s.service),
            to_main: s.to_main.push(message),
            reports: s.reports + 1,
            ..s
        },
        Action::Return | Action::Abort(_) => false,
    }
}

/// The handler fails to perform its action, and gives up.
pub open spec fn give_up_step(s: System, t: System) -> bool {
    let action = crate::service::action_of(s.service);
    &&& action !is Return
    &&& action !is Abort
    &&& t == System { service: t.service, ..s }
    &&& t.service == crate::service::after_failed(s.service) || exists|reply: CopyReply|
        (#[trigger] crate::ioctl::copy_verdict(reply)) is Err && t.service
            == crate::service::after_copied(s.service, reply)
}

/// One of the threads does something.
pub open spec fn next(s: System, t: System) -> bool {
    ||| thaw_step(s, t)
    ||| wait_step(s, t)
    ||| stop_step(s, t)
    ||| handler_step(s, t)
    ||| give_up_step(s, t)
}

/// A course that the system can take, state by state.
pub open spec fn course(mmap: Mmap, states: Seq<System>) -> bool {
    &&& states.len() > 0
    &&& starts(mmap, states[0])
    &&& forall|i: int| 0 <= i < states.len() - 1 ==> next(#[trigger] states[i], states[i + 1])
}

/// The handler has nothing to do: it waits on an empty channel, or has ended.
pub open spec fn at_rest(s: System) -> bool {
    match crate::service::action_of(s.service) {
        Action::Receive => s.to_handler.len() == 0,
        Action::Return => true,
        _ => false,
    }
}

/// The requests that serve batches of events one after the other, each batch whole.
pub open spec fn all_requests(mmap: Mmap, queues: Seq<Seq<Event>>) -> Seq<UffdOp>
    decreases queues.len(),
{
    if queues.len() == 0 {
        seq![]
    } else {
        let earlier = queues.drop_last();
        let pages = crate::laws::pages_after_rounds(mmap, untouched(mmap), earlier);
        all_requests(mmap, earlier) + crate::service::round_ops(
            mmap,
            crate::laws::all_answers(mmap, pages, queues.last()),
        )
    }
}

/// The Exit message has been sent and not been received.
spec fn exit_pending(s: System) -> bool {
    s.stopped && s.service.phase !is Ended
}

/// Number of Continue messages that the handler has received.
spec fn continues_received(s: System) -> int {
    s.thaws - (s.to_handler.len() - if exit_pending(s) {
        1int
    } else {
        0int
    })
}

/// The channels hold what they should, and the counts fit together.
spec fn counts_fit(s: System) -> bool {
    let received = continues_received(s);
    &&& exit_pending(s) ==> s.to_handler.len() > 0 && s.to_handler.last() == Message::Exit
    &&& forall|j: int|
        0 <= j < s.to_handler.len() - (if exit_pending(s) {
            1int
        } else {
            0int
        }) ==> (#[trigger] s.to_handler[j]) == Message::Continue
    &&& forall|j: int| 0 <= j < s.to_main.len() ==> (#[trigger] s.to_main[j]) == Message::Done
    &&& s.waits + s.to_main.len() == s.reports
    &&& s.reports <= s.queues.len() <= received <= s.reports + 1
    &&& match s.service.phase {
        Phase::Frozen => s.queues.len() == s.reports && received == s.reports,
        Phase::Thawed => s.queues.len() == s.reports && received == s.reports + 1,
        Phase::Serving => s.queues.len() == s.reports + 1 && received == s.reports + 1,
        Phase::Ended => {
            &&& s.queues.len() == s.reports && received == s.reports
            &&& s.stopped
            &&& s.to_handler.len() == 0
        },
        Phase::Aborted(_) => true,
    }
}

/// What has been done is what serving the batches asks for.
spec fn work_fits(mmap: Mmap, s: System) -> bool {
    let done = s.queues.take(s.reports as int);
    let pages = crate::laws::pages_after_rounds(mmap, untouched(mmap), done);
    &&& s.service.wf()
    &&& s.service.handler.mmap == mmap
    &&& forall|i: int| 0 <= i < s.queues.len() ==> (#[trigger] s.queues[i]).len() <= MAX_EVENTS
    &&& forall|i: int|
        0 <= i < s.reports ==> crate::laws::serviceable(mmap, #[trigger] s.queues[i])
    &&& all_requests(mmap, done).is_prefix_of(s.requests)
    &&& match s.service.phase {
        Phase::Frozen | Phase::Thawed | Phase::Ended => {
            &&& s.requests == all_requests(mmap, done)
            &&& s.service.handler.pages@ == pages
        },
        Phase::Serving => {
            let events = s.queues[s.reports as int];
            &&& s.requests == all_requests(mmap, done) + s.service.ops@.take(
                s.service.made as int,
            )
            &&& crate::fault::is_round(mmap, pages, events, s.service.round)
            &&& s.service.ops@ == crate::service::round_ops(mmap, s.service.round.responses@)
            &&& s.service.handler.pages@ == crate::fault::pages_after(
                mmap,
                pages,
                events,
                s.service.round.swept as int,
                s.service.round.responses@.len() as int,
            )
        },
        Phase::Aborted(_) => true,
    }
}

/// Every step keeps the counts in order.
proof fn step_keeps_counts(mmap: Mmap, s: System, t: System)
    requires
        counts_fit(s),
        work_fits(mmap, s),
        next(s, t),
    ensures
        counts_fit(t),
{
    if thaw_step(s, t) {
        assert(!exit_pending(s));
    } else if stop_step(s, t) {
    } else if wait_step(s, t) {
    } else if handler_step(s, t) {
        match crate::service::action_of(s.service) {
            Action::Receive => {
                if s.to_handler[0] == Message::Exit {
                    assert(exit_pending(s));
                    assert(s.to_handler.len() == 1) by {
                        if s.to_handler.len() > 1 {
                            assert(s.to_handler[0] == Message::Continue);
                        }
                    }
                } else {
                    assert(s.to_handler[0] == Message::Continue);
                    assert(exit_pending(t) == exit_pending(s));
                    if exit_pending(s) {
                        assert(s.to_handler.len() > 1);
                        assert(t.to_handler.last() == s.to_handler.last());
                    }
                }
            },
            _ => {},
        }
    } else {
        assert(give_up_step(s, t));
    }
}

/// A round that can be reported was one whose batch can be served whole, and its requests are those
/// of that batch.
proof fn reported_round_is_whole(mmap: Mmap, s: System)
    requires
        counts_fit(s),
        work_fits(mmap, s),
        s.service.phase is Serving,
        s.service.round.error is None,
    ensures
        ({
            let n = s.reports as int;
            let done = s.queues.take(n);
            let whole = s.queues.take(n + 1);
            &&& crate::laws::serviceable(mmap, s.queues[n])
            &&& all_requests(mmap, whole) == all_requests(mmap, done) + s.service.ops@
            &&& s.service.handler.pages@ == crate::laws::pages_after_rounds(
                mmap,
                untouched(mmap),
                whole,
            )
        }),
{
    let n = s.reports as int;
    let done = s.queues.take(n);
    let whole = s.queues.take(n + 1);
    let events = s.queues[n];
    let pages = crate::laws::pages_after_rounds(mmap, untouched(mmap), done);
    assert(whole.drop_last() =~= done);
    assert(whole.last() == events);
    crate::laws::round_succeeds_on_serviceable_queue(mmap, pages, events, s.service.round);
    assert(s.service.round.responses@ =~= crate::laws::all_answers(mmap, pages, events));
}

/// Every step keeps the work in order.
proof fn step_keeps_work(mmap: Mmap, s: System, t: System)
    requires
        counts_fit(s),
        work_fits(mmap, s),
        next(s, t),
    ensures
        work_fits(mmap, t),
{
    let done = s.queues.take(s.reports as int);
    if thaw_step(s, t) || stop_step(s, t) || wait_step(s, t) {
        assert(t.queues.take(t.reports as int) =~= done);
    } else if handler_step(s, t) {
        match crate::service::action_of(s.service) {
            Action::Receive => {
                assert(t.queues.take(t.reports as int) =~= done);
            },
            Action::ReadEvents => {
                let events = choose|events: Seq<Event>|
                    crate::service::is_read(s.service, t.service, events) && t == (System {
                        service: t.service,
                        queues: #[trigger] s.queues.push(events),
                        ..s
                    });
                assert(t.queues == s.queues.push(events));
                assert(t.queues.take(t.reports as int) =~= done);
                assert(t.queues[t.reports as int] == events);
                assert(t.service.ops@.take(0) =~= Seq::<UffdOp>::empty());
                assert(t.requests =~= all_requests(mmap, done) + t.service.ops@.take(0));
                assert forall|i: int| 0 <= i < t.reports implies crate::laws::serviceable(
                    mmap,
                    #[trigger] t.queues[i],
                ) by {
                    assert(t.queues[i] == s.queues[i]);
                }
            },
            Action::Request(op) => {
                let made = s.service.made as int;
                assert(s.service.ops@.len() == s.service.ops.len());
                assert(t.queues.take(t.reports as int) =~= done);
                assert(t.service.ops@.take(made + 1) =~= s.service.ops@.take(made).push(op));
                assert(t.requests =~= all_requests(mmap, done) + t.service.ops@.take(made + 1));
            },
            Action::Send(_) => {
                reported_round_is_whole(mmap, s);
                assert(s.service.ops@.take(s.service.made as int) =~= s.service.ops@);
                let n = s.reports as int;
                assert(t.queues.take(t.reports as int) =~= s.queues.take(n + 1));
                assert forall|i: int| 0 <= i < t.reports implies crate::laws::serviceable(
                    mmap,
                    #[trigger] t.queues[i],
                ) by {
                    if i == n {
                        assert(t.queues[i] == s.queues[n]);
                    }
                }
            },
            _ => {},
        }
    } else {
        assert(give_up_step(s, t));
        assert(t.queues.take(t.reports as int) =~= done);
    }
}

/// At every state of a course, the counts and the work are in order.
proof fn course_keeps_order(mmap: Mmap, states: Seq<System>, i: int)
    requires
        course(mmap, states),
        0 <= i < states.len(),
    ensures
        counts_fit(states[i]),
        work_fits(mmap, states[i]),
    decreases i,
{
    if i == 0 {
        let s = states[0];
        assert(s.queues.take(0) =~= Seq::<Seq<Event>>::empty());
    } else {
        course_keeps_order(mmap, states, i - 1);
        assert(next(states[i - 1], states[i - 1 + 1]));
        step_keeps_counts(mmap, states[i - 1], states[i]);
        step_keeps_work(mmap, states[i - 1], states[i]);
    }
}

/// The requests of some first batches come first among those of more.
proof fn requests_of_first_batches(mmap: Mmap, queues: Seq<Seq<Event>>, n: int, m: int)
    requires
        0 <= n <= m <= queues.len(),
    ensures
        all_requests(mmap, queues.take(n)).is_prefix_of(all_requests(mmap, queues.take(m))),
    decreases m,
{
    if n < m {
        requests_of_first_batches(mmap, queues, n, m - 1);
        assert(queues.take(m).drop_last() =~= queues.take(m - 1));
    }
}

/// Waits that have returned never outnumber the reports, nor these the thaws; and what a wait
/// receives is always a report.
pub proof fn waits_never_outnumber_thaws(mmap: Mmap, states: Seq<System>, i: int)
    requires
        course(mmap, states),
        0 <= i < states.len(),
    ensures
        states[i].waits <= states[i].reports <= states[i].thaws,
        states[i].to_main.len() == states[i].reports - states[i].waits,
        forall|j: int|
            0 <= j < states[i].to_main.len() ==> (#[trigger] states[i].to_main[j])
                == Message::Done,
{
    course_keeps_order(mmap, states, i);
}

/// A wait returns only if there have been more thaws than waits, and only once its own batch, that
/// of the thaw which it waits for, has been served whole: it has been read, every event in it could
/// be served, and all its requests, after those of the batches before, have gone through. It takes
/// one report.
pub proof fn wait_returns_after_its_batch(mmap: Mmap, states: Seq<System>, i: int, t: System)
    requires
        course(mmap, states),
        0 <= i < states.len(),
        wait_step(states[i], t),
    ensures
        states[i].waits < states[i].thaws,
        states[i].waits < states[i].queues.len(),
        crate::laws::serviceable(mmap, states[i].queues[states[i].waits as int]),
        all_requests(mmap, states[i].queues.take(states[i].waits as int + 1)).is_prefix_of(
            states[i].requests,
        ),
        t.to_main.len() + 1 == states[i].to_main.len(),
{
    let s = states[i];
    course_keeps_order(mmap, states, i);
    requests_of_first_batches(mmap, s.queues, s.waits as int + 1, s.reports as int);
    let earlier = all_requests(mmap, s.queues.take(s.waits as int + 1));
    let done = all_requests(mmap, s.queues.take(s.reports as int));
    assert(earlier.is_prefix_of(done) && done.is_prefix_of(s.requests));
    assert(earlier =~= s.requests.take(earlier.len() as int));
}

/// A handler that has not given up comes to rest only when every thaw has been reported. So then a
/// wait returns if there have been more thaws than waits, and otherwise blocks.
pub proof fn handler_rests_when_all_is_reported(mmap: Mmap, states: Seq<System>, i: int)
    requires
        course(mmap, states),
        0 <= i < states.len(),
        at_rest(states[i]),
    ensures
        states[i].reports == states[i].thaws,
        states[i].to_main.len() > 0 <==> states[i].thaws > states[i].waits,
{
    course_keeps_order(mmap, states, i);
    if crate::service::action_of(states[i].service) is Receive {
        assert(states[i].service.phase is Frozen);
    }
}

/// Without a further thaw, a wait beyond the last thaw blocks: there is nothing to receive.
pub proof fn wait_blocks_without_thaw(mmap: Mmap, states: Seq<System>, i: int)
    requires
        course(mmap, states),
        0 <= i < states.len(),
        states[i].thaws <= states[i].waits,
    ensures
        states[i].to_main.len() == 0,
        forall|t: System| !(#[trigger] wait_step(states[i], t)),
{
    course_keeps_order(mmap, states, i);
}

/// How far the handler is from rest in its present round.
pub open spec fn stage_of(phase: Phase) -> nat {
    match phase {
        Phase::Thawed => 2,
        Phase::Serving => 1,
        _ => 0,
    }
}

/// The handler cannot go on for ever without a further message: each of its steps takes a message
/// from its channel, or brings it on in the round, or makes one of the requests of the round.
pub proof fn handler_comes_to_rest(mmap: Mmap, states: Seq<System>, i: int, t: System)
    requires
        course(mmap, states),
        0 <= i < states.len(),
        handler_step(states[i], t),
    ensures
        decreases_to!(
            states[i].to_handler.len(),
            stage_of(states[i].service.phase),
            states[i].service.ops@.len() - states[i].service.made
            => t.to_handler.len(),
            stage_of(t.service.phase),
            t.service.ops@.len() - t.service.made
        ),
{
    course_keeps_order(mmap, states, i);
    let s = states[i];
    assert(s.service.ops@.len() == s.service.ops.len());
}

/// The handler does not wait for its reports to be received: whatever lies in the channel to the
/// main thread, it takes the same step.
pub proof fn handler_does_not_wait_for_main(s: System, t: System, to_main: Seq<Message>)
    requires
        handler_step(s, t),
    ensures
        handler_step(
            (System { to_main, ..s }),
            (System { to_main: to_main + t.to_main.skip(s.to_main.len() as int), ..t }),
        ),
{
    let sent = t.to_main.skip(s.to_main.len() as int);
    let u = System { to_main, ..s };
    let v = System { to_main: to_main + sent, ..t };
    match crate::service::action_of(s.service) {
        Action::Send(message) => {
            assert(sent =~= seq![message]);
            assert(to_main + sent =~= to_main.push(message));
        },
        Action::ReadEvents => {
            assert(sent =~= Seq::<Message>::empty());
            assert(to_main + sent =~= to_main);
            let events = choose|events: Seq<Event>|
                crate::service::is_read(s.service, t.service, events) && t == (System {
                    service: t.service,
                    queues: #[trigger] s.queues.push(events),
                    ..s
                });
            assert(v == (System { service: v.service, queues: u.queues.push(events), ..u }));
        },
        _ => {
            assert(sent =~= Seq::<Message>::empty());
            assert(to_main + sent =~= to_main);
        },
    }
}

/// The request to end stands in the channel behind every earlier Continue.
pub proof fn exit_is_queued_last(mmap: Mmap, states: Seq<System>, i: int, t: System)
    requires
        course(mmap, states),
        0 <= i < states.len(),
        stop_step(states[i], t),
    ensures
        t.to_handler.last() == Message::Exit,
        forall|j: int|
            0 <= j < t.to_handler.len() - 1 ==> (#[trigger] t.to_handler[j]) == Message::Continue,
{
    course_keeps_order(mmap, states, i);
}

/// A handler that has ended was asked to, and has before that read, served whole and reported one
/// batch for each thaw, received or not. It does nothing any more; in particular it reads no event.
pub proof fn handler_ends_after_every_batch(mmap: Mmap, states: Seq<System>, i: int)
    requires
        course(mmap, states),
        0 <= i < states.len(),
        states[i].service.phase is Ended,
    ensures
        states[i].stopped,
        states[i].to_handler.len() == 0,
        states[i].queues.len() == states[i].thaws,
        states[i].reports == states[i].thaws,
        forall|k: int|
            0 <= k < states[i].queues.len() ==> crate::laws::serviceable(
                mmap,
                #[trigger] states[i].queues[k],
            ),
        states[i].requests == all_requests(mmap, states[i].queues),
        forall|t: System| !(#[trigger] handler_step(states[i], t)),
{
    course_keeps_order(mmap, states, i);
    let s = states[i];
    assert(s.queues.take(s.reports as int) =~= s.queues);
}

/// A Continue makes the handler read once, a limited number of events, and nothing is carried over:
/// there are never more batches than thaws; and whenever the handler has reported, and has not
/// given up, what it has requested is what serving each batch whole and by itself asks for, and it
/// knows the pages as the batches leave them.
pub proof fn each_thaw_serves_one_batch(mmap: Mmap, states: Seq<System>, i: int)
    requires
        course(mmap, states),
        0 <= i < states.len(),
    ensures
        states[i].reports <= states[i].queues.len() <= states[i].thaws,
        forall|k: int|
            0 <= k < states[i].queues.len() ==> (#[trigger] states[i].queues[k]).len()
                <= MAX_EVENTS,
        states[i].service.phase is Frozen || states[i].service.phase is Ended ==> {
            &&& states[i].queues.len() == states[i].reports
            &&& states[i].requests == all_requests(mmap, states[i].queues)
            &&& states[i].service.handler.pages@ == crate::laws::pages_after_rounds(
                mmap,
                untouched(mmap),
                states[i].queues,
            )
        },
{
    course_keeps_order(mmap, states, i);
    let s = states[i];
    if s.queues.len() == s.reports {
        assert(s.queues.take(s.reports as int) =~= s.queues);
    }
}

} // verus!
