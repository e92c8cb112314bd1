use uffd_tests::fault::{
    Event, EventError, FaultHandler, FaultKind, ReadWrite, Response, Round,
};
use uffd_tests::ioctl::{
    check_copy, handle_copy, handle_zeropage, respond, CopyError, CopyReply, PageSource, UffdOp,
};
use uffd_tests::mmap::{Mmap, PageState, PAGE_SZ_2M, PAGE_SZ_4K};
use uffd_tests::service::{Abort, Action, Phase, Service, MAX_EVENTS};
use uffd_tests::uffd::{Message, UffdHandler};

const BASE: usize = 0x4000_0000;

fn small() -> Mmap {
    Mmap { addr: BASE, len: 10 * PAGE_SZ_4K, page_size: PAGE_SZ_4K, fd: None }
}

fn huge() -> Mmap {
    Mmap { addr: BASE, len: 10 * PAGE_SZ_2M, page_size: PAGE_SZ_2M, fd: None }
}

fn at(page: usize) -> usize {
    BASE + page * PAGE_SZ_4K
}

fn fault(page: usize, rw: ReadWrite) -> Event {
    Event::Pagefault { kind: FaultKind::Missing, rw, addr: at(page) }
}

fn remove(page: usize) -> Event {
    Event::Remove { start: at(page), end: at(page + 1) }
}

fn serve(events: &[Event]) -> (FaultHandler, Round) {
    let mut handler = FaultHandler::new(small());
    let round = handler.round(events);
    (handler, round)
}

fn error_of(event: Event) -> Option<EventError> {
    serve(&[event]).1.error
}

#[test]
fn new_handler_has_touched_nothing() {
    assert_eq!(FaultHandler::new(small()).pages, vec![PageState::Untouched; 10]);
}

#[test]
fn untouched_page_gets_the_pattern() {
    let (handler, round) = serve(&[fault(3, ReadWrite::Read), fault(4, ReadWrite::Write)]);
    assert_eq!(
        round.responses,
        vec![
            Response::CopyPage { addr: at(3), wp: true },
            Response::CopyPage { addr: at(4), wp: false },
        ]
    );
    assert_eq!(round.error, None);
    assert_eq!(handler.pages[3], PageState::Faulted);
    assert_eq!(handler.pages[4], PageState::Faulted);
    assert_eq!(handler.pages[5], PageState::Untouched);
}

#[test]
fn page_is_provided_once() {
    let (_, round) =
        serve(&[fault(3, ReadWrite::Read), Event::Other, fault(3, ReadWrite::Write)]);
    assert_eq!(
        round.responses,
        vec![
            Response::CopyPage { addr: at(3), wp: true },
            Response::Skip,
            Response::AlreadyFaulted,
        ]
    );
}

#[test]
fn removal_counts_wherever_it_stands() {
    let (handler, round) =
        serve(&[fault(0, ReadWrite::Read), fault(0, ReadWrite::Write), remove(0)]);
    assert_eq!(
        round.responses,
        vec![Response::ZeroPage { addr: at(0) }, Response::AlreadyFaulted, Response::Skip]
    );
    assert_eq!(handler.pages[0], PageState::Faulted);
    assert_eq!(round.swept, 3);
}

#[test]
fn removed_page_stays_removed_until_a_fault() {
    let (mut handler, round) = serve(&[remove(2), remove(2)]);
    assert_eq!(round.responses, vec![Response::Skip, Response::Skip]);
    assert_eq!(handler.pages[2], PageState::Removed);
    let round = handler.round(&[fault(2, ReadWrite::Write)]);
    assert_eq!(round.responses, vec![Response::ZeroPage { addr: at(2) }]);
    assert_eq!(handler.pages[2], PageState::Faulted);
}

#[test]
fn faulted_page_can_be_removed_and_comes_back_as_zeroes() {
    let (mut handler, _) = serve(&[fault(1, ReadWrite::Read)]);
    let round = handler.round(&[remove(1), fault(1, ReadWrite::Read)]);
    assert_eq!(round.responses, vec![Response::Skip, Response::ZeroPage { addr: at(1) }]);
    let round = handler.round(&[fault(1, ReadWrite::Read)]);
    assert_eq!(round.responses, vec![Response::AlreadyFaulted]);
}

#[test]
fn empty_queue() {
    let (handler, round) = serve(&[]);
    assert_eq!(round, Round { swept: 0, responses: vec![], error: None });
    assert_eq!(handler.pages, vec![PageState::Untouched; 10]);
}

#[test]
fn order_of_queue_does_not_matter_for_the_pages() {
    let (one, _) = serve(&[remove(1), fault(2, ReadWrite::Read), fault(1, ReadWrite::Read)]);
    let (other, _) = serve(&[
        fault(1, ReadWrite::Read),
        fault(1, ReadWrite::Read),
        remove(1),
        fault(2, ReadWrite::Read),
    ]);
    assert_eq!(one.pages, other.pages);
}

#[test]
fn queues_can_be_served_together() {
    let first = [remove(1), fault(2, ReadWrite::Read)];
    let second = [fault(1, ReadWrite::Write), fault(2, ReadWrite::Write), remove(3)];
    let mut apart = FaultHandler::new(small());
    let mut answers = apart.round(&first).responses;
    answers.extend(apart.round(&second).responses);
    let (together, round) = serve(&[first[0], first[1], second[0], second[1], second[2]]);
    assert_eq!(answers, round.responses);
    assert_eq!(apart.pages, together.pages);
}

#[test]
fn misaligned_events() {
    let addr = at(1) + 8;
    let kind = FaultKind::Missing;
    assert_eq!(
        error_of(Event::Pagefault { kind, rw: ReadWrite::Read, addr }),
        Some(EventError::Misaligned { addr })
    );
    assert_eq!(
        error_of(Event::Remove { start: addr, end: addr + PAGE_SZ_4K }),
        Some(EventError::Misaligned { addr })
    );
}

#[test]
fn events_outside_the_region() {
    let before = BASE - PAGE_SZ_4K;
    let kind = FaultKind::Missing;
    assert_eq!(
        error_of(Event::Pagefault { kind, rw: ReadWrite::Read, addr: before }),
        Some(EventError::OutOfRegion { addr: before })
    );
    assert_eq!(
        error_of(Event::Remove { start: before, end: BASE }),
        Some(EventError::OutOfRegion { addr: before })
    );
    assert_eq!(
        error_of(fault(10, ReadWrite::Read)),
        Some(EventError::OutOfRegion { addr: at(10) })
    );
    assert_eq!(error_of(remove(10)), Some(EventError::OutOfRegion { addr: at(10) }));
}

#[test]
fn removal_of_more_or_less_than_a_page() {
    for end in [at(0), at(1), at(3), at(1) + 1] {
        assert_eq!(
            error_of(Event::Remove { start: at(1), end }),
            Some(EventError::NotOnePage { start: at(1), end })
        );
    }
}

#[test]
fn faults_of_other_kinds() {
    let rw = ReadWrite::Write;
    let addr = at(1);
    assert_eq!(
        error_of(Event::Pagefault { kind: FaultKind::WriteProtected, rw, addr }),
        Some(EventError::WriteProtectFault { addr })
    );
    assert_eq!(
        error_of(Event::Pagefault { kind: FaultKind::Minor, rw, addr }),
        Some(EventError::MinorFault { addr })
    );
}

#[test]
fn bad_removal_stops_everything() {
    let (handler, round) =
        serve(&[fault(0, ReadWrite::Read), remove(1), remove(10), remove(2)]);
    assert_eq!(
        round,
        Round {
            swept: 2,
            responses: vec![],
            error: Some(EventError::OutOfRegion { addr: at(10) }),
        }
    );
    assert_eq!(handler.pages[1], PageState::Removed);
    assert_eq!(handler.pages[2], PageState::Untouched);
}

#[test]
fn bad_fault_stops_what_follows() {
    let (handler, round) = serve(&[
        fault(0, ReadWrite::Read),
        fault(10, ReadWrite::Read),
        fault(1, ReadWrite::Read),
        remove(2),
    ]);
    assert_eq!(round.responses, vec![Response::CopyPage { addr: at(0), wp: true }]);
    assert_eq!(round.error, Some(EventError::OutOfRegion { addr: at(10) }));
    assert_eq!(round.swept, 4);
    assert_eq!(handler.pages[1], PageState::Untouched);
    assert_eq!(handler.pages[2], PageState::Removed);
}

#[test]
fn small_page_of_zeroes_takes_three_requests() {
    assert_eq!(
        handle_zeropage(&small(), at(1)),
        vec![
            UffdOp::Zeropage { start: at(1), len: 4096, wake: false },
            UffdOp::WriteProtect { start: at(1), len: 4096 },
            UffdOp::Wake { start: at(1), len: 4096 },
        ]
    );
}

#[test]
fn huge_page_of_zeroes_is_copied() {
    let op = UffdOp::Copy {
        source: PageSource::Zeroes,
        dst: BASE,
        len: 2097152,
        wake: true,
        wp: true,
    };
    assert_eq!(handle_zeropage(&huge(), BASE), vec![op]);
    assert_eq!(respond(&huge(), Response::ZeroPage { addr: BASE }), vec![op]);
}

#[test]
fn pattern_is_copied() {
    let op = |wp| UffdOp::Copy {
        source: PageSource::Pattern,
        dst: at(2),
        len: 4096,
        wake: true,
        wp,
    };
    assert_eq!(handle_copy(&small(), PageSource::Pattern, at(2), true), op(true));
    assert_eq!(respond(&small(), Response::CopyPage { addr: at(2), wp: false }), vec![op(false)]);
    assert_eq!(respond(&small(), Response::Skip), vec![]);
    assert_eq!(respond(&small(), Response::AlreadyFaulted), vec![]);
}

#[test]
fn source_pages() {
    assert_eq!(PageSource::Zeroes.page(4096), vec![0u8; 4096]);
    assert_eq!(PageSource::Pattern.page(2097152), vec![0x42u8; 2097152]);
}

#[test]
fn replies_to_copies() {
    assert_eq!(check_copy(CopyReply::Copied(4096)), Ok(()));
    assert_eq!(check_copy(CopyReply::CopyFailed(libc::EEXIST)), Ok(()));
    assert_eq!(check_copy(CopyReply::CopyFailed(17)), Ok(()));
    assert_eq!(check_copy(CopyReply::CopyFailed(libc::ENOENT)), Err(CopyError::Failed(2)));
    assert_eq!(check_copy(CopyReply::OtherError), Err(CopyError::Other));
    assert_eq!(
        check_copy(CopyReply::PartiallyCopied((-libc::EAGAIN) as usize)),
        Err(CopyError::PartialTryAgain)
    );
    assert_eq!(
        check_copy(CopyReply::PartiallyCopied(usize::MAX - 10)),
        Err(CopyError::PartialTryAgain)
    );
    assert_eq!(check_copy(CopyReply::PartiallyCopied(512)), Err(CopyError::Partial(512)));
}

#[test]
fn round_is_served_and_reported() {
    let mut service = Service::new(small());
    assert_eq!(service.action(), Action::Receive);
    service.received(Message::Continue);
    assert_eq!(service.action(), Action::ReadEvents);
    service.read(&[
        fault(0, ReadWrite::Read),
        fault(0, ReadWrite::Read),
        fault(0, ReadWrite::Write),
        remove(0),
        fault(1, ReadWrite::Read),
    ]);
    assert_eq!(
        service.action(),
        Action::Request(UffdOp::Zeropage { start: at(0), len: 4096, wake: false })
    );
    service.performed();
    assert_eq!(
        service.action(),
        Action::Request(UffdOp::WriteProtect { start: at(0), len: 4096 })
    );
    service.performed();
    assert_eq!(service.action(), Action::Request(UffdOp::Wake { start: at(0), len: 4096 }));
    service.performed();
    assert_eq!(
        service.action(),
        Action::Request(UffdOp::Copy {
            source: PageSource::Pattern,
            dst: at(1),
            len: 4096,
            wake: true,
            wp: true,
        })
    );
    service.copied(CopyReply::CopyFailed(libc::EEXIST));
    assert_eq!(service.action(), Action::Send(Message::Done));
    service.sent();
    assert_eq!(service.action(), Action::Receive);
    assert_eq!(service.handler.pages[0], PageState::Faulted);
    assert_eq!(service.handler.pages[1], PageState::Faulted);
    service.received(Message::Exit);
    assert_eq!(service.action(), Action::Return);
}

#[test]
fn round_without_events_is_reported() {
    let mut service = Service::new(small());
    service.received(Message::Continue);
    service.read(&[]);
    assert_eq!(service.action(), Action::Send(Message::Done));
}

#[test]
fn unexpected_message() {
    let mut service = Service::new(small());
    service.received(Message::Done);
    assert_eq!(service.action(), Action::Abort(Abort::UnexpectedMessage(Message::Done)));
}

#[test]
fn failed_round_is_not_reported() {
    let mut service = Service::new(huge());
    service.received(Message::Continue);
    let kind = FaultKind::Missing;
    let end = BASE + 10 * PAGE_SZ_2M;
    service.read(&[
        Event::Pagefault { kind, rw: ReadWrite::Write, addr: BASE },
        Event::Pagefault { kind, rw: ReadWrite::Write, addr: end },
    ]);
    assert_eq!(
        service.action(),
        Action::Request(UffdOp::Copy {
            source: PageSource::Pattern,
            dst: BASE,
            len: PAGE_SZ_2M,
            wake: true,
            wp: false,
        })
    );
    service.copied(CopyReply::Copied(PAGE_SZ_2M));
    assert_eq!(
        service.action(),
        Action::Abort(Abort::BadEvent(EventError::OutOfRegion { addr: end }))
    );
}

#[test]
fn failed_copy_ends_the_thread() {
    let mut service = Service::new(small());
    service.received(Message::Continue);
    service.read(&[fault(0, ReadWrite::Read)]);
    service.copied(CopyReply::PartiallyCopied(12));
    assert_eq!(service.phase, Phase::Aborted(Abort::BadCopy(CopyError::Partial(12))));
    assert_eq!(service.action(), Action::Abort(Abort::BadCopy(CopyError::Partial(12))));
}

#[test]
fn failed_action_ends_the_thread() {
    let mut service = Service::new(small());
    service.received(Message::Continue);
    service.failed();
    assert_eq!(service.action(), Action::Abort(Abort::ActionFailed));
}

#[test]
fn pattern_is_given_at_most_once() {
    let mut handler = FaultHandler::new(small());
    let queues = [
        vec![fault(6, ReadWrite::Read)],
        vec![fault(6, ReadWrite::Write)],
        vec![remove(6)],
        vec![fault(6, ReadWrite::Read)],
        vec![fault(6, ReadWrite::Read), remove(6)],
    ];
    let answers: Vec<Response> =
        queues.iter().map(|queue| handler.round(queue).responses[0]).collect();
    assert_eq!(
        answers,
        vec![
            Response::CopyPage { addr: at(6), wp: true },
            Response::AlreadyFaulted,
            Response::Skip,
            Response::ZeroPage { addr: at(6) },
            Response::ZeroPage { addr: at(6) },
        ]
    );
}

#[test]
fn new_service_has_nothing_to_report() {
    let service = Service::new(small());
    assert_eq!(service.round, Round { swept: 0, responses: vec![], error: None });
    assert_eq!(service.ops, vec![]);
    assert_eq!(service.made, 0);
}

#[test]
fn full_batch_is_served_in_one_round() {
    assert_eq!(MAX_EVENTS, 100);
    let mut service = Service::new(small());
    service.received(Message::Continue);
    service.read(&vec![fault(0, ReadWrite::Read); MAX_EVENTS]);
    assert_eq!(service.round.responses.len(), 100);
    assert_eq!(service.ops.len(), 1);
}

#[test]
fn removed_page_never_gets_the_pattern() {
    let mut handler = FaultHandler::new(small());
    handler.round(&[remove(4)]);
    handler.round(&[fault(5, ReadWrite::Read)]);
    let round = handler.round(&[fault(4, ReadWrite::Read)]);
    assert_eq!(round.responses, vec![Response::ZeroPage { addr: at(4) }]);
}

#[test]
fn page_is_filled_exactly_when_absent() {
    let mut handler = FaultHandler::new(small());
    let queues = [
        (vec![fault(1, ReadWrite::Read), fault(1, ReadWrite::Read)], 1),
        (vec![fault(1, ReadWrite::Write)], 0),
        (vec![remove(1)], 0),
        (vec![Event::Other], 0),
        (vec![fault(1, ReadWrite::Write), fault(1, ReadWrite::Write)], 1),
        (vec![fault(1, ReadWrite::Write), remove(1), fault(1, ReadWrite::Read)], 1),
        (vec![fault(1, ReadWrite::Read)], 0),
    ];
    for (queue, filled) in queues {
        let round = handler.round(&queue);
        let count = round
            .responses
            .iter()
            .filter(|r| matches!(r, Response::ZeroPage { .. } | Response::CopyPage { .. }))
            .count();
        assert_eq!(count, filled);
    }
}

#[test]
fn place_of_removals_does_not_matter() {
    let ops = |events: &[Event]| {
        let mut service = Service::new(small());
        service.received(Message::Continue);
        service.read(events);
        service.ops
    };
    let (a, b) = (fault(1, ReadWrite::Read), fault(2, ReadWrite::Write));
    let expected = ops(&[remove(2), a, b]);
    assert_eq!(expected.len(), 4);
    assert_eq!(ops(&[a, remove(2), b]), expected);
    assert_eq!(ops(&[a, b, remove(2), remove(2)]), expected);
}

/// Runs the handler on the messages in the channel until it comes to rest, with one fault in every
/// batch. Returns its reports and the number of batches that it read.
fn run(service: &mut Service, messages: &mut Vec<Message>) -> (Vec<Message>, usize) {
    let mut reports = vec![];
    let mut batches = 0;
    loop {
        match service.action() {
            Action::Receive if messages.is_empty() => return (reports, batches),
            Action::Receive => service.received(messages.remove(0)),
            Action::ReadEvents => {
                service.read(&[fault(batches, ReadWrite::Read)]);
                batches += 1;
            }
            Action::Request(UffdOp::Copy { len, .. }) => service.copied(CopyReply::Copied(len)),
            Action::Request(_) => service.performed(),
            Action::Send(message) => {
                reports.push(message);
                service.sent();
            }
            Action::Return => return (reports, batches),
            Action::Abort(abort) => panic!("{:?}", abort),
        }
    }
}

#[test]
fn each_thaw_serves_one_batch_and_allows_one_wait() {
    let main = UffdHandler {};
    let mut service = Service::new(small());
    let mut messages = vec![main.thaw(), main.thaw()];
    let (reports, batches) = run(&mut service, &mut messages);
    assert_eq!(batches, 2);
    assert_eq!(reports.len(), 2);
    assert!(reports.iter().all(|report| main.wait(*report)));
    assert_eq!(run(&mut service, &mut messages), (vec![], 0));
}

#[test]
fn stop_comes_after_every_earlier_thaw() {
    let main = UffdHandler {};
    let mut service = Service::new(small());
    let mut messages = vec![main.thaw(), main.thaw(), main.thaw(), main.stop()];
    let (reports, batches) = run(&mut service, &mut messages);
    assert_eq!(batches, 3);
    assert_eq!(reports, vec![Message::Done; 3]);
    assert_eq!(service.action(), Action::Return);
    assert!(messages.is_empty());
}

#[test]
fn texts_of_giving_up() {
    let text = |abort: Abort| abort.text();
    assert_eq!(
        text(Abort::BadCopy(CopyError::PartialTryAgain)),
        Some("Got a PartialCopy error with -EAGAIN".to_string())
    );
    assert_eq!(
        text(Abort::BadCopy(CopyError::Partial(512))),
        Some("Got a PartialCopy error. Total bytes copied: 512 bytes.".to_string())
    );
    for message in [Message::Done, Message::Continue, Message::Exit] {
        assert_eq!(
            text(Abort::UnexpectedMessage(message)),
            Some(format!("uffd handler: unexpected command: '{:?}'", message))
        );
    }
    let addr = at(0);
    assert_eq!(
        text(Abort::BadEvent(EventError::WriteProtectFault { addr })),
        Some(
            "internal error: entered unreachable code: \
             We don't handle WriteProtect faults currently"
                .to_string()
        )
    );
    assert_eq!(
        text(Abort::BadEvent(EventError::MinorFault { addr })),
        Some("Unexpected MINOR fault".to_string())
    );
    assert_eq!(text(Abort::BadEvent(EventError::OutOfRegion { addr })), None);
    assert_eq!(text(Abort::BadCopy(CopyError::Failed(2))), None);
    assert_eq!(text(Abort::BadCopy(CopyError::Other)), None);
    assert_eq!(text(Abort::ActionFailed), None);
}

#[test]
fn page_is_filled_with_zeroes_exactly_after_removal() {
    let mut handler = FaultHandler::new(small());
    let mut first = |queue: &[Event]| handler.round(queue).responses[0];
    assert_eq!(first(&[remove(7)]), Response::Skip);
    assert_eq!(first(&[Event::Other]), Response::Skip);
    assert_eq!(first(&[fault(7, ReadWrite::Read)]), Response::ZeroPage { addr: at(7) });
    assert_eq!(first(&[fault(8, ReadWrite::Read), remove(8)]), Response::ZeroPage { addr: at(8) });
    assert_eq!(
        first(&[fault(9, ReadWrite::Write), remove(8)]),
        Response::CopyPage { addr: at(9), wp: false }
    );
}
