//! What the operations come to, told in addresses, bytes and bits alone.
//!
//! The statements here speak of the fields of a region and of an event, and of plain arithmetic on
//! them, so that each can be held against what the system does without any other definition.
use vstd::prelude::*;
use crate::builder::{Build, BuildCall, Stage};
use crate::fault::{Event, EventError, FaultKind, Response, Round};
use crate::ioctl::{CopyError, CopyReply, PageSource, UffdOp};
use crate::mmap::{Mmap, PageState};
use crate::pagemap::{PageInfo, PagemapEntry};
use crate::service::{Abort, Action, Phase, Service};
use crate::uffd::{Message, Setup, SetupStep, UffdManager};

verus! {

// The region.

/// The address lies among the bytes of the page.
pub open spec fn on_page(mmap: Mmap, addr: int, page: int) -> bool {
    mmap.addr + page * mmap.page_size <= addr < mmap.addr + page * mmap.page_size + mmap.page_size
}

/// All bytes of the page are bytes of the region.
pub open spec fn in_region(mmap: Mmap, page: int) -> bool {
    0 <= page && page * mmap.page_size + mmap.page_size <= mmap.len
}

/// A region is well-formed exactly if its pages have a size and its end is an address.
pub proof fn region_is_well_formed(mmap: Mmap)
    ensures
        mmap.wf() <==> 0 < mmap.page_size && mmap.addr + mmap.len <= usize::MAX,
{
}

/// The pages of a region are those whose bytes all lie in it; the first starts where the region
/// starts, each next one a page further on; and an address belongs to the page among whose bytes it
/// lies.
pub proof fn pages_in_numbers(mmap: Mmap, page: int, addr: int)
    requires
        0 < mmap.page_size,
    ensures
        0 <= page < mmap.nr_pages() <==> in_region(mmap, page),
        mmap.page_offset(page) == page * mmap.page_size,
        mmap.page_addr(page) == mmap.addr + page * mmap.page_size,
        mmap.page_of(addr) == page <==> on_page(mmap, addr, page),
        mmap.addr <= addr ==> 0 <= mmap.page_of(addr),
{
    let size = mmap.page_size as int;
    let len = mmap.len as int;
    assert(page < len / size <==> page * size + size <= len) by (nonlinear_arith)
        requires
            0 < size,
    ;
    let offset = addr - mmap.addr;
    assert(offset / size == page <==> page * size <= offset < page * size + size)
        by (nonlinear_arith)
        requires
            0 < size,
    ;
    if mmap.addr <= addr {
        vstd::arithmetic::div_mod::lemma_div_pos_is_pos(offset, size);
    }
}

/// The bytes of a page are those of the region from the start of the page on, as many as a page
/// has; and writing a page replaces those bytes and no others.
pub proof fn page_bytes_in_numbers(mmap: Mmap, memory: Seq<u8>, page: int, data: Seq<u8>, x: int)
    requires
        memory.len() == mmap.len,
        in_region(mmap, page),
        0 < mmap.page_size,
        data.len() == mmap.page_size,
    ensures
        mmap.page_bytes(memory, page).len() == mmap.page_size,
        0 <= x < mmap.page_size ==> mmap.page_bytes(memory, page)[x] == memory[page
            * mmap.page_size + x],
        mmap.with_page(memory, page, data).len() == memory.len(),
        0 <= x < memory.len() ==> mmap.with_page(memory, page, data)[x] == if page * mmap.page_size
            <= x < page * mmap.page_size + mmap.page_size {
            data[x - page * mmap.page_size]
        } else {
            memory[x]
        },
{
    let start = page * mmap.page_size;
    assert(0 <= start) by (nonlinear_arith)
        requires
            0 <= page,
            start == page * mmap.page_size,
    ;
}

// Events.

/// The event is a removal whose start lies on the page.
pub open spec fn removal_on(mmap: Mmap, event: Event, page: int) -> bool {
    event matches Event::Remove { start, .. } && on_page(mmap, start as int, page)
}

/// The event is a fault at an address on the page.
pub open spec fn fault_on(mmap: Mmap, event: Event, page: int) -> bool {
    event matches Event::Pagefault { addr, .. } && on_page(mmap, addr as int, page)
}

/// One of the first `upto` events is a removal of the page.
pub open spec fn removal_among(mmap: Mmap, events: Seq<Event>, upto: int, page: int) -> bool {
    exists|j: int| 0 <= j < upto && removal_on(mmap, #[trigger] events[j], page)
}

/// One of the first `upto` events is a fault on the page.
pub open spec fn fault_among(mmap: Mmap, events: Seq<Event>, upto: int, page: int) -> bool {
    exists|j: int| 0 <= j < upto && fault_on(mmap, #[trigger] events[j], page)
}

/// The address is aligned and lies on a page of the region.
pub open spec fn on_some_page(mmap: Mmap, addr: int) -> bool {
    addr % mmap.page_size as int == 0 && exists|page: int|
        in_region(mmap, page) && #[trigger] on_page(mmap, addr, page)
}

/// The event can be served: a removal is of as many bytes as a page has, a fault is on a missing
/// page, and either is at an aligned address on a page of the region.
pub open spec fn well_formed(mmap: Mmap, event: Event) -> bool {
    match event {
        Event::Remove { start, end } => end == start + mmap.page_size && on_some_page(
            mmap,
            start as int,
        ),
        Event::Pagefault { kind, rw: _, addr } => kind == FaultKind::Missing && on_some_page(
            mmap,
            addr as int,
        ),
        Event::Other => true,
    }
}

/// An address that does not lie before the region lies on a page of it exactly if the number of its
/// page is below the number of pages.
proof fn on_some_page_by_number(mmap: Mmap, addr: int)
    requires
        0 < mmap.page_size,
        addr % mmap.page_size as int == 0,
    ensures
        on_some_page(mmap, addr) <==> mmap.addr <= addr && mmap.page_of(addr) < mmap.nr_pages(),
{
    let page = mmap.page_of(addr);
    pages_in_numbers(mmap, page, addr);
    if on_some_page(mmap, addr) {
        let p = choose|p: int| in_region(mmap, p) && #[trigger] on_page(mmap, addr, p);
        pages_in_numbers(mmap, p, addr);
        assert(0 <= p * mmap.page_size) by (nonlinear_arith)
            requires
                0 <= p,
                0 < mmap.page_size,
        ;
    }
    if mmap.addr <= addr && page < mmap.nr_pages() {
        assert(in_region(mmap, page) && on_page(mmap, addr, page));
    }
}

/// A removal can be noted exactly if it is of one whole page of the region, whatever the size of a
/// page. What is wrong with it is told by its own addresses: that its start is not aligned, else
/// that it lies before the region, else that it is not as long as a page, else that it lies past
/// the last page.
pub proof fn removal_can_be_noted(mmap: Mmap, start: usize, end: usize)
    requires
        mmap.wf(),
    ensures
        ({
            let error = crate::fault::remove_error(mmap, Event::Remove { start, end });
            let aligned = start as int % mmap.page_size as int == 0;
            let one_page = end == start + mmap.page_size;
            &&& error is None <==> well_formed(mmap, Event::Remove { start, end })
            &&& error == Some(EventError::Misaligned { addr: start }) <==> !aligned
            &&& error == Some(EventError::NotOnePage { start, end }) <==> aligned && mmap.addr
                <= start && !one_page
            &&& error == Some(EventError::OutOfRegion { addr: start }) <==> aligned && (start
                < mmap.addr || (one_page && !on_some_page(mmap, start as int)))
        }),
{
    if start as int % mmap.page_size as int == 0 {
        on_some_page_by_number(mmap, start as int);
    }
}

/// A fault can be answered exactly if it is on a missing page and at an aligned address on a page
/// of the region, whatever the size of a page. What is wrong with it is told by its own address:
/// that it is not aligned, else that it lies before the region, else the kind of the fault, else
/// that it lies past the last page.
pub proof fn fault_can_be_answered(
    mmap: Mmap,
    kind: FaultKind,
    rw: crate::fault::ReadWrite,
    addr: usize,
)
    requires
        mmap.wf(),
    ensures
        ({
            let event = Event::Pagefault { kind, rw, addr };
            let error = crate::fault::fault_error(mmap, event);
            let aligned = addr as int % mmap.page_size as int == 0;
            &&& error is None <==> well_formed(mmap, event)
            &&& error == Some(EventError::Misaligned { addr }) <==> !aligned
            &&& error == Some(EventError::WriteProtectFault { addr }) <==> aligned && mmap.addr
                <= addr && kind == FaultKind::WriteProtected
            &&& error == Some(EventError::MinorFault { addr }) <==> aligned && mmap.addr <= addr
                && kind == FaultKind::Minor
            &&& error == Some(EventError::OutOfRegion { addr }) <==> aligned && (addr < mmap.addr
                || (kind == FaultKind::Missing && !on_some_page(mmap, addr as int)))
        }),
{
    if addr as int % mmap.page_size as int == 0 {
        on_some_page_by_number(mmap, addr as int);
    }
}

/// A fault is no removal, a removal no fault, and other events are neither: the one is never at
/// fault for what is wrong with the other.
pub proof fn events_are_judged_once(mmap: Mmap, event: Event)
    requires
        mmap.wf(),
    ensures
        event !is Remove ==> crate::fault::remove_error(mmap, event) is None,
        event !is Pagefault ==> crate::fault::fault_error(mmap, event) is None,
        well_formed(mmap, event) <==> crate::fault::remove_error(mmap, event) is None
            && crate::fault::fault_error(mmap, event) is None,
{
    match event {
        Event::Remove { start, end } => removal_can_be_noted(mmap, start, end),
        Event::Pagefault { kind, rw, addr } => fault_can_be_answered(mmap, kind, rw, addr),
        Event::Other => {},
    }
}

/// In an aligned region, the removal of a page and a fault on a missing page can be served, for
/// every page and every size of a page.
pub proof fn events_on_pages_are_served(mmap: Mmap, page: int, rw: crate::fault::ReadWrite)
    requires
        mmap.wf(),
        mmap.addr as int % mmap.page_size as int == 0,
        in_region(mmap, page),
    ensures
        ({
            let start = (mmap.addr + page * mmap.page_size) as usize;
            let end = (mmap.addr + page * mmap.page_size + mmap.page_size) as usize;
            &&& start == mmap.addr + page * mmap.page_size
            &&& end == start + mmap.page_size
            &&& crate::fault::remove_error(mmap, Event::Remove { start, end }) is None
            &&& crate::fault::fault_error(
                mmap,
                Event::Pagefault { kind: FaultKind::Missing, rw, addr: start },
            ) is None
        }),
{
    let size = mmap.page_size as int;
    assert(0 <= page * size) by (nonlinear_arith)
        requires
            0 <= page,
            0 < size,
    ;
    let start = mmap.addr + page * size;
    vstd::arithmetic::div_mod::lemma_mod_multiples_vanish(page, mmap.addr as int, size);
    assert(size * page == page * size) by (nonlinear_arith);
    assert(on_page(mmap, start, page));
    assert(on_some_page(mmap, start));
    removal_can_be_noted(mmap, start as usize, (start + size) as usize);
    fault_can_be_answered(mmap, FaultKind::Missing, rw, start as usize);
}

/// A queue can be served whole exactly if each of its events can be served.
pub proof fn queue_of_served_events_is_serviceable(mmap: Mmap, events: Seq<Event>)
    requires
        mmap.wf(),
    ensures
        crate::laws::serviceable(mmap, events) <==> forall|j: int|
            0 <= j < events.len() ==> well_formed(mmap, #[trigger] events[j]),
{
    assert forall|j: int| 0 <= j < events.len() implies (well_formed(mmap, #[trigger] events[j])
        <==> crate::fault::remove_error(mmap, events[j]) is None && crate::fault::fault_error(
        mmap,
        events[j],
    ) is None) by {
        events_are_judged_once(mmap, events[j]);
    }
}

// Answers.

/// An event removes, or is a fault on, the page among whose bytes its address lies.
pub proof fn events_in_numbers(mmap: Mmap, event: Event, page: int)
    requires
        0 < mmap.page_size,
    ensures
        crate::fault::removes(mmap, event, page) <==> removal_on(mmap, event, page),
        crate::fault::faults(mmap, event, page) <==> fault_on(mmap, event, page),
        event is Pagefault ==> (crate::fault::fault_page(mmap, event) == page <==> fault_on(
            mmap,
            event,
            page,
        )),
{
    match event {
        Event::Remove { start, .. } => pages_in_numbers(mmap, page, start as int),
        Event::Pagefault { addr, .. } => pages_in_numbers(mmap, page, addr as int),
        Event::Other => {},
    }
}

/// What happens to a page in the beginning of a queue.
proof fn queue_in_numbers(mmap: Mmap, events: Seq<Event>, upto: int, page: int)
    requires
        0 < mmap.page_size,
    ensures
        crate::fault::removed_within(mmap, events, upto, page) <==> removal_among(
            mmap,
            events,
            upto,
            page,
        ),
        crate::fault::faulted_within(mmap, events, upto, page) <==> fault_among(
            mmap,
            events,
            upto,
            page,
        ),
{
    assert forall|j: int| 0 <= j < upto implies (crate::fault::removes(
        mmap,
        #[trigger] events[j],
        page,
    ) <==> removal_on(mmap, events[j], page)) && (crate::fault::faults(mmap, events[j], page)
        <==> fault_on(mmap, events[j], page)) by {
        events_in_numbers(mmap, events[j], page);
    }
}

/// The state of a page after the removals among the first `swept` events, and then the faults among
/// the first `answered` events: a fault on it leaves it faulted; without one, a removal leaves it
/// removed; without either, it keeps its state. No page is added or lost.
pub proof fn states_in_numbers(
    mmap: Mmap,
    pages: Seq<PageState>,
    events: Seq<Event>,
    swept: int,
    answered: int,
    page: int,
)
    requires
        0 < mmap.page_size,
        0 <= page < pages.len(),
    ensures
        ({
            let after = crate::fault::pages_after(mmap, pages, events, swept, answered);
            let faulted = fault_among(mmap, events, answered, page);
            let removed = removal_among(mmap, events, swept, page);
            &&& after.len() == pages.len()
            &&& faulted ==> after[page] == PageState::Faulted
            &&& !faulted && removed ==> after[page] == PageState::Removed
            &&& !faulted && !removed ==> after[page] == pages[page]
        }),
{
    queue_in_numbers(mmap, events, swept, page);
    queue_in_numbers(mmap, events, answered, page);
}

/// The answer to the event at `k` of a queue. An event that is no fault is skipped. Of the faults on
/// a page, the first alone can have it provided, at its own address: with zeroes if the page is
/// removed anywhere in the queue or was before, with the pattern, protected if the access was a
/// read, if nothing has happened to it, and not at all if it was provided before.
pub proof fn answers_in_numbers(
    mmap: Mmap,
    pages: Seq<PageState>,
    events: Seq<Event>,
    k: int,
    page: int,
)
    requires
        0 < mmap.page_size,
        0 <= k < events.len(),
    ensures
        ({
            let answer = crate::fault::answer(mmap, pages, events, k);
            let earlier = fault_among(mmap, events, k, page);
            let removed = removal_among(mmap, events, events.len() as int, page);
            &&& events[k] !is Pagefault ==> answer == Response::Skip
            &&& fault_on(mmap, events[k], page) ==> {
                let addr = events[k]->addr;
                let zeroes = removed || pages[page] == PageState::Removed;
                let present = !removed && pages[page] == PageState::Faulted;
                &&& earlier || present ==> answer == Response::AlreadyFaulted
                &&& !earlier && zeroes ==> answer == (Response::ZeroPage { addr })
                &&& !earlier && !zeroes && !present ==> answer == (Response::CopyPage {
                    addr,
                    wp: events[k]->rw == crate::fault::ReadWrite::Read,
                })
            }
        }),
{
    queue_in_numbers(mmap, events, k, page);
    queue_in_numbers(mmap, events, events.len() as int, page);
    events_in_numbers(mmap, events[k], page);
}

/// The event is a removal that cannot be noted.
pub open spec fn bad_removal(mmap: Mmap, event: Event) -> bool {
    event is Remove && !well_formed(mmap, event)
}

/// The event is a fault that cannot be answered.
pub open spec fn bad_fault(mmap: Mmap, event: Event) -> bool {
    event is Pagefault && !well_formed(mmap, event)
}

/// How a round goes. If a removal in the queue is bad, the round gets as far as the first such one,
/// tells what is wrong with it, and answers nothing. Else it gets past all removals, answers the
/// events in order up to the first bad fault, and tells what is wrong with that one; without a bad
/// fault it answers every event, and there is no error.
pub proof fn rounds_in_numbers(
    mmap: Mmap,
    pages: Seq<PageState>,
    events: Seq<Event>,
    round: Round,
    k: int,
)
    requires
        mmap.wf(),
        crate::fault::is_round(mmap, pages, events, round),
    ensures
        ({
            let swept = round.swept as int;
            let answered = round.responses@.len() as int;
            let n = events.len() as int;
            &&& swept <= n && answered <= n
            &&& 0 <= k < swept ==> !bad_removal(mmap, events[k])
            &&& k == swept < n ==> {
                &&& bad_removal(mmap, events[k])
                &&& answered == 0
                &&& round.error is Some
                &&& round.error == crate::fault::remove_error(mmap, events[k])
            }
            &&& 0 <= k < answered ==> {
                &&& swept == n
                &&& !bad_fault(mmap, events[k])
                &&& round.responses@[k] == crate::fault::answer(mmap, pages, events, k)
            }
            &&& swept == n && k == answered < n ==> {
                &&& bad_fault(mmap, events[k])
                &&& round.error is Some
                &&& round.error == crate::fault::fault_error(mmap, events[k])
            }
            &&& round.error is None <==> swept == n && answered == n
        }),
{
    if 0 <= k < events.len() {
        events_are_judged_once(mmap, events[k]);
    }
}

// Requests.

/// The address that a request is for.
pub open spec fn op_start(op: UffdOp) -> usize {
    match op {
        UffdOp::Zeropage { start, .. } => start,
        UffdOp::WriteProtect { start, .. } => start,
        UffdOp::Wake { start, .. } => start,
        UffdOp::Copy { dst, .. } => dst,
    }
}

/// The number of bytes that a request is for.
pub open spec fn op_len(op: UffdOp) -> usize {
    match op {
        UffdOp::Zeropage { len, .. } => len,
        UffdOp::WriteProtect { len, .. } => len,
        UffdOp::Wake { len, .. } => len,
        UffdOp::Copy { len, .. } => len,
    }
}

/// Every request of a response is for exactly the page that the response provides: it starts at the
/// response's own address and is as long as a page of the region. The first one provides the page,
/// and no other does. The last one, and no other, wakes whoever waits for the page. The page is
/// protected, before or by the last request, if it is one of zeroes or the response says so, and
/// else not at all.
pub proof fn requests_are_for_the_page(mmap: Mmap, response: Response, k: int)
    ensures
        ({
            let ops = crate::ioctl::response_ops(mmap, response);
            match response {
                Response::Skip | Response::AlreadyFaulted => ops.len() == 0,
                Response::ZeroPage { addr } => {
                    &&& ops.len() == if mmap.page_size == 4096 {
                        3int
                    } else {
                        1int
                    }
                    &&& 0 <= k < ops.len() ==> {
                        &&& op_start(ops[k]) == addr
                        &&& op_len(ops[k]) == mmap.page_size
                        &&& (ops[k] is Zeropage || ops[k] is Copy) <==> k == 0
                        &&& ops[k] is Copy ==> ops[k]->source == PageSource::Zeroes
                        &&& ops[k] is Copy ==> mmap.page_size != 4096
                        &&& ops[k] is Zeropage ==> mmap.page_size == 4096
                        &&& (ops[k] is Wake || (ops[k] is Copy && ops[k]->Copy_wake) || (
                        ops[k] is Zeropage && ops[k]->Zeropage_wake)) <==> k == ops.len() - 1
                    }
                    &&& (ops[0] is Copy && ops[0]->wp) || ops[1] is WriteProtect
                },
                Response::CopyPage { addr, wp } => {
                    &&& ops.len() == 1
                    &&& ops[0] is Copy
                    &&& ops[0]->source == PageSource::Pattern
                    &&& ops[0]->dst == addr
                    &&& op_len(ops[0]) == mmap.page_size
                    &&& ops[0]->Copy_wake
                    &&& ops[0]->wp == wp
                },
            }
        }),
{
}

/// A copy, asked for on its own, is of one whole page, from the source and to the address that were
/// named, protected if that was asked for; a page of zeroes, asked for on its own, takes the requests
/// of the response that provides one.
pub proof fn requests_on_their_own(mmap: Mmap, source: PageSource, addr: usize, wp: bool)
    ensures
        ({
            let op = crate::ioctl::copy_op(mmap, source, addr, wp);
            &&& op is Copy
            &&& op->source == source
            &&& op->dst == addr
            &&& op_len(op) == mmap.page_size
            &&& op->Copy_wake
            &&& op->wp == wp
        }),
        crate::ioctl::zeropage_ops(mmap, addr) == crate::ioctl::response_ops(
            mmap,
            Response::ZeroPage { addr },
        ),
{
}

/// The bytes that a source page holds: zeroes, or 0x42.
pub proof fn source_bytes(source: PageSource)
    ensures
        crate::ioctl::source_byte(source) == 0 <==> source == PageSource::Zeroes,
        crate::ioctl::source_byte(source) == 0x42 <==> source == PageSource::Pattern,
{
}

/// The bytes of the region once a request has gone through: those from its address on, as many as
/// it is for, are replaced if it provides a page, and no others.
pub open spec fn overwritten(mmap: Mmap, memory: Seq<u8>, op: UffdOp) -> Seq<u8> {
    let first = op_start(op) - mmap.addr;
    Seq::new(
        memory.len(),
        |x: int|
            if first <= x < first + op_len(op) {
                match op {
                    UffdOp::Zeropage { .. } => 0u8,
                    UffdOp::Copy { source, .. } => crate::ioctl::source_byte(source),
                    _ => memory[x],
                }
            } else {
                memory[x]
            },
    )
}

/// The bytes of the region once requests have gone through in order.
pub open spec fn overwritten_all(mmap: Mmap, memory: Seq<u8>, ops: Seq<UffdOp>) -> Seq<u8>
    decreases ops.len(),
{
    if ops.len() == 0 {
        memory
    } else {
        overwritten(mmap, overwritten_all(mmap, memory, ops.drop_last()), ops.last())
    }
}

/// The requests of a response fill, byte for byte, the page that starts at its address, with 0x42 if
/// it copies the pattern and with zeroes if it does not, and change no byte besides.
pub proof fn requests_fill_the_page(mmap: Mmap, memory: Seq<u8>, response: Response, x: int)
    requires
        0 <= x < memory.len(),
    ensures
        ({
            let ops = crate::ioctl::response_ops(mmap, response);
            let after = overwritten_all(mmap, memory, ops);
            &&& after.len() == memory.len()
            &&& match response {
                Response::Skip | Response::AlreadyFaulted => after[x] == memory[x],
                Response::ZeroPage { addr } => after[x] == if addr - mmap.addr <= x < addr
                    - mmap.addr + mmap.page_size {
                    0u8
                } else {
                    memory[x]
                },
                Response::CopyPage { addr, .. } => after[x] == if addr - mmap.addr <= x < addr
                    - mmap.addr + mmap.page_size {
                    0x42u8
                } else {
                    memory[x]
                },
            }
        }),
{
    let ops = crate::ioctl::response_ops(mmap, response);
    reveal_with_fuel(overwritten_all, 4);
    if ops.len() == 3 {
        assert(ops.drop_last().drop_last() =~= seq![ops[0]]);
        assert(ops.drop_last().last() == ops[1]);
        assert(seq![ops[0]].drop_last() =~= Seq::<UffdOp>::empty());
    } else if ops.len() == 1 {
        assert(ops.drop_last() =~= Seq::<UffdOp>::empty());
    }
}

/// The requests of several responses are those of the one, then those of the others; none are added
/// or left out.
pub proof fn requests_follow_each_other(mmap: Mmap, first: Seq<Response>, second: Seq<Response>)
    ensures
        crate::service::round_ops(mmap, Seq::<Response>::empty()) == Seq::<UffdOp>::empty(),
        first.len() == 1 ==> crate::service::round_ops(mmap, first) == crate::ioctl::response_ops(
            mmap,
            first[0],
        ),
        crate::service::round_ops(mmap, first + second) == crate::service::round_ops(mmap, first)
            + crate::service::round_ops(mmap, second),
    decreases second.len(),
{
    if first.len() == 1 {
        reveal_with_fuel(crate::service::round_ops, 2);
        assert(first.drop_last() =~= Seq::<Response>::empty());
        assert(crate::service::round_ops(mmap, first) =~= crate::ioctl::response_ops(
            mmap,
            first[0],
        ));
    }
    if second.len() == 0 {
        assert(first + second =~= first);
        assert(crate::service::round_ops(mmap, first) + Seq::<UffdOp>::empty()
            =~= crate::service::round_ops(mmap, first));
    } else {
        requests_follow_each_other(mmap, first, second.drop_last());
        assert((first + second).drop_last() =~= first + second.drop_last());
        assert((first + second).last() == second.last());
        assert(crate::service::round_ops(mmap, first + second) =~= crate::service::round_ops(
            mmap,
            first,
        ) + crate::service::round_ops(mmap, second));
    }
}

/// A reply to a copy is accepted exactly if something was copied or the page was there already (17
/// is EEXIST). A refusal carries the count or the error code of the reply; a count that is a negated
/// 11, which is EAGAIN, stands for nothing copied.
pub proof fn copy_replies_in_numbers(reply: CopyReply)
    ensures
        ({
            let verdict = crate::ioctl::copy_verdict(reply);
            &&& verdict is Ok <==> reply is Copied || reply == CopyReply::CopyFailed(17)
            &&& verdict matches Err(CopyError::Partial(bytes)) ==> reply
                == CopyReply::PartiallyCopied(bytes) && bytes + 11 != usize::MAX + 1
            &&& verdict matches Err(CopyError::PartialTryAgain) ==> (reply matches
                CopyReply::PartiallyCopied(bytes) && bytes + 11 == usize::MAX + 1)
            &&& verdict matches Err(CopyError::Failed(errno)) ==> reply == CopyReply::CopyFailed(
                errno,
            ) && errno != 17
            &&& verdict == Err::<(), CopyError>(CopyError::Other) <==> reply is OtherError
        }),
{
}

// The handler thread.

/// What the thread does in each phase.
pub proof fn actions_in_order(service: Service)
    ensures
        ({
            let action = crate::service::action_of(service);
            let left = service.ops@.len() - service.made;
            match service.phase {
                Phase::Frozen => action == Action::Receive,
                Phase::Thawed => action == Action::ReadEvents,
                Phase::Serving => {
                    &&& left > 0 ==> action == Action::Request(service.ops@[service.made as int])
                    &&& left <= 0 && service.round.error is None ==> action == Action::Send(
                        Message::Done,
                    )
                    &&& left <= 0 && service.round.error is Some ==> action == Action::Abort(
                        Abort::BadEvent(service.round.error->Some_0),
                    )
                },
                Phase::Ended => action == Action::Return,
                Phase::Aborted(abort) => action == Action::Abort(abort),
            }
        }),
{
}

/// What changes when an action has been performed, and what does not: a message, a report, a failure
/// and a refused copy change the phase alone; a request that has gone through changes the count
/// alone, by one.
pub proof fn replies_change_one_thing(service: Service, message: Message, reply: CopyReply)
    requires
        service.made < usize::MAX,
    ensures
        ({
            let received = crate::service::after_received(service, message);
            let performed = crate::service::after_performed(service);
            let copied = crate::service::after_copied(service, reply);
            let failed = crate::service::after_failed(service);
            let sent = crate::service::after_sent(service);
            &&& received == (Service { phase: received.phase, ..service })
            &&& received.phase == match message {
                Message::Continue => Phase::Thawed,
                Message::Exit => Phase::Ended,
                Message::Done => Phase::Aborted(Abort::UnexpectedMessage(Message::Done)),
            }
            &&& performed == (Service { made: performed.made, ..service })
            &&& performed.made == service.made + 1
            &&& reply is Copied || reply == CopyReply::CopyFailed(17) ==> copied == performed
            &&& !(reply is Copied || reply == CopyReply::CopyFailed(17)) ==> copied == (Service {
                phase: copied.phase,
                ..service
            }) && copied.phase is Aborted && copied.phase->Aborted_0 is BadCopy
            &&& failed == (Service { phase: Phase::Aborted(Abort::ActionFailed), ..service })
            &&& sent == (Service { phase: Phase::Frozen, ..service })
        }),
{
    copy_replies_in_numbers(reply);
}

/// What reading a queue of at most 100 events comes to: a round on all of them, from the states that
/// the pages had, which leaves them in the states that the removals and the answers call for; the
/// requests to make are those of its answers, and none has been made yet. If each event can be
/// served, each is answered, and there is no error.
pub proof fn reading_serves_the_queue(before: Service, after: Service, events: Seq<Event>)
    requires
        before.wf(),
        crate::service::is_read(before, after, events),
    ensures
        ({
            let mmap = before.handler.mmap;
            let pages = before.handler.pages@;
            let round = after.round;
            &&& events.len() <= 100
            &&& after.phase == Phase::Serving
            &&& after.made == 0
            &&& after.handler.mmap == mmap
            &&& crate::fault::is_round(mmap, pages, events, round)
            &&& after.handler.pages@ == crate::fault::pages_after(
                mmap,
                pages,
                events,
                round.swept as int,
                round.responses@.len() as int,
            )
            &&& after.ops@ == crate::service::round_ops(mmap, round.responses@)
            &&& (forall|j: int| 0 <= j < events.len() ==> well_formed(mmap, #[trigger] events[j]))
                ==> round.error is None && round.swept == events.len() && round.responses@.len()
                == events.len()
        }),
{
    let mmap = before.handler.mmap;
    let round = after.round;
    if forall|j: int| 0 <= j < events.len() ==> well_formed(mmap, #[trigger] events[j]) {
        rounds_in_numbers(mmap, before.handler.pages@, events, round, round.swept as int);
        rounds_in_numbers(
            mmap,
            before.handler.pages@,
            events,
            round,
            round.responses@.len() as int,
        );
    }
}

/// Any queue of at most 100 events can be read.
pub proof fn reading_is_limited_to_a_hundred(before: Service, after: Service, events: Seq<Event>)
    requires
        after.phase == Phase::Serving,
        after.made == 0,
        after.handler.mmap == before.handler.mmap,
        crate::fault::is_round(before.handler.mmap, before.handler.pages@, events, after.round),
        after.handler.pages@ == crate::fault::pages_after(
            before.handler.mmap,
            before.handler.pages@,
            events,
            after.round.swept as int,
            after.round.responses@.len() as int,
        ),
        after.ops@ == crate::service::round_ops(before.handler.mmap, after.round.responses@),
    ensures
        crate::service::is_read(before, after, events) <==> events.len() <= 100,
{
}

/// A handler is well-formed exactly if it holds a state for each page whose bytes lie in a
/// well-formed region; the thread is, if moreover no more requests were made than there are.
pub proof fn handler_is_well_formed(service: Service, page: int)
    ensures
        service.wf() <==> service.handler.wf() && service.made <= service.ops@.len(),
        service.handler.wf() ==> 0 < service.handler.mmap.page_size && (in_region(
            service.handler.mmap,
            page,
        ) <==> 0 <= page < service.handler.pages@.len()),
        service.handler.mmap.wf() && service.handler.pages@.len() == service.handler.mmap.len as int
            / service.handler.mmap.page_size as int ==> service.handler.wf(),
{
    if service.handler.mmap.wf() {
        pages_in_numbers(service.handler.mmap, page, 0);
    }
}

/// A message lets the thread serve or return, or is not one for it to get.
pub proof fn messages_in_words(message: Message)
    ensures
        crate::uffd::command_of(message) == Some(crate::uffd::Command::Serve) <==> message
            == Message::Continue,
        crate::uffd::command_of(message) == Some(crate::uffd::Command::Return) <==> message
            == Message::Exit,
        crate::uffd::command_of(message) is None <==> message == Message::Done,
        message == Message::Continue ==> crate::uffd::message_name(message) == "Continue"@,
        message == Message::Done ==> crate::uffd::message_name(message) == "Done"@,
        message == Message::Exit ==> crate::uffd::message_name(message) == "Exit"@,
{
}

/// What the thread says when it gives up, where that is the same on every system.
pub proof fn texts_of_giving_up(abort: Abort)
    ensures
        ({
            let text = crate::service::abort_text(abort);
            match abort {
                Abort::UnexpectedMessage(Message::Continue) => text == Some(
                    "uffd handler: unexpected command: 'Continue'"@,
                ),
                Abort::UnexpectedMessage(Message::Done) => text == Some(
                    "uffd handler: unexpected command: 'Done'"@,
                ),
                Abort::UnexpectedMessage(Message::Exit) => text == Some(
                    "uffd handler: unexpected command: 'Exit'"@,
                ),
                Abort::BadCopy(CopyError::PartialTryAgain) => text == Some(
                    "Got a PartialCopy error with -EAGAIN"@,
                ),
                Abort::BadCopy(CopyError::Partial(bytes)) => text == Some(
                    "Got a PartialCopy error. Total bytes copied: "@ + crate::text::decimal(
                        bytes as nat,
                    ) + " bytes."@,
                ),
                Abort::BadEvent(EventError::MinorFault { .. }) => text == Some(
                    "Unexpected MINOR fault"@,
                ),
                Abort::BadEvent(EventError::WriteProtectFault { .. }) => text == Some(
                    "internal error: entered unreachable code: We don't handle WriteProtect faults currently"@,
                ),
                _ => text is None,
            }
        }),
        abort matches Abort::BadCopy(error) ==> crate::ioctl::copy_error_text(error)
            == crate::service::abort_text(abort),
{
    reveal_strlit("uffd handler: unexpected command: '");
    reveal_strlit("'");
    reveal_strlit("Done");
    reveal_strlit("Continue");
    reveal_strlit("Exit");
    reveal_strlit("uffd handler: unexpected command: 'Done'");
    reveal_strlit("uffd handler: unexpected command: 'Continue'");
    reveal_strlit("uffd handler: unexpected command: 'Exit'");
    let said = "uffd handler: unexpected command: '"@;
    assert(said + "Done"@ + "'"@ =~= "uffd handler: unexpected command: 'Done'"@);
    assert(said + "Continue"@ + "'"@ =~= "uffd handler: unexpected command: 'Continue'"@);
    assert(said + "Exit"@ + "'"@ =~= "uffd handler: unexpected command: 'Exit'"@);
}

// Setting up.

/// A setup creates the object first, with the settings it was given; then registers one range, the
/// one that it was given, with its mode; protects a range exactly if it was given one, that one, and
/// after registering; and spawns the handler last. Each is done once.
pub proof fn setup_in_order(setup: Setup, k: int)
    ensures
        ({
            let steps = crate::uffd::setup_steps(setup);
            let n = steps.len() as int;
            &&& n == 3 <==> setup.write_protect is None
            &&& n == 4 <==> setup.write_protect is Some
            &&& 0 <= k < n ==> {
                &&& steps[k] is Create <==> k == 0
                &&& steps[k] is Register <==> k == 1
                &&& steps[k] is WriteProtect <==> 1 < k < n - 1
                &&& steps[k] is Spawn <==> k == n - 1
                &&& steps[k] matches SetupStep::Create {
                    user_mode_only,
                    non_blocking,
                    close_on_exec,
                    features,
                    ioctls,
                } ==> {
                    &&& user_mode_only == setup.user_mode_only
                    &&& non_blocking == setup.non_blocking
                    &&& close_on_exec == setup.close_on_exec
                    &&& features == setup.features
                    &&& ioctls == setup.ioctls
                }
                &&& steps[k] matches SetupStep::Register { range, mode } ==> {
                    &&& range.start == setup.register.start
                    &&& range.len == setup.register.len
                    &&& mode == setup.mode
                }
                &&& steps[k] matches SetupStep::WriteProtect(range) ==> setup.write_protect == Some(
                    range,
                )
            }
        }),
{
}

/// The setup of a manager registers the whole of its region, wherever that lies, once and with the
/// manager's mode. If the pages are huge the same range is protected, after it is registered and
/// before the handler is spawned; if they are not, nothing is.
pub proof fn whole_region_is_registered(manager: UffdManager, k: int)
    ensures
        ({
            let steps = crate::uffd::setup_steps(crate::uffd::setup_of(manager));
            let last = steps.len() - 1;
            let huge = manager.mmap.page_size == 2097152;
            &&& last == 3 <==> huge
            &&& last == 2 <==> !huge
            &&& 0 <= k <= last ==> {
                &&& steps[k] is Create <==> k == 0
                &&& steps[k] is Register <==> k == 1
                &&& steps[k] is WriteProtect <==> huge && k == 2
                &&& steps[k] is Spawn <==> k == last
                &&& steps[k] matches SetupStep::Create {
                    user_mode_only,
                    non_blocking,
                    close_on_exec,
                    features,
                    ioctls,
                } ==> {
                    &&& !user_mode_only
                    &&& non_blocking
                    &&& close_on_exec
                    &&& features == manager.uffd_features
                    &&& ioctls == manager.uffd_ioctls
                }
                &&& steps[k] matches SetupStep::Register { range, mode } ==> {
                    &&& range.start == manager.mmap.addr
                    &&& range.len == manager.mmap.len
                    &&& mode == manager.uffd_mode
                }
                &&& steps[k] matches SetupStep::WriteProtect(range) ==> {
                    &&& range.start == manager.mmap.addr
                    &&& range.len == manager.mmap.len
                }
            }
        }),
{
    setup_in_order(crate::uffd::setup_of(manager), k);
}

/// A build is well-formed exactly if its region is of ten pages of 4 KiB or of 2 MiB, a file that is
/// still to be worked on has a path, no path holds a NUL, and a mapped region ends at an address.
pub proof fn build_is_well_formed(build: Build)
    ensures
        build.wf() <==> {
            &&& build.page_size == 4096 || build.page_size == 2097152
            &&& build.len == 10 * build.page_size
            &&& build.stage is Opening || build.stage is Sizing || build.stage is Unlinking
                ==> build.file is Some
            &&& build.file matches Some(file) ==> forall|i: int|
                0 <= i < file@.len() ==> (#[trigger] file@[i]) != '\0'
            &&& build.stage matches Stage::Mapped { addr, .. } ==> addr + build.len <= usize::MAX
        },
{
}

/// A build that goes to another stage keeps all else.
pub proof fn stage_changes_alone(build: Build, stage: Stage)
    ensures
        build.at(stage).stage == stage,
        build.at(stage).file == build.file,
        build.at(stage).len == build.len,
        build.at(stage).page_size == build.page_size,
        build.at(stage).prot == build.prot,
        build.at(stage).flags == build.flags,
{
}

/// The numbers that the settings of a region come to: it can be read and written; without a file it
/// is private, and of huge pages of 2 MiB if those are asked for; with a file it is shared. The
/// advice on a page is to give it back, or to fault it in for reading.
pub proof fn settings_in_numbers()
    ensures
        crate::sys::prot_read() | crate::sys::prot_write() == 3,
        crate::sys::map_anonymous() | crate::sys::map_private() == 0x22,
        (crate::sys::map_anonymous() | crate::sys::map_private()) | (crate::sys::map_hugetlb()
            | crate::sys::map_huge_2mb()) == 0x5404_0022,
        crate::sys::map_shared() == 1,
        crate::sys::madv_dontneed() == 4,
        crate::sys::madv_populate_read() == 22,
{
    assert(1i32 | 2i32 == 3i32) by (bit_vector);
    assert(0x20i32 | 2i32 == 0x22i32) by (bit_vector);
    assert(0x40000i32 | 0x5400_0000i32 == 0x5404_0000i32) by (bit_vector);
    assert(0x22i32 | 0x5404_0000i32 == 0x5404_0022i32) by (bit_vector);
}

/// What the system is asked for at each stage of a build. The file is created at its own path, anew
/// (2 is O_RDWR, 0o100 O_CREAT, 0o200 O_EXCL), for its owner alone; it is given the length of the
/// region; its own name is removed; the whole region is mapped, from the start of the file or, with
/// -1, of none; and what is closed, or handed over, is its own descriptor.
pub proof fn calls_in_numbers(build: Build)
    requires
        build.wf(),
    ensures
        match build.stage {
            Stage::Opening => crate::builder::call_of(build) matches BuildCall::Open {
                path,
                flags,
                mode,
            } && path@ == build.file->Some_0@ && flags == 0o302 && mode == 0o600,
            Stage::Sizing { fd: open } => crate::builder::call_of(
                build,
            ) matches BuildCall::Ftruncate { fd, size } && fd == open && size == build.len,
            Stage::Unlinking { .. } => crate::builder::call_of(build) matches BuildCall::Unlink {
                path,
            } && path@ == build.file->Some_0@,
            Stage::Mapping { file } => crate::builder::call_of(build) matches BuildCall::Mmap {
                len,
                prot,
                flags,
                fd,
                offset,
            } && len == build.len && prot == build.prot && flags == build.flags && offset == 0 && (
            file == Some(fd) || (file is None && fd == -1)),
            Stage::Closing { fd: open } => crate::builder::call_of(
                build,
            ) matches BuildCall::Close { fd } && fd == open,
            Stage::Failed => crate::builder::call_of(build) is LastOsError,
            Stage::Mapped { addr, file } => crate::builder::call_of(
                build,
            ) matches BuildCall::Ready(mmap) && mmap.addr == addr && mmap.len == build.len
                && mmap.page_size == build.page_size && mmap.fd == file,
        },
{
    assert(0o100i32 | 0o2i32 | 0o200i32 == 0o302i32) by (bit_vector);
}

/// Where a build goes when a call has returned. A negative return is a failure of opening and of
/// sizing, and of nothing else; the address of all ones is a failure of mapping. A failure with an
/// open file leads to closing it.
pub proof fn stages_in_numbers(stage: Stage, ret: i32, addr: usize)
    ensures
        match stage {
            Stage::Opening => {
                &&& ret < 0 ==> crate::builder::after_status(stage, ret) is Failed
                &&& ret >= 0 ==> crate::builder::after_status(stage, ret) == (Stage::Sizing {
                    fd: ret,
                })
            },
            Stage::Sizing { fd } => {
                &&& ret < 0 ==> crate::builder::after_status(stage, ret) == (Stage::Closing { fd })
                &&& ret >= 0 ==> crate::builder::after_status(stage, ret) == (Stage::Unlinking {
                    fd,
                })
            },
            Stage::Unlinking { fd } => crate::builder::after_status(stage, ret) == (
            Stage::Mapping { file: Some(fd) }),
            Stage::Closing { .. } => crate::builder::after_status(stage, ret) is Failed,
            Stage::Mapping { file } => {
                &&& addr != usize::MAX ==> crate::builder::after_map(stage, addr) == (
                Stage::Mapped { addr, file })
                &&& addr == usize::MAX && file is None ==> crate::builder::after_map(stage, addr)
                    is Failed
                &&& addr == usize::MAX && file is Some ==> crate::builder::after_map(stage, addr)
                    == (Stage::Closing { fd: file->Some_0 })
            },
            _ => true,
        },
{
}

// Texts.

/// The number that decimal digits stand for.
pub open spec fn number_of(text: Seq<char>) -> int
    decreases text.len(),
{
    if text.len() == 0 {
        0
    } else {
        10 * number_of(text.drop_last()) + (text.last() as int - '0' as int)
    }
}

/// The decimal notation of a number consists of decimal digits that stand for that number, and has
/// no leading zero but that of 0 itself.
pub proof fn decimal_stands_for_number(n: nat)
    ensures
        number_of(crate::text::decimal(n)) == n,
        crate::text::decimal(n).len() > 0,
        forall|i: int|
            0 <= i < crate::text::decimal(n).len() ==> '0' <= (#[trigger] crate::text::decimal(
                n,
            )[i]) <= '9',
        crate::text::decimal(n)[0] == '0' <==> n == 0,
        n == 0 ==> crate::text::decimal(n).len() == 1,
    decreases n,
{
    let text = crate::text::decimal(n);
    if n >= 10 {
        decimal_stands_for_number(n / 10);
        assert(text.drop_last() =~= crate::text::decimal(n / 10));
        assert(text[0] == crate::text::decimal(n / 10)[0]);
    } else {
        reveal_with_fuel(number_of, 2);
        assert(text.drop_last() =~= Seq::<char>::empty());
    }
}

/// The path of the file behind a region is the directory's, then one separator unless the
/// directory's is empty or ends in one, then the name, which ends in the number of the process.
pub proof fn path_in_parts(dir: Seq<char>, pid: u32)
    ensures
        ({
            let path = crate::path::backing_path(dir, pid);
            let name = "uffd-test-"@ + crate::text::decimal(pid as nat);
            let bare = dir.len() == 0 || dir[dir.len() - 1] == '/';
            &&& path.len() == dir.len() + name.len() + if bare {
                0int
            } else {
                1int
            }
            &&& path.take(dir.len() as int) == dir
            &&& path.skip(path.len() - name.len()) == name
            &&& !bare ==> path[dir.len() as int] == '/'
        }),
{
    let path = crate::path::backing_path(dir, pid);
    let name = "uffd-test-"@ + crate::text::decimal(pid as nat);
    assert(path.take(dir.len() as int) =~= dir);
    assert(path.skip(path.len() - name.len()) =~= name);
}

/// A path holds no NUL exactly if none of its characters is one.
pub proof fn nul_in_paths(text: Seq<char>)
    ensures
        crate::path::no_nul(text) <==> !text.contains('\0'),
{
    if crate::path::no_nul(text) && text.contains('\0') {
        let i = choose|i: int| 0 <= i < text.len() && text[i] == '\0';
        assert(text[i] != '\0');
    }
    if !text.contains('\0') {
        assert forall|i: int| 0 <= i < text.len() implies (#[trigger] text[i]) != '\0' by {
            assert(text.contains(text[i]));
        }
    }
}

// The page map.

/// What an entry reports, whatever its other bits: a page is present if the highest bit is set,
/// write-protected if bit 57 is, and dirty exactly if it is reported as present and not as
/// write-protected.
pub proof fn entry_in_bits(entry: PagemapEntry)
    ensures
        ({
            let info = entry.page_info();
            &&& info.present <==> entry.raw as int / 0x8000_0000_0000_0000 % 2 == 1
            &&& info.write_protected <==> entry.raw as int / 0x0200_0000_0000_0000 % 2 == 1
            &&& info.dirty <==> info.present && !info.write_protected
            &&& entry.present() == info.present
            &&& entry.write_protected() == info.write_protected
        }),
{
    let raw = entry.raw;
    assert(raw & 0x8000_0000_0000_0000u64 != 0 <==> raw / 0x8000_0000_0000_0000u64 % 2 == 1)
        by (bit_vector);
    assert(raw & 0x0200_0000_0000_0000u64 != 0 <==> raw / 0x0200_0000_0000_0000u64 % 2 == 1)
        by (bit_vector);
}

/// Two entries that agree on the highest bit and on bit 57 have the same report.
pub proof fn other_bits_do_not_matter(entry: PagemapEntry, other: PagemapEntry)
    requires
        entry.raw as int / 0x8000_0000_0000_0000 % 2 == other.raw as int / 0x8000_0000_0000_0000
            % 2,
        entry.raw as int / 0x0200_0000_0000_0000 % 2 == other.raw as int / 0x0200_0000_0000_0000
            % 2,
    ensures
        entry.page_info() == other.page_info(),
{
    entry_in_bits(entry);
    entry_in_bits(other);
}

/// Each 4 KiB of addresses share an entry of 8 bytes, the first 4 KiB the one at the start of the
/// page map, and each next 4 KiB the one behind it.
pub proof fn entries_follow_each_other(addr: int)
    ensures
        0 <= addr < 4096 ==> crate::pagemap::offset_of(addr) == 0,
        crate::pagemap::offset_of(addr + 4096) == crate::pagemap::offset_of(addr) + 8,
        addr % 4096 != 4095 ==> crate::pagemap::offset_of(addr + 1) == crate::pagemap::offset_of(
            addr,
        ),
{
}

/// The line that reports a page: its number, then the words for what is reported.
pub proof fn line_in_words(page_idx: nat, info: PageInfo)
    ensures
        ({
            let line = crate::pagemap::page_line(page_idx as int, info);
            let start = "PageMap info page "@ + crate::text::decimal(page_idx);
            let p = info.present;
            let w = info.write_protected;
            &&& p && w && info.dirty ==> line == start
                + ": present: true write-protected: true dirty: true"@
            &&& p && w && !info.dirty ==> line == start
                + ": present: true write-protected: true dirty: false"@
            &&& p && !w && info.dirty ==> line == start
                + ": present: true write-protected: false dirty: true"@
            &&& p && !w && !info.dirty ==> line == start
                + ": present: true write-protected: false dirty: false"@
            &&& !p && w && info.dirty ==> line == start
                + ": present: false write-protected: true dirty: true"@
            &&& !p && w && !info.dirty ==> line == start
                + ": present: false write-protected: true dirty: false"@
            &&& !p && !w && info.dirty ==> line == start
                + ": present: false write-protected: false dirty: true"@
            &&& !p && !w && !info.dirty ==> line == start
                + ": present: false write-protected: false dirty: false"@
        }),
{
    reveal_strlit(": present: ");
    reveal_strlit(" write-protected: ");
    reveal_strlit(" dirty: ");
    reveal_strlit("true");
    reveal_strlit("false");
    reveal_strlit(": present: true write-protected: true dirty: true");
    reveal_strlit(": present: true write-protected: true dirty: false");
    reveal_strlit(": present: true write-protected: false dirty: true");
    reveal_strlit(": present: true write-protected: false dirty: false");
    reveal_strlit(": present: false write-protected: true dirty: true");
    reveal_strlit(": present: false write-protected: true dirty: false");
    reveal_strlit(": present: false write-protected: false dirty: true");
    reveal_strlit(": present: false write-protected: false dirty: false");
    let line = crate::pagemap::page_line(page_idx as int, info);
    let start = "PageMap info page "@ + crate::text::decimal(page_idx);
    let p = info.present;
    let w = info.write_protected;
    if p && w {
        if info.dirty {
            assert(line =~= start + ": present: true write-protected: true dirty: true"@);
        } else {
            assert(line =~= start + ": present: true write-protected: true dirty: false"@);
        }
    } else if p {
        if info.dirty {
            assert(line =~= start + ": present: true write-protected: false dirty: true"@);
        } else {
            assert(line =~= start + ": present: true write-protected: false dirty: false"@);
        }
    } else if w {
        if info.dirty {
            assert(line =~= start + ": present: false write-protected: true dirty: true"@);
        } else {
            assert(line =~= start + ": present: false write-protected: true dirty: false"@);
        }
    } else if info.dirty {
        assert(line =~= start + ": present: false write-protected: false dirty: true"@);
    } else {
        assert(line =~= start + ": present: false write-protected: false dirty: false"@);
    }
}

} // verus!
