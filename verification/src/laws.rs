//! What holds of the library as a whole.
use vstd::prelude::*;
use crate::builder::{Build, BuildCall, Stage};
use crate::fault::{Event, Response, Round};
use crate::ioctl::{CopyReply, PageSource, UffdOp};
use crate::mmap::{Mmap, PageState};
use crate::service::{Abort, Action, Service};
use crate::uffd::Message;

verus! {

// The region.

/// The index of a page's address is that page. If the region is aligned, so is the address.
pub proof fn page_idx_inverts_page_addr(mmap: Mmap, page: int)
    requires
        mmap.wf(),
        0 <= page < mmap.nr_pages(),
    ensures
        mmap.page_of(mmap.page_addr(page)) == page,
        mmap.addr as int % mmap.page_size as int == 0 ==> mmap.page_addr(page)
            % mmap.page_size as int == 0,
{
    let size = mmap.page_size as int;
    vstd::arithmetic::div_mod::lemma_div_multiples_vanish(page, size);
    assert(size * page == page * size) by (nonlinear_arith);
    if mmap.addr as int % size == 0 {
        vstd::arithmetic::div_mod::lemma_mod_multiples_vanish(page, mmap.addr as int, size);
    }
}

/// In an aligned region, an aligned address is the address of its page, and the page is one of the
/// region if the address is below the end of the last page.
pub proof fn page_addr_inverts_page_idx(mmap: Mmap, addr: int)
    requires
        mmap.wf(),
        mmap.addr as int % mmap.page_size as int == 0,
        mmap.addr <= addr,
        addr % mmap.page_size as int == 0,
    ensures
        mmap.page_addr(mmap.page_of(addr)) == addr,
        0 <= mmap.page_of(addr),
        mmap.page_of(addr) < mmap.nr_pages() <==> addr < mmap.page_addr(mmap.nr_pages()),
{
    let size = mmap.page_size as int;
    let offset = addr - mmap.addr;
    vstd::arithmetic::div_mod::lemma_sub_mod_noop(addr, mmap.addr as int, size);
    vstd::arithmetic::div_mod::lemma_small_mod(0, size as nat);
    assert(offset % size == 0);
    vstd::arithmetic::div_mod::lemma_fundamental_div_mod(offset, size);
    let page = offset / size;
    assert(size * page == page * size) by (nonlinear_arith);
    assert(0 <= page) by (nonlinear_arith)
        requires
            page == offset / size,
            0 <= offset,
            0 < size,
    ;
    let count = mmap.nr_pages();
    assert(page < count <==> page * size < count * size) by (nonlinear_arith)
        requires
            0 < size,
    ;
}

/// The pages of a region lie one after the other, and none runs past the end.
pub proof fn pages_lie_apart(mmap: Mmap, page: int, other: int)
    requires
        mmap.wf(),
        0 <= page < other < mmap.nr_pages(),
    ensures
        mmap.addr <= mmap.page_addr(page),
        mmap.page_addr(page) + mmap.page_size <= mmap.page_addr(other),
        mmap.page_addr(other) + mmap.page_size <= mmap.addr + mmap.len,
{
    crate::mmap::lemma_page_fits(mmap.len as int, mmap.page_size as int, page);
    crate::mmap::lemma_page_fits(mmap.len as int, mmap.page_size as int, other);
    let size = mmap.page_size as int;
    assert(page * size + size <= other * size) by (nonlinear_arith)
        requires
            page < other,
            0 < size,
    ;
}

/// Reading a page gives back what was last written to it.
pub proof fn read_gives_back_write(mmap: Mmap, memory: Seq<u8>, page: int, data: Seq<u8>)
    requires
        mmap.wf(),
        memory.len() == mmap.len,
        0 <= page < mmap.nr_pages(),
        data.len() == mmap.page_size,
    ensures
        mmap.with_page(memory, page, data).len() == memory.len(),
        mmap.page_bytes(mmap.with_page(memory, page, data), page) == data,
{
    crate::mmap::lemma_page_fits(mmap.len as int, mmap.page_size as int, page);
    assert(mmap.page_bytes(mmap.with_page(memory, page, data), page) =~= data);
}

/// Writing a page leaves every other page as it was.
pub proof fn write_leaves_other_pages(
    mmap: Mmap,
    memory: Seq<u8>,
    page: int,
    data: Seq<u8>,
    other: int,
)
    requires
        mmap.wf(),
        memory.len() == mmap.len,
        0 <= page < mmap.nr_pages(),
        data.len() == mmap.page_size,
        0 <= other < mmap.nr_pages(),
        other != page,
    ensures
        mmap.page_bytes(mmap.with_page(memory, page, data), other) == mmap.page_bytes(
            memory,
            other,
        ),
{
    crate::mmap::lemma_page_fits(mmap.len as int, mmap.page_size as int, page);
    crate::mmap::lemma_page_fits(mmap.len as int, mmap.page_size as int, other);
    if page < other {
        pages_lie_apart(mmap, page, other);
    } else {
        pages_lie_apart(mmap, other, page);
    }
    assert(mmap.page_bytes(mmap.with_page(memory, page, data), other) =~= mmap.page_bytes(
        memory,
        other,
    ));
}

/// Of two writes to a page, the second is all that is left.
pub proof fn last_write_stays(
    mmap: Mmap,
    memory: Seq<u8>,
    page: int,
    first: Seq<u8>,
    second: Seq<u8>,
)
    requires
        mmap.wf(),
        memory.len() == mmap.len,
        0 <= page < mmap.nr_pages(),
        first.len() == mmap.page_size,
        second.len() == mmap.page_size,
    ensures
        mmap.with_page(mmap.with_page(memory, page, first), page, second) == mmap.with_page(
            memory,
            page,
            second,
        ),
{
    crate::mmap::lemma_page_fits(mmap.len as int, mmap.page_size as int, page);
    assert(mmap.with_page(mmap.with_page(memory, page, first), page, second) =~= mmap.with_page(
        memory,
        page,
        second,
    ));
}

/// Writing back what was read changes nothing.
pub proof fn writing_back_changes_nothing(mmap: Mmap, memory: Seq<u8>, page: int)
    requires
        mmap.wf(),
        memory.len() == mmap.len,
        0 <= page < mmap.nr_pages(),
    ensures
        mmap.with_page(memory, page, mmap.page_bytes(memory, page)) == memory,
{
    crate::mmap::lemma_page_fits(mmap.len as int, mmap.page_size as int, page);
    assert(mmap.with_page(memory, page, mmap.page_bytes(memory, page)) =~= memory);
}

// The path of the file behind the region.

/// Different numbers have different decimal notations.
proof fn decimal_is_injective(n: nat, m: nat)
    requires
        crate::text::decimal(n) == crate::text::decimal(m),
    ensures
        n == m,
    decreases n,
{
    let a = crate::text::decimal(n);
    let b = crate::text::decimal(m);
    decimal_is_not_empty(n / 10);
    decimal_is_not_empty(m / 10);
    assert(a.last() == crate::text::digit_char(n % 10));
    assert(b.last() == crate::text::digit_char(m % 10));
    assert(n % 10 == m % 10);
    if n >= 10 {
        assert(a.len() > 1);
        assert(a.drop_last() =~= crate::text::decimal(n / 10));
        assert(b.drop_last() =~= crate::text::decimal(m / 10));
        decimal_is_injective(n / 10, m / 10);
    } else {
        assert(b.len() == 1);
    }
}

/// A decimal notation has at least one digit.
proof fn decimal_is_not_empty(n: nat)
    ensures
        crate::text::decimal(n).len() >= 1,
{
}

/// Different processes create different files in the same directory.
pub proof fn processes_do_not_share_files(dir: Seq<char>, pid: u32, other: u32)
    requires
        pid != other,
    ensures
        crate::path::backing_path(dir, pid) != crate::path::backing_path(dir, other),
{
    let prefix = crate::path::joined(dir, "uffd-test-"@);
    let a = crate::text::decimal(pid as nat);
    let b = crate::text::decimal(other as nat);
    assert(crate::path::backing_path(dir, pid) =~= prefix + a);
    assert(crate::path::backing_path(dir, other) =~= prefix + b);
    if prefix + a == prefix + b {
        assert((prefix + a).skip(prefix.len() as int) =~= a);
        assert((prefix + b).skip(prefix.len() as int) =~= b);
        decimal_is_injective(pid as nat, other as nat);
    }
}

// Serving a queue.

/// Every event of the queue can be served.
pub open spec fn serviceable(mmap: Mmap, events: Seq<Event>) -> bool {
    forall|j: int|
        0 <= j < events.len() ==> {
            &&& crate::fault::remove_error(mmap, #[trigger] events[j]) is None
            &&& crate::fault::fault_error(mmap, events[j]) is None
        }
}

/// The states of the pages after a queue that can be served whole.
pub open spec fn pages_after_all(
    mmap: Mmap,
    pages: Seq<PageState>,
    events: Seq<Event>,
) -> Seq<PageState> {
    crate::fault::pages_after(mmap, pages, events, events.len() as int, events.len() as int)
}

/// The address at which a response provides a page, if it does.
pub open spec fn provided_at(response: Response) -> Option<usize> {
    match response {
        Response::ZeroPage { addr } => Some(addr),
        Response::CopyPage { addr, .. } => Some(addr),
        _ => None,
    }
}

/// The states of the pages and the queue leave only one way for a round to go.
pub proof fn round_is_determined(
    mmap: Mmap,
    pages: Seq<PageState>,
    events: Seq<Event>,
    round: Round,
    other: Round,
)
    requires
        crate::fault::is_round(mmap, pages, events, round),
        crate::fault::is_round(mmap, pages, events, other),
    ensures
        round.swept == other.swept,
        round.responses@ == other.responses@,
        round.error == other.error,
{
    if round.swept < other.swept {
        assert(crate::fault::remove_error(mmap, events[round.swept as int]) is None);
    }
    if other.swept < round.swept {
        assert(crate::fault::remove_error(mmap, events[other.swept as int]) is None);
    }
    let n = round.responses@.len() as int;
    let m = other.responses@.len() as int;
    if n < m {
        assert(crate::fault::fault_error(mmap, events[n]) is None);
    }
    if m < n {
        assert(crate::fault::fault_error(mmap, events[m]) is None);
    }
    assert(round.responses@ =~= other.responses@);
}

/// A round ends without an error exactly if every event of its queue can be served; and then every
/// event has been answered.
pub proof fn round_succeeds_on_serviceable_queue(
    mmap: Mmap,
    pages: Seq<PageState>,
    events: Seq<Event>,
    round: Round,
)
    requires
        crate::fault::is_round(mmap, pages, events, round),
    ensures
        round.error is None <==> serviceable(mmap, events),
        round.error is None ==> round.swept == events.len() && round.responses@.len()
            == events.len(),
{
    if serviceable(mmap, events) {
        if round.swept < events.len() {
            assert(crate::fault::remove_error(mmap, events[round.swept as int]) is None);
        }
        let answered = round.responses@.len() as int;
        if answered < events.len() {
            assert(crate::fault::fault_error(mmap, events[answered]) is None);
        }
    }
}

/// A queue with a removal that cannot be noted has no page provided, whatever else is in it.
pub proof fn bad_removal_stops_everything(
    mmap: Mmap,
    pages: Seq<PageState>,
    events: Seq<Event>,
    round: Round,
    k: int,
)
    requires
        crate::fault::is_round(mmap, pages, events, round),
        0 <= k < events.len(),
        crate::fault::remove_error(mmap, events[k]) is Some,
    ensures
        round.responses@.len() == 0,
        round.error is Some,
        round.swept <= k,
{
}

/// Of the faults on one page in a queue, only the first can have a page provided.
pub proof fn page_is_provided_once(
    mmap: Mmap,
    pages: Seq<PageState>,
    events: Seq<Event>,
    first: int,
    later: int,
)
    requires
        0 <= first < later < events.len(),
        events[first] is Pagefault,
        events[later] is Pagefault,
        crate::fault::fault_page(mmap, events[first]) == crate::fault::fault_page(
            mmap,
            events[later],
        ),
    ensures
        crate::fault::answer(mmap, pages, events, later) == Response::AlreadyFaulted,
{
    let page = crate::fault::fault_page(mmap, events[later]);
    assert(crate::fault::faults(mmap, events[first], page));
    assert(crate::fault::faulted_within(mmap, events, later, page));
}

/// The first fault on a page that is removed in the same queue gets a page of zeroes, wherever in
/// the queue the removal stands and whatever was known of the page.
pub proof fn removed_page_comes_back_as_zeroes(
    mmap: Mmap,
    pages: Seq<PageState>,
    events: Seq<Event>,
    removal: int,
    fault: int,
)
    requires
        0 <= removal < events.len(),
        0 <= fault < events.len(),
        events[fault] is Pagefault,
        crate::fault::removes(
            mmap,
            events[removal],
            crate::fault::fault_page(mmap, events[fault]),
        ),
        !crate::fault::faulted_within(
            mmap,
            events,
            fault,
            crate::fault::fault_page(mmap, events[fault]),
        ),
    ensures
        crate::fault::answer(mmap, pages, events, fault) == (Response::ZeroPage {
            addr: events[fault]->addr,
        }),
{
    let page = crate::fault::fault_page(mmap, events[fault]);
    assert(crate::fault::removed_within(mmap, events, events.len() as int, page));
}

/// The first fault on a page that nothing has happened to gets the pattern, write-protected if the
/// access was a read.
pub proof fn untouched_page_comes_as_pattern(
    mmap: Mmap,
    pages: Seq<PageState>,
    events: Seq<Event>,
    fault: int,
)
    requires
        0 <= fault < events.len(),
        events[fault] is Pagefault,
        pages[crate::fault::fault_page(mmap, events[fault])] is Untouched,
        !crate::fault::removed_within(
            mmap,
            events,
            events.len() as int,
            crate::fault::fault_page(mmap, events[fault]),
        ),
        !crate::fault::faulted_within(
            mmap,
            events,
            fault,
            crate::fault::fault_page(mmap, events[fault]),
        ),
    ensures
        crate::fault::answer(mmap, pages, events, fault) == (Response::CopyPage {
            addr: events[fault]->addr,
            wp: events[fault]->rw is Read,
        }),
{
}

/// A page that was provided is not provided again until it has been removed.
pub proof fn provided_page_is_left_alone(
    mmap: Mmap,
    pages: Seq<PageState>,
    events: Seq<Event>,
    fault: int,
)
    requires
        0 <= fault < events.len(),
        events[fault] is Pagefault,
        pages[crate::fault::fault_page(mmap, events[fault])] is Faulted,
        !crate::fault::removed_within(
            mmap,
            events,
            events.len() as int,
            crate::fault::fault_page(mmap, events[fault]),
        ),
    ensures
        crate::fault::answer(mmap, pages, events, fault) == Response::AlreadyFaulted,
{
}

/// Among the faults on a page there is a first.
proof fn first_fault(mmap: Mmap, events: Seq<Event>, upto: int, page: int) -> (first: int)
    requires
        0 <= upto,
        crate::fault::faulted_within(mmap, events, upto, page),
    ensures
        0 <= first < upto,
        crate::fault::faults(mmap, events[first], page),
        !crate::fault::faulted_within(mmap, events, first, page),
    decreases upto,
{
    if crate::fault::faulted_within(mmap, events, upto - 1, page) {
        first_fault(mmap, events, upto - 1, page)
    } else {
        upto - 1
    }
}

/// In a queue, a page is provided exactly if there is a fault on it, and it was removed or had not
/// been provided before.
pub proof fn fault_on_absent_page_is_served(
    mmap: Mmap,
    pages: Seq<PageState>,
    events: Seq<Event>,
    page: int,
)
    ensures
        (exists|k: int|
            0 <= k < events.len() && crate::fault::faults(mmap, events[k], page) && provided_at(
                #[trigger] crate::fault::answer(mmap, pages, events, k),
            ) is Some) <==> (crate::fault::faulted_within(mmap, events, events.len() as int, page)
            && (crate::fault::removed_within(mmap, events, events.len() as int, page)
            || !(pages[page] is Faulted))),
{
    let n = events.len() as int;
    if crate::fault::faulted_within(mmap, events, n, page) && (crate::fault::removed_within(
        mmap,
        events,
        n,
        page,
    ) || !(pages[page] is Faulted)) {
        let k = first_fault(mmap, events, n, page);
        assert(provided_at(crate::fault::answer(mmap, pages, events, k)) is Some);
    }
}

/// Every page that a round provides is a whole page of the region, if the region is aligned.
pub proof fn pages_are_provided_within_region(
    mmap: Mmap,
    pages: Seq<PageState>,
    events: Seq<Event>,
    round: Round,
    k: int,
)
    requires
        mmap.wf(),
        mmap.addr as int % mmap.page_size as int == 0,
        crate::fault::is_round(mmap, pages, events, round),
        0 <= k < round.responses@.len(),
        provided_at(round.responses@[k]) is Some,
    ensures
        ({
            let addr = provided_at(round.responses@[k])->Some_0 as int;
            let page = mmap.page_of(addr);
            &&& 0 <= page < mmap.nr_pages()
            &&& addr == mmap.page_addr(page)
            &&& mmap.addr <= addr
            &&& addr + mmap.page_size <= mmap.addr + mmap.len
        }),
{
    assert(round.responses@[k] == crate::fault::answer(mmap, pages, events, k));
    assert(crate::fault::fault_error(mmap, events[k]) is None);
    let addr = provided_at(round.responses@[k])->Some_0 as int;
    page_addr_inverts_page_idx(mmap, addr);
    crate::mmap::lemma_page_fits(mmap.len as int, mmap.page_size as int, mmap.page_of(addr));
}

/// A page to which something has happened does not become untouched again.
pub proof fn touched_page_stays_touched(
    mmap: Mmap,
    before: PageState,
    events: Seq<Event>,
    swept: int,
    answered: int,
    page: int,
)
    requires
        before !is Untouched,
    ensures
        crate::fault::state_after(mmap, before, events, swept, answered, page) !is Untouched,
{
}

/// A page that no event of the queue is about keeps its state.
pub proof fn other_pages_keep_their_state(
    mmap: Mmap,
    before: PageState,
    events: Seq<Event>,
    swept: int,
    answered: int,
    page: int,
)
    requires
        0 <= swept <= events.len(),
        0 <= answered <= events.len(),
        forall|j: int|
            0 <= j < events.len() ==> !crate::fault::removes(mmap, #[trigger] events[j], page)
                && !crate::fault::faults(mmap, events[j], page),
    ensures
        crate::fault::state_after(mmap, before, events, swept, answered, page) == before,
{
}

/// The states of the pages after a queue do not depend on the order of its events, nor on how often
/// one occurs.
pub proof fn order_of_queue_does_not_matter(
    mmap: Mmap,
    pages: Seq<PageState>,
    events: Seq<Event>,
    other: Seq<Event>,
)
    requires
        forall|event: Event| events.contains(event) <==> other.contains(event),
    ensures
        pages_after_all(mmap, pages, events) == pages_after_all(mmap, pages, other),
{
    assert forall|page: int| 0 <= page < pages.len() implies pages_after_all(
        mmap,
        pages,
        events,
    )[page] == pages_after_all(mmap, pages, other)[page] by {
        same_events_within(mmap, events, other, page);
        same_events_within(mmap, other, events, page);
    }
    assert(pages_after_all(mmap, pages, events) =~= pages_after_all(mmap, pages, other));
}

/// What happens to a page in a queue also happens to it in a queue that holds the same events.
proof fn same_events_within(mmap: Mmap, events: Seq<Event>, other: Seq<Event>, page: int)
    requires
        forall|event: Event| events.contains(event) ==> other.contains(event),
    ensures
        crate::fault::removed_within(mmap, events, events.len() as int, page)
            ==> crate::fault::removed_within(mmap, other, other.len() as int, page),
        crate::fault::faulted_within(mmap, events, events.len() as int, page)
            ==> crate::fault::faulted_within(mmap, other, other.len() as int, page),
{
    if crate::fault::removed_within(mmap, events, events.len() as int, page) {
        let j = choose|j: int|
            0 <= j < events.len() && crate::fault::removes(mmap, #[trigger] events[j], page);
        assert(events.contains(events[j]));
        let k = choose|k: int| 0 <= k < other.len() && other[k] == events[j];
        assert(crate::fault::removes(mmap, other[k], page));
    }
    if crate::fault::faulted_within(mmap, events, events.len() as int, page) {
        let j = choose|j: int|
            0 <= j < events.len() && crate::fault::faults(mmap, #[trigger] events[j], page);
        assert(events.contains(events[j]));
        let k = choose|k: int| 0 <= k < other.len() && other[k] == events[j];
        assert(crate::fault::faults(mmap, other[k], page));
    }
}

/// The answers to the events of a queue, in order.
pub open spec fn all_answers(mmap: Mmap, pages: Seq<PageState>, events: Seq<Event>) -> Seq<
    Response,
> {
    Seq::new(events.len(), |k: int| crate::fault::answer(mmap, pages, events, k))
}

/// What happens to a page in two queues, one put after the other, is what happens to it in the one
/// or in the other.
proof fn within_two_queues(
    mmap: Mmap,
    first: Seq<Event>,
    second: Seq<Event>,
    upto: int,
    page: int,
)
    requires
        0 <= upto <= second.len(),
    ensures
        crate::fault::removed_within(mmap, first + second, first.len() + upto, page) <==> (
        crate::fault::removed_within(mmap, first, first.len() as int, page)
            || crate::fault::removed_within(mmap, second, upto, page)),
        crate::fault::faulted_within(mmap, first + second, first.len() + upto, page) <==> (
        crate::fault::faulted_within(mmap, first, first.len() as int, page)
            || crate::fault::faulted_within(mmap, second, upto, page)),
{
    let both = first + second;
    let n = first.len() as int;
    if crate::fault::removed_within(mmap, first, n, page) {
        let j = choose|j: int|
            0 <= j < n && crate::fault::removes(mmap, #[trigger] first[j], page);
        assert(both[j] == first[j]);
    }
    if crate::fault::removed_within(mmap, second, upto, page) {
        let j = choose|j: int|
            0 <= j < upto && crate::fault::removes(mmap, #[trigger] second[j], page);
        assert(both[n + j] == second[j]);
    }
    if crate::fault::removed_within(mmap, both, n + upto, page) {
        let j = choose|j: int|
            0 <= j < n + upto && crate::fault::removes(mmap, #[trigger] both[j], page);
        assert(j < n ==> both[j] == first[j]);
        assert(j >= n ==> both[j] == second[j - n]);
    }
    if crate::fault::faulted_within(mmap, first, n, page) {
        let j = choose|j: int|
            0 <= j < n && crate::fault::faults(mmap, #[trigger] first[j], page);
        assert(both[j] == first[j]);
    }
    if crate::fault::faulted_within(mmap, second, upto, page) {
        let j = choose|j: int|
            0 <= j < upto && crate::fault::faults(mmap, #[trigger] second[j], page);
        assert(both[n + j] == second[j]);
    }
    if crate::fault::faulted_within(mmap, both, n + upto, page) {
        let j = choose|j: int|
            0 <= j < n + upto && crate::fault::faults(mmap, #[trigger] both[j], page);
        assert(j < n ==> both[j] == first[j]);
        assert(j >= n ==> both[j] == second[j - n]);
    }
}

/// What happens to a page in the beginning of a queue does not depend on what follows.
proof fn within_beginning(
    mmap: Mmap,
    first: Seq<Event>,
    second: Seq<Event>,
    upto: int,
    page: int,
)
    requires
        0 <= upto <= first.len(),
    ensures
        crate::fault::faulted_within(mmap, first + second, upto, page)
            <==> crate::fault::faulted_within(mmap, first, upto, page),
{
    let both = first + second;
    if crate::fault::faulted_within(mmap, both, upto, page) {
        let j = choose|j: int|
            0 <= j < upto && crate::fault::faults(mmap, #[trigger] both[j], page);
        assert(both[j] == first[j]);
    }
    if crate::fault::faulted_within(mmap, first, upto, page) {
        let j = choose|j: int|
            0 <= j < upto && crate::fault::faults(mmap, #[trigger] first[j], page);
        assert(both[j] == first[j]);
    }
}

/// Serving two queues one after the other gives the same answers, and leaves the pages in the same
/// states, as serving them as one, unless a page that the first has a fault on is removed in the
/// second.
pub proof fn queues_can_be_served_together(
    mmap: Mmap,
    pages: Seq<PageState>,
    first: Seq<Event>,
    second: Seq<Event>,
)
    requires
        mmap.wf(),
        pages.len() == mmap.nr_pages(),
        serviceable(mmap, first),
        serviceable(mmap, second),
        forall|page: int|
            !(#[trigger] crate::fault::faulted_within(mmap, first, first.len() as int, page)
                && crate::fault::removed_within(mmap, second, second.len() as int, page)),
    ensures
        pages_after_all(mmap, pages_after_all(mmap, pages, first), second) == pages_after_all(
            mmap,
            pages,
            first + second,
        ),
        all_answers(mmap, pages, first) + all_answers(
            mmap,
            pages_after_all(mmap, pages, first),
            second,
        ) == all_answers(mmap, pages, first + second),
{
    let both = first + second;
    let n = first.len() as int;
    let m = second.len() as int;
    let between = pages_after_all(mmap, pages, first);
    assert forall|page: int| 0 <= page < pages.len() implies pages_after_all(
        mmap,
        between,
        second,
    )[page] == pages_after_all(mmap, pages, both)[page] by {
        within_two_queues(mmap, first, second, m, page);
    }
    assert(pages_after_all(mmap, between, second) =~= pages_after_all(mmap, pages, both));
    let apart = all_answers(mmap, pages, first) + all_answers(mmap, between, second);
    let together = all_answers(mmap, pages, both);
    assert forall|k: int| 0 <= k < both.len() implies apart[k] == together[k] by {
        let page = crate::fault::fault_page(mmap, both[k]);
        within_two_queues(mmap, first, second, m, page);
        if k < n {
            assert(both[k] == first[k]);
            within_beginning(mmap, first, second, k, page);
            if first[k] is Pagefault {
                assert(crate::fault::faults(mmap, first[k], page));
                assert(crate::fault::faulted_within(mmap, first, n, page));
            }
        } else {
            assert(both[k] == second[k - n]);
            within_two_queues(mmap, first, second, k - n, page);
            if second[k - n] is Pagefault {
                assert(crate::fault::fault_error(mmap, second[k - n]) is None);
                page_of_is_not_negative(mmap, second[k - n]->addr as int);
            }
        }
    }
    assert(apart =~= together);
}

/// An address that does not lie before the region has a page that is not negative.
proof fn page_of_is_not_negative(mmap: Mmap, addr: int)
    requires
        mmap.wf(),
        mmap.addr <= addr,
    ensures
        0 <= mmap.page_of(addr),
{
    vstd::arithmetic::div_mod::lemma_div_pos_is_pos(addr - mmap.addr, mmap.page_size as int);
}

/// The states of the pages after several queues, each served whole, one after the other.
pub open spec fn pages_after_rounds(
    mmap: Mmap,
    pages: Seq<PageState>,
    rounds: Seq<Seq<Event>>,
) -> Seq<PageState>
    decreases rounds.len(),
{
    if rounds.len() == 0 {
        pages
    } else {
        pages_after_all(mmap, pages_after_rounds(mmap, pages, rounds.drop_last()), rounds.last())
    }
}

/// The answer to the event at `k` of the queue at `i`, when the queues are served in order.
pub open spec fn answer_in_round(
    mmap: Mmap,
    pages: Seq<PageState>,
    rounds: Seq<Seq<Event>>,
    i: int,
    k: int,
) -> Response {
    crate::fault::answer(mmap, pages_after_rounds(mmap, pages, rounds.take(i)), rounds[i], k)
}

/// A page that has been faulted on or removed in an earlier queue is not untouched.
proof fn page_stays_touched(
    mmap: Mmap,
    pages: Seq<PageState>,
    rounds: Seq<Seq<Event>>,
    i: int,
    n: int,
    page: int,
)
    requires
        0 <= i < n <= rounds.len(),
        0 <= page < pages.len(),
        crate::fault::faulted_within(mmap, rounds[i], rounds[i].len() as int, page)
            || crate::fault::removed_within(mmap, rounds[i], rounds[i].len() as int, page),
    ensures
        pages_after_rounds(mmap, pages, rounds.take(n)).len() == pages.len(),
        pages_after_rounds(mmap, pages, rounds.take(n))[page] !is Untouched,
    decreases n,
{
    let taken = rounds.take(n);
    assert(taken.drop_last() =~= rounds.take(n - 1));
    assert(taken.last() == rounds[n - 1]);
    if i < n - 1 {
        page_stays_touched(mmap, pages, rounds, i, n - 1, page);
    } else {
        rounds_keep_number_of_pages(mmap, pages, rounds.take(n - 1));
    }
}

/// Serving queues neither adds nor removes a page.
proof fn rounds_keep_number_of_pages(mmap: Mmap, pages: Seq<PageState>, rounds: Seq<Seq<Event>>)
    ensures
        pages_after_rounds(mmap, pages, rounds).len() == pages.len(),
    decreases rounds.len(),
{
    if rounds.len() > 0 {
        rounds_keep_number_of_pages(mmap, pages, rounds.drop_last());
    }
}

/// Over any number of rounds, a page gets the pattern at most once, and only by the first fault on
/// it: if there has been a fault on a page, whatever came of it, no fault on that page in a later
/// round is answered with the pattern.
pub proof fn pattern_is_given_at_most_once(
    mmap: Mmap,
    pages: Seq<PageState>,
    rounds: Seq<Seq<Event>>,
    i: int,
    k: int,
    later: int,
    m: int,
)
    requires
        mmap.wf(),
        pages.len() == mmap.nr_pages(),
        0 <= i < later < rounds.len(),
        serviceable(mmap, rounds[i]),
        0 <= k < rounds[i].len(),
        0 <= m < rounds[later].len(),
        rounds[i][k] is Pagefault,
        rounds[later][m] is Pagefault,
        crate::fault::fault_page(mmap, rounds[i][k]) == crate::fault::fault_page(
            mmap,
            rounds[later][m],
        ),
    ensures
        answer_in_round(mmap, pages, rounds, later, m) !is CopyPage,
{
    let event = rounds[i][k];
    let page = crate::fault::fault_page(mmap, event);
    assert(crate::fault::fault_error(mmap, event) is None);
    page_of_is_not_negative(mmap, event->addr as int);
    assert(crate::fault::faults(mmap, rounds[i][k], page));
    page_stays_touched(mmap, pages, rounds, i, later, page);
}

/// Over any number of rounds, a page that has been removed never gets the pattern afterwards.
pub proof fn removed_page_never_gets_pattern(
    mmap: Mmap,
    pages: Seq<PageState>,
    rounds: Seq<Seq<Event>>,
    i: int,
    k: int,
    later: int,
    m: int,
)
    requires
        mmap.wf(),
        pages.len() == mmap.nr_pages(),
        0 <= i < later < rounds.len(),
        serviceable(mmap, rounds[i]),
        0 <= k < rounds[i].len(),
        0 <= m < rounds[later].len(),
        rounds[later][m] is Pagefault,
        crate::fault::removes(
            mmap,
            rounds[i][k],
            crate::fault::fault_page(mmap, rounds[later][m]),
        ),
    ensures
        answer_in_round(mmap, pages, rounds, later, m) !is CopyPage,
{
    let event = rounds[i][k];
    let page = crate::fault::fault_page(mmap, rounds[later][m]);
    assert(crate::fault::remove_error(mmap, event) is None);
    page_of_is_not_negative(mmap, event->start as int);
    page_stays_touched(mmap, pages, rounds, i, later, page);
}

/// The page is removed in a queue that comes after the one at `j`.
pub open spec fn removed_after(mmap: Mmap, rounds: Seq<Seq<Event>>, j: int, page: int) -> bool {
    exists|i: int|
        j < i < rounds.len() && crate::fault::removed_within(
            mmap,
            #[trigger] rounds[i],
            rounds[i].len() as int,
            page,
        )
}

/// The page has been faulted on in one of the queues, and not been removed in a later one.
pub open spec fn present_after(mmap: Mmap, rounds: Seq<Seq<Event>>, page: int) -> bool {
    exists|j: int|
        0 <= j < rounds.len() && crate::fault::faulted_within(
            mmap,
            #[trigger] rounds[j],
            rounds[j].len() as int,
            page,
        ) && !removed_after(mmap, rounds, j, page)
}

/// The event at `k` of the queue at `i` is a fault on the page, and gets a page provided.
pub open spec fn fills(
    mmap: Mmap,
    pages: Seq<PageState>,
    rounds: Seq<Seq<Event>>,
    i: int,
    k: int,
    page: int,
) -> bool {
    &&& 0 <= k < rounds[i].len()
    &&& crate::fault::faults(mmap, rounds[i][k], page)
    &&& provided_at(answer_in_round(mmap, pages, rounds, i, k)) is Some
}

/// The handler takes a page to be provided exactly if it was faulted on and not removed since.
proof fn faulted_means_present(
    mmap: Mmap,
    pages: Seq<PageState>,
    rounds: Seq<Seq<Event>>,
    page: int,
)
    requires
        0 <= page < pages.len(),
        pages[page] !is Faulted,
    ensures
        pages_after_rounds(mmap, pages, rounds).len() == pages.len(),
        pages_after_rounds(mmap, pages, rounds)[page] is Faulted <==> present_after(
            mmap,
            rounds,
            page,
        ),
    decreases rounds.len(),
{
    if rounds.len() > 0 {
        let front = rounds.drop_last();
        let n = front.len() as int;
        let events = rounds[n];
        faulted_means_present(mmap, pages, front, page);
        if crate::fault::faulted_within(mmap, events, events.len() as int, page) {
            assert(!removed_after(mmap, rounds, n, page));
        } else {
            if present_after(mmap, rounds, page) {
                let j = choose|j: int|
                    0 <= j < rounds.len() && crate::fault::faulted_within(
                        mmap,
                        #[trigger] rounds[j],
                        rounds[j].len() as int,
                        page,
                    ) && !removed_after(mmap, rounds, j, page);
                assert(j < n);
                assert(front[j] == rounds[j]);
                assert forall|i: int| j < i < front.len() implies !crate::fault::removed_within(
                    mmap,
                    #[trigger] front[i],
                    front[i].len() as int,
                    page,
                ) by {
                    assert(front[i] == rounds[i]);
                }
                assert(!removed_after(mmap, front, j, page));
            }
            if present_after(mmap, front, page) && !crate::fault::removed_within(
                mmap,
                events,
                events.len() as int,
                page,
            ) {
                let j = choose|j: int|
                    0 <= j < front.len() && crate::fault::faulted_within(
                        mmap,
                        #[trigger] front[j],
                        front[j].len() as int,
                        page,
                    ) && !removed_after(mmap, front, j, page);
                assert(front[j] == rounds[j]);
                assert forall|i: int| j < i < rounds.len() implies !crate::fault::removed_within(
                    mmap,
                    #[trigger] rounds[i],
                    rounds[i].len() as int,
                    page,
                ) by {
                    if i < n {
                        assert(front[i] == rounds[i]);
                    }
                }
                assert(!removed_after(mmap, rounds, j, page));
            }
        }
    }
}

/// Over any number of rounds, a queue with a fault on a page fills it exactly once if the page is
/// removed in that queue, was removed since the last queue with a fault on it, or was never faulted
/// on; and otherwise, or without a fault on it, not at all.
pub proof fn page_is_filled_exactly_when_absent(
    mmap: Mmap,
    pages: Seq<PageState>,
    rounds: Seq<Seq<Event>>,
    i: int,
    page: int,
)
    requires
        0 <= page < pages.len(),
        pages[page] is Untouched,
        0 <= i < rounds.len(),
    ensures
        ({
            let n = rounds[i].len() as int;
            let absent = crate::fault::removed_within(mmap, rounds[i], n, page) || !present_after(
                mmap,
                rounds.take(i),
                page,
            );
            if crate::fault::faulted_within(mmap, rounds[i], n, page) && absent {
                exists|k: int|
                    (#[trigger] fills(mmap, pages, rounds, i, k, page)) && (forall|m: int|
                        (#[trigger] fills(mmap, pages, rounds, i, m, page)) ==> m == k)
            } else {
                forall|k: int| !(#[trigger] fills(mmap, pages, rounds, i, k, page))
            }
        }),
{
    let events = rounds[i];
    let n = events.len() as int;
    let before = pages_after_rounds(mmap, pages, rounds.take(i));
    faulted_means_present(mmap, pages, rounds.take(i), page);
    fault_on_absent_page_is_served(mmap, before, events, page);
    let absent = crate::fault::removed_within(mmap, events, n, page) || !present_after(
        mmap,
        rounds.take(i),
        page,
    );
    if crate::fault::faulted_within(mmap, events, n, page) && absent {
        let k = choose|k: int|
            0 <= k < events.len() && crate::fault::faults(mmap, events[k], page) && provided_at(
                #[trigger] crate::fault::answer(mmap, before, events, k),
            ) is Some;
        assert(fills(mmap, pages, rounds, i, k, page));
        assert forall|m: int| #[trigger] fills(mmap, pages, rounds, i, m, page) implies m == k by {
            if m < k {
                page_is_provided_once(mmap, before, events, m, k);
            } else if k < m {
                page_is_provided_once(mmap, before, events, k, m);
            }
        }
    } else {
        assert forall|k: int| !(#[trigger] fills(mmap, pages, rounds, i, k, page)) by {
            if fills(mmap, pages, rounds, i, k, page) {
                assert(provided_at(crate::fault::answer(mmap, before, events, k)) is Some);
            }
        }
    }
}

/// The page has been removed in one of the queues, and neither in that one nor in a later one is
/// there a fault on it.
pub open spec fn gone_after(mmap: Mmap, rounds: Seq<Seq<Event>>, page: int) -> bool {
    exists|j: int|
        0 <= j < rounds.len() && crate::fault::removed_within(
            mmap,
            #[trigger] rounds[j],
            rounds[j].len() as int,
            page,
        ) && !faulted_from(mmap, rounds, j, page)
}

/// There is a fault on the page in the queue at `j` or in a later one.
pub open spec fn faulted_from(mmap: Mmap, rounds: Seq<Seq<Event>>, j: int, page: int) -> bool {
    exists|i: int|
        j <= i < rounds.len() && crate::fault::faulted_within(
            mmap,
            #[trigger] rounds[i],
            rounds[i].len() as int,
            page,
        )
}

/// The handler takes a page to be removed exactly if it was removed and not faulted on since.
proof fn removed_means_gone(mmap: Mmap, pages: Seq<PageState>, rounds: Seq<Seq<Event>>, page: int)
    requires
        0 <= page < pages.len(),
        pages[page] is Untouched,
    ensures
        pages_after_rounds(mmap, pages, rounds).len() == pages.len(),
        pages_after_rounds(mmap, pages, rounds)[page] is Removed <==> gone_after(
            mmap,
            rounds,
            page,
        ),
    decreases rounds.len(),
{
    if rounds.len() > 0 {
        let front = rounds.drop_last();
        let n = front.len() as int;
        let events = rounds[n];
        removed_means_gone(mmap, pages, front, page);
        if crate::fault::faulted_within(mmap, events, events.len() as int, page) {
            assert forall|j: int| 0 <= j < rounds.len() implies #[trigger] faulted_from(
                mmap,
                rounds,
                j,
                page,
            ) by {
                assert(rounds[n] == events);
            }
        } else if crate::fault::removed_within(mmap, events, events.len() as int, page) {
            assert(!faulted_from(mmap, rounds, n, page));
        } else {
            assert forall|j: int| 0 <= j < n implies (#[trigger] faulted_from(
                mmap,
                rounds,
                j,
                page,
            )) == faulted_from(mmap, front, j, page) by {
                if faulted_from(mmap, rounds, j, page) {
                    let i = choose|i: int|
                        j <= i < rounds.len() && crate::fault::faulted_within(
                            mmap,
                            #[trigger] rounds[i],
                            rounds[i].len() as int,
                            page,
                        );
                    assert(front[i] == rounds[i]);
                }
                if faulted_from(mmap, front, j, page) {
                    let i = choose|i: int|
                        j <= i < front.len() && crate::fault::faulted_within(
                            mmap,
                            #[trigger] front[i],
                            front[i].len() as int,
                            page,
                        );
                    assert(front[i] == rounds[i]);
                }
            }
            if gone_after(mmap, rounds, page) {
                let j = choose|j: int|
                    0 <= j < rounds.len() && crate::fault::removed_within(
                        mmap,
                        #[trigger] rounds[j],
                        rounds[j].len() as int,
                        page,
                    ) && !faulted_from(mmap, rounds, j, page);
                assert(front[j] == rounds[j]);
            }
            if gone_after(mmap, front, page) {
                let j = choose|j: int|
                    0 <= j < front.len() && crate::fault::removed_within(
                        mmap,
                        #[trigger] front[j],
                        front[j].len() as int,
                        page,
                    ) && !faulted_from(mmap, front, j, page);
                assert(front[j] == rounds[j]);
                assert(!faulted_from(mmap, rounds, j, page));
            }
        }
    }
}

/// Over any number of rounds, a page that is filled is filled with zeroes exactly if it is removed
/// in that queue, or was removed since the last queue with a fault on it; and otherwise with the
/// pattern, write-protected if the access was a read.
pub proof fn page_is_filled_with_zeroes_exactly_after_removal(
    mmap: Mmap,
    pages: Seq<PageState>,
    rounds: Seq<Seq<Event>>,
    i: int,
    k: int,
    page: int,
)
    requires
        0 <= page < pages.len(),
        pages[page] is Untouched,
        0 <= i < rounds.len(),
        fills(mmap, pages, rounds, i, k, page),
    ensures
        ({
            let removed = crate::fault::removed_within(
                mmap,
                rounds[i],
                rounds[i].len() as int,
                page,
            ) || gone_after(mmap, rounds.take(i), page);
            let addr = rounds[i][k]->addr;
            let answer = answer_in_round(mmap, pages, rounds, i, k);
            &&& answer == if removed {
                Response::ZeroPage { addr }
            } else {
                Response::CopyPage { addr, wp: rounds[i][k]->rw is Read }
            }
            &&& provided_byte(answer) == if removed {
                0u8
            } else {
                0x42u8
            }
        }),
{
    removed_means_gone(mmap, pages, rounds.take(i), page);
}

/// The faults in a queue, in order.
pub open spec fn faults_of(events: Seq<Event>) -> Seq<Event> {
    events.filter(|event: Event| event is Pagefault)
}

/// The requests that answer `faults`, in order, if the removals are those in `removals`.
spec fn ops_of_faults(
    mmap: Mmap,
    pages: Seq<PageState>,
    removals: Seq<Event>,
    faults: Seq<Event>,
) -> Seq<UffdOp>
    decreases faults.len(),
{
    if faults.len() == 0 {
        seq![]
    } else {
        let earlier = faults.drop_last();
        let page = crate::fault::fault_page(mmap, faults.last());
        let state = if crate::fault::faulted_within(mmap, earlier, earlier.len() as int, page) {
            PageState::Faulted
        } else if crate::fault::removed_within(mmap, removals, removals.len() as int, page) {
            PageState::Removed
        } else {
            pages[page]
        };
        ops_of_faults(mmap, pages, removals, earlier) + crate::ioctl::response_ops(
            mmap,
            crate::fault::response(faults.last(), state),
        )
    }
}

/// A page is faulted on in the beginning of a queue exactly if it is in the faults alone.
proof fn faulted_within_faults(mmap: Mmap, events: Seq<Event>, k: int, page: int)
    requires
        0 <= k <= events.len(),
    ensures
        ({
            let faults = faults_of(events.take(k));
            crate::fault::faulted_within(mmap, events, k, page) <==> crate::fault::faulted_within(
                mmap,
                faults,
                faults.len() as int,
                page,
            )
        }),
    decreases k,
{
    reveal(Seq::filter);
    if k > 0 {
        faulted_within_faults(mmap, events, k - 1, page);
        assert(events.take(k).drop_last() =~= events.take(k - 1));
        let event = events[k - 1];
        let before = faults_of(events.take(k - 1));
        let after = faults_of(events.take(k));
        assert(after == if event is Pagefault {
            before.push(event)
        } else {
            before
        });
        if event is Pagefault {
            if crate::fault::faulted_within(mmap, before, before.len() as int, page) {
                let j = choose|j: int|
                    0 <= j < before.len() && crate::fault::faults(mmap, #[trigger] before[j], page);
                assert(after[j] == before[j]);
            }
            if crate::fault::faults(mmap, event, page) {
                assert(after[before.len() as int] == event);
                assert(events[k - 1] == event);
            }
            if crate::fault::faulted_within(mmap, after, after.len() as int, page) {
                let j = choose|j: int|
                    0 <= j < after.len() && crate::fault::faults(mmap, #[trigger] after[j], page);
                assert(j < before.len() ==> after[j] == before[j]);
            }
        }
    } else {
        assert(events.take(0) =~= Seq::<Event>::empty());
    }
}

/// The requests of the beginning of a queue are those that answer its faults.
proof fn ops_come_from_faults(mmap: Mmap, pages: Seq<PageState>, events: Seq<Event>, k: int)
    requires
        0 <= k <= events.len(),
    ensures
        crate::service::round_ops(mmap, all_answers(mmap, pages, events).take(k)) == ops_of_faults(
            mmap,
            pages,
            events,
            faults_of(events.take(k)),
        ),
    decreases k,
{
    reveal(Seq::filter);
    let answers = all_answers(mmap, pages, events);
    if k > 0 {
        ops_come_from_faults(mmap, pages, events, k - 1);
        assert(answers.take(k).drop_last() =~= answers.take(k - 1));
        assert(answers.take(k).last() == crate::fault::answer(mmap, pages, events, k - 1));
        assert(events.take(k).drop_last() =~= events.take(k - 1));
        let event = events[k - 1];
        let before = faults_of(events.take(k - 1));
        if event is Pagefault {
            let page = crate::fault::fault_page(mmap, event);
            faulted_within_faults(mmap, events, k - 1, page);
            assert(faults_of(events.take(k)) == before.push(event));
            assert(before.push(event).drop_last() =~= before);
        } else {
            assert(faults_of(events.take(k)) == before);
            assert(crate::ioctl::response_ops(mmap, Response::Skip) =~= Seq::<UffdOp>::empty());
        }
        assert(crate::service::round_ops(mmap, answers.take(k)) =~= ops_of_faults(
            mmap,
            pages,
            events,
            faults_of(events.take(k)),
        ));
    } else {
        assert(events.take(0) =~= Seq::<Event>::empty());
    }
}

/// The requests that answer faults depend only on which pages are removed.
proof fn ops_depend_on_removed_pages(
    mmap: Mmap,
    pages: Seq<PageState>,
    removals: Seq<Event>,
    others: Seq<Event>,
    faults: Seq<Event>,
)
    requires
        forall|page: int|
            (#[trigger] crate::fault::removed_within(mmap, removals, removals.len() as int, page))
                <==> crate::fault::removed_within(mmap, others, others.len() as int, page),
    ensures
        ops_of_faults(mmap, pages, removals, faults) == ops_of_faults(mmap, pages, others, faults),
    decreases faults.len(),
{
    if faults.len() > 0 {
        ops_depend_on_removed_pages(mmap, pages, removals, others, faults.drop_last());
        let page = crate::fault::fault_page(mmap, faults.last());
        assert(crate::fault::removed_within(mmap, removals, removals.len() as int, page)
            <==> crate::fault::removed_within(mmap, others, others.len() as int, page));
    }
}

/// A removal in one queue is in the other, if they hold the same removals.
proof fn same_removals_within(mmap: Mmap, events: Seq<Event>, other: Seq<Event>, page: int)
    requires
        forall|event: Event| event is Remove && events.contains(event) ==> other.contains(event),
        crate::fault::removed_within(mmap, events, events.len() as int, page),
    ensures
        crate::fault::removed_within(mmap, other, other.len() as int, page),
{
    let j = choose|j: int|
        0 <= j < events.len() && crate::fault::removes(mmap, #[trigger] events[j], page);
    assert(events.contains(events[j]));
    let k = choose|k: int| 0 <= k < other.len() && other[k] == events[j];
    assert(crate::fault::removes(mmap, other[k], page));
}

/// The requests of a queue do not depend on where its removals stand, nor on how often one occurs:
/// two queues with the same faults in the same order, and the same removals, have the same
/// requests.
pub proof fn place_of_removals_does_not_matter(
    mmap: Mmap,
    pages: Seq<PageState>,
    events: Seq<Event>,
    other: Seq<Event>,
)
    requires
        faults_of(events) == faults_of(other),
        forall|event: Event| event is Remove ==> (events.contains(event) <==> other.contains(
            event,
        )),
    ensures
        crate::service::round_ops(mmap, all_answers(mmap, pages, events))
            == crate::service::round_ops(mmap, all_answers(mmap, pages, other)),
{
    ops_come_from_faults(mmap, pages, events, events.len() as int);
    ops_come_from_faults(mmap, pages, other, other.len() as int);
    assert(events.take(events.len() as int) =~= events);
    assert(other.take(other.len() as int) =~= other);
    let answers = all_answers(mmap, pages, events);
    let other_answers = all_answers(mmap, pages, other);
    assert(answers.take(events.len() as int) =~= answers);
    assert(other_answers.take(other.len() as int) =~= other_answers);
    assert forall|page: int|
        (#[trigger] crate::fault::removed_within(mmap, events, events.len() as int, page))
            <==> crate::fault::removed_within(mmap, other, other.len() as int, page) by {
        if crate::fault::removed_within(mmap, events, events.len() as int, page) {
            same_removals_within(mmap, events, other, page);
        }
        if crate::fault::removed_within(mmap, other, other.len() as int, page) {
            same_removals_within(mmap, other, events, page);
        }
    }
    ops_depend_on_removed_pages(mmap, pages, events, other, faults_of(events));
}

/// Reading or writing a page through the region that consists of that page alone comes to the same
/// as through the whole region.
pub proof fn page_region_is_the_page(
    mmap: Mmap,
    alone: Mmap,
    memory: Seq<u8>,
    page: int,
    data: Seq<u8>,
)
    requires
        mmap.wf(),
        memory.len() == mmap.len,
        0 <= page < mmap.nr_pages(),
        alone.page_size == mmap.page_size,
        data.len() == mmap.page_size,
    ensures
        alone.page_bytes(mmap.page_bytes(memory, page), 0) == mmap.page_bytes(memory, page),
        alone.with_page(mmap.page_bytes(memory, page), 0, data) == mmap.page_bytes(
            mmap.with_page(memory, page, data),
            page,
        ),
{
    crate::mmap::lemma_page_fits(mmap.len as int, mmap.page_size as int, page);
    read_gives_back_write(mmap, memory, page, data);
    let bytes = mmap.page_bytes(memory, page);
    assert(alone.page_offset(0) == 0);
    assert(alone.page_bytes(bytes, 0) =~= bytes);
    assert(alone.with_page(bytes, 0, data) =~= data);
}

// The requests.

/// The request wakes the threads that wait for the page.
pub open spec fn wakes(op: UffdOp) -> bool {
    match op {
        UffdOp::Zeropage { wake, .. } => wake,
        UffdOp::Copy { wake, .. } => wake,
        UffdOp::Wake { .. } => true,
        UffdOp::WriteProtect { .. } => false,
    }
}

/// The request leaves the page write-protected.
pub open spec fn protects(op: UffdOp) -> bool {
    match op {
        UffdOp::WriteProtect { .. } => true,
        UffdOp::Copy { wp, .. } => wp,
        _ => false,
    }
}

/// The bytes of the region once a request has gone through, by what the kernel does for it.
pub open spec fn effect(mmap: Mmap, memory: Seq<u8>, op: UffdOp) -> Seq<u8> {
    match op {
        UffdOp::Zeropage { start, .. } => mmap.with_page(
            memory,
            mmap.page_of(start as int),
            Seq::new(mmap.page_size as nat, |i: int| 0u8),
        ),
        UffdOp::Copy { source, dst, .. } => mmap.with_page(
            memory,
            mmap.page_of(dst as int),
            Seq::new(mmap.page_size as nat, |i: int| crate::ioctl::source_byte(source)),
        ),
        _ => memory,
    }
}

/// The bytes of the region once requests have gone through in order.
pub open spec fn effects(mmap: Mmap, memory: Seq<u8>, ops: Seq<UffdOp>) -> Seq<u8>
    decreases ops.len(),
{
    if ops.len() == 0 {
        memory
    } else {
        effect(mmap, effects(mmap, memory, ops.drop_last()), ops.last())
    }
}

/// The byte that a provided page holds everywhere.
pub open spec fn provided_byte(response: Response) -> u8 {
    match response {
        Response::CopyPage { .. } => crate::ioctl::source_byte(PageSource::Pattern),
        _ => crate::ioctl::source_byte(PageSource::Zeroes),
    }
}

/// Whoever waits for a page is woken once the page has been provided, by the last request and by no
/// other. A page of zeroes is write-protected by then; the pattern is if the response says so.
pub proof fn waiting_threads_are_woken_last(mmap: Mmap, response: Response)
    requires
        provided_at(response) is Some,
    ensures
        ({
            let ops = crate::ioctl::response_ops(mmap, response);
            &&& ops.len() > 0
            &&& wakes(ops.last())
            &&& forall|k: int| 0 <= k < ops.len() - 1 ==> !wakes(#[trigger] ops[k])
            &&& (exists|k: int| 0 <= k < ops.len() && protects(#[trigger] ops[k])) <==> (response
                is ZeroPage || response->wp)
        }),
{
    let ops = crate::ioctl::response_ops(mmap, response);
    if response is ZeroPage {
        if mmap.page_size == crate::mmap::PAGE_SZ_4K {
            assert(protects(ops[1]));
        } else {
            assert(protects(ops[0]));
        }
    } else if response->wp {
        assert(protects(ops[0]));
    }
}

/// The requests of a response fill the page at its address with zeroes or with the pattern, and
/// leave every other page alone. A response that provides no page makes no request.
pub proof fn requests_fill_one_page(mmap: Mmap, memory: Seq<u8>, response: Response, other: int)
    requires
        mmap.wf(),
        memory.len() == mmap.len,
        provided_at(response) matches Some(addr) ==> 0 <= mmap.page_of(addr as int)
            < mmap.nr_pages(),
        0 <= other < mmap.nr_pages(),
    ensures
        ({
            let ops = crate::ioctl::response_ops(mmap, response);
            let after = effects(mmap, memory, ops);
            match provided_at(response) {
                None => ops.len() == 0 && after == memory,
                Some(addr) => mmap.page_bytes(after, other) == if other == mmap.page_of(
                    addr as int,
                ) {
                    Seq::new(mmap.page_size as nat, |i: int| provided_byte(response))
                } else {
                    mmap.page_bytes(memory, other)
                },
            }
        }),
{
    let ops = crate::ioctl::response_ops(mmap, response);
    reveal_with_fuel(effects, 4);
    if let Some(addr) = provided_at(response) {
        let page = mmap.page_of(addr as int);
        let filled = Seq::new(mmap.page_size as nat, |i: int| provided_byte(response));
        let after = effects(mmap, memory, ops);
        if response is ZeroPage && mmap.page_size == crate::mmap::PAGE_SZ_4K {
            assert(ops.drop_last().drop_last() =~= seq![ops[0]]);
            assert(ops.drop_last().last() == ops[1]);
            assert(seq![ops[0]].drop_last() =~= Seq::<UffdOp>::empty());
            assert(filled =~= Seq::new(mmap.page_size as nat, |i: int| 0u8));
        } else {
            assert(ops.drop_last() =~= Seq::<UffdOp>::empty());
            let source = ops[0]->source;
            assert(filled =~= Seq::new(
                mmap.page_size as nat,
                |i: int| crate::ioctl::source_byte(source),
            ));
        }
        assert(after == mmap.with_page(memory, page, filled));
        read_gives_back_write(mmap, memory, page, filled);
        if other != page {
            write_leaves_other_pages(mmap, memory, page, filled, other);
        }
    }
}

// The handler thread.

/// A stretch of the thread's life in which it makes requests, and each goes through: from one state
/// to the next, one more request has been made.
pub open spec fn requests_go_through(states: Seq<Service>) -> bool {
    forall|i: int|
        0 <= i < states.len() - 1 ==> {
            &&& action_at(states, i) is Request
            &&& states[i + 1] == crate::service::after_performed(states[i])
        }
}

/// The action that the thread is at in one of its states.
pub open spec fn action_at(states: Seq<Service>, i: int) -> Action {
    crate::service::action_of(states[i])
}

/// While requests go through, only their count changes, and the requests are made one by one.
proof fn requests_are_counted(states: Seq<Service>, i: int)
    requires
        requests_go_through(states),
        0 <= i < states.len(),
        states[0].wf(),
        states[0].phase is Serving,
        states[0].made == 0,
    ensures
        states[i].made == i,
        i <= states[0].ops@.len(),
        states[i] == (Service { made: states[i].made, ..states[0] }),
    decreases i,
{
    if i > 0 {
        requests_are_counted(states, i - 1);
        assert(action_at(states, i - 1) is Request);
        assert(states[0].ops@.len() == states[0].ops.len());
    }
}

/// A round is served whole: the thread that is let on reads the queue, makes exactly the requests
/// that answer its events, in their order, then reports once that it is done, and knows the pages
/// as the queue leaves them.
pub proof fn round_is_served_and_reported(
    frozen: Service,
    thawed: Service,
    states: Seq<Service>,
    events: Seq<Event>,
)
    requires
        frozen.wf(),
        frozen.phase is Frozen,
        thawed == crate::service::after_received(frozen, Message::Continue),
        states.len() > 0,
        states[0].wf(),
        crate::service::is_read(thawed, states[0], events),
        serviceable(frozen.handler.mmap, events),
        requests_go_through(states),
        !(action_at(states, states.len() - 1) is Request),
    ensures
        crate::service::action_of(frozen) == Action::Receive,
        crate::service::action_of(thawed) == Action::ReadEvents,
        ({
            let mmap = frozen.handler.mmap;
            let pages = frozen.handler.pages@;
            let ops = crate::service::round_ops(mmap, all_answers(mmap, pages, events));
            &&& states.len() == ops.len() + 1
            &&& forall|i: int|
                0 <= i < ops.len() ==> (#[trigger] action_at(states, i)) == Action::Request(ops[i])
            &&& action_at(states, ops.len() as int) == Action::Send(Message::Done)
            &&& states[ops.len() as int].handler.mmap == mmap
            &&& states[ops.len() as int].handler.pages@ == pages_after_all(mmap, pages, events)
        }),
{
    let mmap = frozen.handler.mmap;
    let pages = frozen.handler.pages@;
    let served = states[0];
    round_succeeds_on_serviceable_queue(mmap, pages, events, served.round);
    assert(served.round.responses@ =~= all_answers(mmap, pages, events));
    let last = states.len() - 1;
    requests_are_counted(states, last);
    assert forall|i: int| 0 <= i < served.ops@.len() implies (#[trigger] action_at(states, i))
        == Action::Request(served.ops@[i]) by {
        requests_are_counted(states, i);
    }
}

/// A round whose queue cannot be served whole is never reported as done: when the requests have been
/// made that could be, the thread gives up with the error of the round.
pub proof fn failed_round_is_not_reported(
    thawed: Service,
    states: Seq<Service>,
    events: Seq<Event>,
)
    requires
        states.len() > 0,
        states[0].wf(),
        crate::service::is_read(thawed, states[0], events),
        !serviceable(thawed.handler.mmap, events),
        requests_go_through(states),
    ensures
        forall|i: int|
            0 <= i < states.len() ==> (#[trigger] action_at(states, i)) is Request || action_at(
                states,
                i,
            ) == Action::Abort(
                Abort::BadEvent(states[0].round.error->Some_0),
            ),
{
    round_succeeds_on_serviceable_queue(
        thawed.handler.mmap,
        thawed.handler.pages@,
        events,
        states[0].round,
    );
    assert forall|i: int| 0 <= i < states.len() implies (#[trigger] action_at(states, i))
        is Request || action_at(states, i) == Action::Abort(
        Abort::BadEvent(states[0].round.error->Some_0),
    ) by {
        requests_are_counted(states, i);
    }
}

/// A copy that did not go through is not tried again: the thread gives up, with the error of that
/// copy. A copy that was interrupted before anything was copied has a text of its own.
pub proof fn refused_copy_is_not_tried_again(service: Service, reply: CopyReply)
    requires
        crate::ioctl::copy_verdict(reply) is Err,
    ensures
        crate::service::action_of(crate::service::after_copied(service, reply)) == Action::Abort(
            Abort::BadCopy(crate::ioctl::copy_verdict(reply)->Err_0),
        ),
        reply == CopyReply::PartiallyCopied(
            crate::ioctl::negated(crate::sys::eagain()) as usize,
        ) ==> crate::service::abort_text(
            Abort::BadCopy(crate::ioctl::copy_verdict(reply)->Err_0),
        ) == Some("Got a PartialCopy error with -EAGAIN"@),
{
}

/// The messages fit together: what lets the handler on is a command to serve, what stops it is a
/// command to end, and the only message that it ever sends is the report that the main thread waits
/// for, which is no command.
pub proof fn messages_fit_together(service: Service)
    ensures
        crate::service::phase_after(Message::Continue) is Thawed,
        crate::service::phase_after(Message::Exit) is Ended,
        crate::service::phase_after(Message::Done) is Aborted,
        crate::service::action_of(service) matches Action::Send(message) ==> message
            == Message::Done && service.phase is Serving && service.made >= service.ops@.len()
            && service.round.error is None,
        service.phase is Frozen ==> crate::service::action_of(service) == Action::Receive,
{
}

// Setting up the region.

/// What the system calls of a build return.
pub struct Replies {
    pub open: i32,
    pub ftruncate: i32,
    pub unlink: i32,
    pub mmap: usize,
    pub close: i32,
}

/// The stage that a build is at when the call that it waits for has returned.
pub open spec fn next_stage(build: Build, replies: Replies) -> Stage {
    match build.stage {
        Stage::Opening => crate::builder::after_status(build.stage, replies.open),
        Stage::Sizing { .. } => crate::builder::after_status(build.stage, replies.ftruncate),
        Stage::Unlinking { .. } => crate::builder::after_status(build.stage, replies.unlink),
        Stage::Mapping { .. } => crate::builder::after_map(build.stage, replies.mmap),
        Stage::Closing { .. } => crate::builder::after_status(build.stage, replies.close),
        _ => build.stage,
    }
}

/// A bound on the number of calls that a build still makes.
pub open spec fn calls_left(stage: Stage) -> nat {
    match stage {
        Stage::Opening => 5,
        Stage::Sizing { .. } => 4,
        Stage::Unlinking { .. } => 3,
        Stage::Mapping { .. } => 2,
        Stage::Closing { .. } => 1,
        _ => 0,
    }
}

/// Everything that a build does from where it stands to its end.
pub open spec fn calls_of(build: Build, replies: Replies) -> Seq<BuildCall>
    decreases calls_left(build.stage),
{
    if calls_left(build.stage) == 0 {
        seq![crate::builder::call_of(build)]
    } else {
        seq![crate::builder::call_of(build)] + calls_of(
            build.at(next_stage(build, replies)),
            replies,
        )
    }
}

/// The descriptor that a build has open.
pub open spec fn open_file(stage: Stage) -> Option<i32> {
    match stage {
        Stage::Sizing { fd } => Some(fd),
        Stage::Unlinking { fd } => Some(fd),
        Stage::Mapping { file } => file,
        Stage::Closing { fd } => Some(fd),
        Stage::Mapped { file, .. } => file,
        _ => None,
    }
}

/// A build without a file makes one call, `mmap`, and touches no file.
pub proof fn anonymous_build(build: Build, replies: Replies)
    requires
        build.wf(),
        build.stage == (Stage::Mapping { file: None }),
    ensures
        calls_of(build, replies) == seq![
            crate::builder::call_of(build),
            if replies.mmap == crate::sys::map_failed() {
                BuildCall::LastOsError
            } else {
                BuildCall::Ready(
                    Mmap {
                        addr: replies.mmap,
                        len: build.len,
                        page_size: build.page_size,
                        fd: None,
                    },
                )
            },
        ],
        crate::builder::call_of(build) == (BuildCall::Mmap {
            len: build.len,
            prot: build.prot,
            flags: build.flags,
            fd: (-1) as i32,
            offset: 0,
        }),
{
    reveal_with_fuel(calls_of, 3);
    assert(calls_of(build, replies) =~= seq![
        crate::builder::call_of(build),
        crate::builder::call_of(build.at(next_stage(build, replies))),
    ]);
}

/// A build with a file creates it, sizes it, removes its name and maps it. As soon as one of these
/// fails, other than the removal of the name, it stops, closes the file if it is open, and fails.
pub proof fn file_build(build: Build, replies: Replies)
    requires
        build.wf(),
        build.stage is Opening,
    ensures
        ({
            let fd = replies.open;
            let open = crate::builder::call_of(build);
            let size = BuildCall::Ftruncate { fd, size: build.len as i64 };
            let unlink = BuildCall::Unlink { path: build.file->Some_0 };
            let map = BuildCall::Mmap {
                len: build.len,
                prot: build.prot,
                flags: build.flags,
                fd,
                offset: 0,
            };
            let close = BuildCall::Close { fd };
            calls_of(build, replies) == if replies.open < 0 {
                seq![open, BuildCall::LastOsError]
            } else if replies.ftruncate < 0 {
                seq![open, size, close, BuildCall::LastOsError]
            } else if replies.mmap == crate::sys::map_failed() {
                seq![open, size, unlink, map, close, BuildCall::LastOsError]
            } else {
                seq![
                    open,
                    size,
                    unlink,
                    map,
                    BuildCall::Ready(
                        Mmap {
                            addr: replies.mmap,
                            len: build.len,
                            page_size: build.page_size,
                            fd: Some(fd),
                        },
                    ),
                ]
            }
        }),
{
    reveal_with_fuel(calls_of, 7);
    let fd = replies.open;
    let sizing = build.at(Stage::Sizing { fd });
    let unlinking = build.at(Stage::Unlinking { fd });
    let mapping = build.at(Stage::Mapping { file: Some(fd) });
    let closing = build.at(Stage::Closing { fd });
    let failed = build.at(Stage::Failed);
    let tail = seq![BuildCall::LastOsError];
    assert(calls_of(failed, replies) =~= tail);
    assert(calls_of(closing, replies) =~= seq![crate::builder::call_of(closing)] + tail);
    if replies.open >= 0 {
        assert(calls_of(build, replies) == seq![crate::builder::call_of(build)] + calls_of(
            sizing,
            replies,
        ));
        if replies.ftruncate >= 0 {
            assert(calls_of(sizing, replies) == seq![crate::builder::call_of(sizing)] + calls_of(
                unlinking,
                replies,
            ));
            assert(calls_of(unlinking, replies) == seq![crate::builder::call_of(unlinking)]
                + calls_of(mapping, replies));
        }
    }
}

/// No build loses a descriptor: one that is open stays open, and is handed over with the region,
/// unless the call is the one that closes it; and only opening the file brings one about.
pub proof fn descriptors_are_not_lost(build: Build, replies: Replies)
    requires
        build.wf(),
    ensures
        open_file(build.stage) matches Some(fd) ==> open_file(next_stage(build, replies)) == Some(
            fd,
        ) || crate::builder::call_of(build) == (BuildCall::Close { fd }),
        open_file(build.stage) is None ==> (open_file(next_stage(build, replies)) is None || (
        build.stage is Opening && open_file(next_stage(build, replies)) == Some(replies.open)
            && replies.open >= 0)),
        build.stage is Failed ==> open_file(build.stage) is None,
{
}

} // verus!
