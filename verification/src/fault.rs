//! Serving the events of a userfaultfd queue.
//!
//! The handler keeps one [`PageState`] for each page of the region. A round takes a whole queue:
//! first every removal in it is noted, then every page fault in it is answered in turn.
use vstd::prelude::*;
use crate::mmap::{Mmap, PageState};

verus! {

/// Why a page fault was raised.
#[derive(Debug, Clone, Copy, PartialEq, Eq, Structural)]
pub enum FaultKind {
    /// There is no page at the address.
    Missing,
    /// The page at the address is write-protected.
    WriteProtected,
    /// The page is in the page cache, but not mapped.
    Minor,
}

/// Whether a faulting access was a read or a write.
#[derive(Debug, Clone, Copy, PartialEq, Eq, Structural)]
pub enum ReadWrite {
    Read,
    Write,
}

/// An event read from the queue.
#[derive(Debug, Clone, Copy, PartialEq, Eq, Structural)]
pub enum Event {
    /// An access to `addr` waits for its page.
    Pagefault { kind: FaultKind, rw: ReadWrite, addr: usize },
    /// The pages from `start` up to `end` were given back to the system.
    Remove { start: usize, end: usize },
    /// A fork, a remapping or an unmapping, none of which the handler acts on.
    Other,
}

/// Why the handler gives up on an event.
#[derive(Debug, Clone, Copy, PartialEq, Eq, Structural)]
pub enum EventError {
    /// The address is not at the start of a page.
    Misaligned { addr: usize },
    /// The address belongs to no page of the region.
    OutOfRegion { addr: usize },
    /// The removed range is not one page.
    NotOnePage { start: usize, end: usize },
    /// Faults on write-protected pages are not handled.
    WriteProtectFault { addr: usize },
    /// Minor faults are not expected.
    MinorFault { addr: usize },
}

/// How an event is answered.
#[derive(Debug, Clone, Copy, PartialEq, Eq, Structural)]
pub enum Response {
    /// The event is not a page fault.
    Skip,
    /// The page was provided before: there is nothing to do.
    AlreadyFaulted,
    /// The page was removed: provide a page of zeroes.
    ZeroPage { addr: usize },
    /// The page was never provided: copy the pattern page in, write-protected or not.
    CopyPage { addr: usize, wp: bool },
}

/// What came of a round.
#[derive(Debug, PartialEq, Eq)]
pub struct Round {
    /// Number of events that the search for removals got past.
    pub swept: usize,
    /// The answers, one for each event that was answered, in the order of the queue.
    pub responses: Vec<Response>,
    /// Why the round ended early, if it did.
    pub error: Option<EventError>,
}

/// The handler's knowledge of the region.
pub struct FaultHandler {
    /// The region that is served.
    pub mmap: Mmap,
    /// The state of each of its pages.
    pub pages: Vec<PageState>,
}

/// What is wrong with an event, if it is a removal that cannot be noted.
pub open spec fn remove_error(mmap: Mmap, event: Event) -> Option<EventError> {
    match event {
        Event::Remove { start, end } => if start as int % mmap.page_size as int != 0 {
            Some(EventError::Misaligned { addr: start })
        } else if start < mmap.addr {
            Some(EventError::OutOfRegion { addr: start })
        } else if end - start != mmap.page_size {
            Some(EventError::NotOnePage { start, end })
        } else if mmap.page_of(start as int) >= mmap.nr_pages() {
            Some(EventError::OutOfRegion { addr: start })
        } else {
            None
        },
        _ => None,
    }
}

/// What is wrong with an event, if it is a page fault that cannot be answered.
pub open spec fn fault_error(mmap: Mmap, event: Event) -> Option<EventError> {
    match event {
        Event::Pagefault { kind, rw: _, addr } => if addr as int % mmap.page_size as int != 0 {
            Some(EventError::Misaligned { addr })
        } else if addr < mmap.addr {
            Some(EventError::OutOfRegion { addr })
        } else if kind is WriteProtected {
            Some(EventError::WriteProtectFault { addr })
        } else if kind is Minor {
            Some(EventError::MinorFault { addr })
        } else if mmap.page_of(addr as int) >= mmap.nr_pages() {
            Some(EventError::OutOfRegion { addr })
        } else {
            None
        },
        _ => None,
    }
}

/// The event is a removal of the page.
pub open spec fn removes(mmap: Mmap, event: Event, page: int) -> bool {
    event matches Event::Remove { start, .. } && mmap.page_of(start as int) == page
}

/// The event is a fault on the page.
pub open spec fn faults(mmap: Mmap, event: Event, page: int) -> bool {
    event matches Event::Pagefault { addr, .. } && mmap.page_of(addr as int) == page
}

/// The page is removed by one of the first `upto` events.
pub open spec fn removed_within(mmap: Mmap, events: Seq<Event>, upto: int, page: int) -> bool {
    exists|j: int| 0 <= j < upto && removes(mmap, #[trigger] events[j], page)
}

/// The page is faulted on by one of the first `upto` events.
pub open spec fn faulted_within(mmap: Mmap, events: Seq<Event>, upto: int, page: int) -> bool {
    exists|j: int| 0 <= j < upto && faults(mmap, #[trigger] events[j], page)
}

/// The state of a page that was in state `before`, once the removals among the first `swept` events
/// have been noted, and the faults among the first `answered` events answered.
pub open spec fn state_after(
    mmap: Mmap,
    before: PageState,
    events: Seq<Event>,
    swept: int,
    answered: int,
    page: int,
) -> PageState {
    if faulted_within(mmap, events, answered, page) {
        PageState::Faulted
    } else if removed_within(mmap, events, swept, page) {
        PageState::Removed
    } else {
        before
    }
}

/// The answer to an event, if its page is in the given state.
pub open spec fn response(event: Event, state: PageState) -> Response {
    match event {
        Event::Pagefault { kind: _, rw, addr } => match state {
            PageState::Removed => Response::ZeroPage { addr },
            PageState::Faulted => Response::AlreadyFaulted,
            PageState::Untouched => Response::CopyPage { addr, wp: rw is Read },
        },
        _ => Response::Skip,
    }
}

/// The page that a page fault is on.
pub open spec fn fault_page(mmap: Mmap, event: Event) -> int {
    match event {
        Event::Pagefault { addr, .. } => mmap.page_of(addr as int),
        _ => 0,
    }
}

/// The answer to the event at `k`: every removal in the queue counts, and of the faults in it those
/// that come before.
pub open spec fn answer(mmap: Mmap, pages: Seq<PageState>, events: Seq<Event>, k: int) -> Response {
    let page = fault_page(mmap, events[k]);
    response(
        events[k],
        state_after(mmap, pages[page], events, events.len() as int, k, page),
    )
}

/// The states of all pages, as `state_after` gives them one by one.
pub open spec fn pages_after(
    mmap: Mmap,
    pages: Seq<PageState>,
    events: Seq<Event>,
    swept: int,
    answered: int,
) -> Seq<PageState> {
    Seq::new(
        pages.len(),
        |page: int| state_after(mmap, pages[page], events, swept, answered, page),
    )
}

/// What a round over `events` comes to, for a handler whose pages are in the states `pages`.
///
/// The removals are looked at first, in the order of the queue, up to the first that cannot be
/// noted: with such a one the round ends and nothing is answered. Otherwise the events are answered
/// in the order of the queue, up to the first fault that cannot be.
pub open spec fn is_round(
    mmap: Mmap,
    pages: Seq<PageState>,
    events: Seq<Event>,
    round: Round,
) -> bool {
    let answered = round.responses@.len() as int;
    &&& round.swept <= events.len()
    &&& forall|j: int| 0 <= j < round.swept ==> remove_error(mmap, #[trigger] events[j]) is None
    &&& round.swept < events.len() ==> {
        &&& remove_error(mmap, events[round.swept as int]) is Some
        &&& round.error == remove_error(mmap, events[round.swept as int])
        &&& answered == 0
    }
    &&& round.swept == events.len() ==> {
        &&& answered <= events.len()
        &&& forall|j: int| 0 <= j < answered ==> fault_error(mmap, #[trigger] events[j]) is None
        &&& forall|j: int|
            0 <= j < answered ==> (#[trigger] round.responses@[j]) == answer(mmap, pages, events, j)
        &&& answered < events.len() ==> {
            &&& fault_error(mmap, events[answered]) is Some
            &&& round.error == fault_error(mmap, events[answered])
        }
        &&& answered == events.len() ==> round.error is None
    }
}

impl FaultHandler {
    /// There is a state for each page of the region.
    pub open spec fn wf(&self) -> bool {
        &&& self.mmap.wf()
        &&& self.pages@.len() == self.mmap.nr_pages()
    }

    /// A handler for a region of which no page has been touched.
    pub fn new(mmap: Mmap) -> (handler: FaultHandler)
        requires
            mmap.wf(),
        ensures
            handler.wf(),
            handler.mmap == mmap,
            forall|page: int|
                0 <= page < mmap.nr_pages() ==> (#[trigger] handler.pages@[page])
                    == PageState::Untouched,
    {
        let count: usize = mmap.count_pages();
        let mut pages: Vec<PageState> = Vec::new();
        while pages.len() < count
            invariant
                pages@.len() <= count,
                forall|page: int|
                    0 <= page < pages@.len() ==> (#[trigger] pages@[page]) == PageState::Untouched,
            decreases count - pages@.len(),
        {
            pages.push(PageState::Untouched);
        }
        FaultHandler { mmap, pages }
    }

    /// The page that an event names by its address, or why it names none.
    fn locate(&self, addr: usize) -> (located: Result<usize, EventError>)
        requires
            self.wf(),
        ensures
            located == if addr as int % self.mmap.page_size as int != 0 {
                Err::<usize, EventError>(EventError::Misaligned { addr })
            } else if addr < self.mmap.addr {
                Err(EventError::OutOfRegion { addr })
            } else {
                Ok(self.mmap.page_of(addr as int) as usize)
            },
            located is Ok ==> located->Ok_0 == self.mmap.page_of(addr as int),
    {
        if addr % self.mmap.page_size != 0 {
            Err(EventError::Misaligned { addr })
        } else if addr < self.mmap.addr {
            Err(EventError::OutOfRegion { addr })
        } else {
            Ok(self.mmap.page_idx(addr))
        }
    }

    /// The page that a removal is of, or why it cannot be noted.
    fn check_remove(&self, start: usize, end: usize) -> (checked: Result<usize, EventError>)
        requires
            self.wf(),
        ensures
            match remove_error(self.mmap, Event::Remove { start, end }) {
                Some(error) => checked == Err::<usize, EventError>(error),
                None => {
                    &&& checked is Ok
                    &&& checked->Ok_0 == self.mmap.page_of(start as int)
                    &&& checked->Ok_0 < self.pages@.len()
                },
            },
    {
        match self.locate(start) {
            Err(error) => Err(error),
            Ok(page) => if end < start || end - start != self.mmap.page_size {
                Err(EventError::NotOnePage { start, end })
            } else if page >= self.pages.len() {
                Err(EventError::OutOfRegion { addr: start })
            } else {
                Ok(page)
            },
        }
    }

    /// The page that a fault is on, or why it cannot be answered.
    fn check_fault(&self, kind: FaultKind, rw: ReadWrite, addr: usize) -> (checked: Result<
        usize,
        EventError,
    >)
        requires
            self.wf(),
        ensures
            match fault_error(self.mmap, Event::Pagefault { kind, rw, addr }) {
                Some(error) => checked == Err::<usize, EventError>(error),
                None => {
                    &&& checked is Ok
                    &&& checked->Ok_0 == self.mmap.page_of(addr as int)
                    &&& checked->Ok_0 < self.pages@.len()
                },
            },
    {
        match self.locate(addr) {
            Err(error) => Err(error),
            Ok(page) => match kind {
                FaultKind::WriteProtected => Err(EventError::WriteProtectFault { addr }),
                FaultKind::Minor => Err(EventError::MinorFault { addr }),
                FaultKind::Missing => if page >= self.pages.len() {
                    Err(EventError::OutOfRegion { addr })
                } else {
                    Ok(page)
                },
            },
        }
    }

    /// Notes the removals in the queue, up to the first that cannot be noted. Returns how many
    /// events it got past, and what was wrong with the next one.
    fn sweep(&mut self, events: &[Event]) -> (swept: (usize, Option<EventError>))
        requires
            old(self).wf(),
        ensures
            final(self).wf(),
            final(self).mmap == old(self).mmap,
            swept.0 <= events@.len(),
            forall|j: int|
                0 <= j < swept.0 ==> remove_error(old(self).mmap, #[trigger] events@[j]) is None,
            swept.0 < events@.len() ==> {
                &&& swept.1 is Some
                &&& swept.1 == remove_error(old(self).mmap, events@[swept.0 as int])
            },
            swept.0 == events@.len() ==> swept.1 is None,
            final(self).pages@ == pages_after(
                old(self).mmap,
                old(self).pages@,
                events@,
                swept.0 as int,
                0,
            ),
    {
        let mut k: usize = 0;
        while k < events.len()
            invariant
                k <= events@.len(),
                self.wf(),
                self.mmap == old(self).mmap,
                forall|j: int|
                    0 <= j < k ==> remove_error(self.mmap, #[trigger] events@[j]) is None,
                self.pages@.len() == old(self).pages@.len(),
                self.pages@ == pages_after(self.mmap, old(self).pages@, events@, k as int, 0),
            decreases events@.len() - k,
        {
            if let Event::Remove { start, end } = events[k] {
                match self.check_remove(start, end) {
                    Err(error) => {
                        return (k, Some(error));
                    },
                    Ok(page) => {
                        self.pages.set(page, PageState::Removed);
                    },
                }
            }
            k = k + 1;
        }
        (k, None)
    }

    /// Serves a whole queue of events.
    pub fn round(&mut self, events: &[Event]) -> (round: Round)
        requires
            old(self).wf(),
        ensures
            final(self).wf(),
            final(self).mmap == old(self).mmap,
            is_round(old(self).mmap, old(self).pages@, events@, round),
            final(self).pages@ == pages_after(
                old(self).mmap,
                old(self).pages@,
                events@,
                round.swept as int,
                round.responses@.len() as int,
            ),
    {
        let (swept, error) = self.sweep(events);
        let mut responses: Vec<Response> = Vec::new();
        if error.is_some() {
            return Round { swept, responses, error };
        }
        let mut k: usize = 0;
        while k < events.len()
            invariant
                k <= events@.len(),
                swept == events@.len(),
                self.wf(),
                self.mmap == old(self).mmap,
                self.pages@.len() == old(self).pages@.len(),
                responses@.len() == k,
                forall|j: int|
                    0 <= j < swept ==> remove_error(self.mmap, #[trigger] events@[j]) is None,
                forall|j: int|
                    0 <= j < k ==> fault_error(self.mmap, #[trigger] events@[j]) is None,
                forall|j: int|
                    0 <= j < k ==> (#[trigger] responses@[j]) == answer(
                        self.mmap,
                        old(self).pages@,
                        events@,
                        j,
                    ),
                self.pages@ == pages_after(
                    self.mmap,
                    old(self).pages@,
                    events@,
                    swept as int,
                    k as int,
                ),
            decreases events@.len() - k,
        {
            let mut response = Response::Skip;
            if let Event::Pagefault { kind, rw, addr } = events[k] {
                match self.check_fault(kind, rw, addr) {
                    Err(error) => {
                        return Round { swept, responses, error: Some(error) };
                    },
                    Ok(page) => {
                        response = match self.pages[page] {
                            PageState::Removed => Response::ZeroPage { addr },
                            PageState::Faulted => Response::AlreadyFaulted,
                            PageState::Untouched => Response::CopyPage {
                                addr,
                                wp: rw == ReadWrite::Read,
                            },
                        };
                        self.pages.set(page, PageState::Faulted);
                    },
                }
            }
            responses.push(response);
            k = k + 1;
        }
        Round { swept, responses, error: None }
    }
}

} // verus!
