//! What the program does to the region.
use rand::Rng;
use vstd::prelude::*;
use crate::builder::MmapBuilder;
use crate::ioctl::PageSource;
use crate::mmap::{Mmap, NR_PAGES, PAGE_SZ_2M, PAGE_SZ_4K};

verus! {

/// Tasks start after fewer milliseconds than this.
pub const MAX_DELAY_MS: u64 = 10;

/// What a task does to its page.
#[derive(Debug, Clone, Copy, PartialEq, Eq, Structural)]
pub enum Access {
    /// Reads the page.
    Read,
    /// Writes the whole page.
    Write,
    /// Gives the page back to the system.
    DontNeed,
}

/// An access to a page, made by a thread of its own.
#[derive(Debug, Clone, Copy, PartialEq, Eq, Structural)]
pub struct Task {
    pub access: Access,
    pub page_idx: usize,
}

/// Tasks that run side by side, and are then served in one round.
#[derive(Debug, PartialEq, Eq)]
pub struct Step {
    /// What the step is about, padded to a common width.
    pub title: &'static str,
    pub tasks: Vec<Task>,
}

/// The settings of the region that the command line asks for. A hugetlbfs directory goes before
/// the wish for huge pages.
pub fn configure(huge_pages: bool, hugetlbfs_path: Option<String>) -> (builder: MmapBuilder)
    ensures
        builder.prot() == crate::sys::prot_read() | crate::sys::prot_write(),
        match hugetlbfs_path {
            Some(path) => {
                &&& builder.hugetlbfs_path() == Some(path@)
                &&& builder.flags() == crate::sys::map_shared()
                &&& builder.page_size() == PAGE_SZ_2M
            },
            None => {
                &&& builder.hugetlbfs_path() is None
                &&& huge_pages ==> {
                    &&& builder.flags() == (crate::sys::map_anonymous()
                        | crate::sys::map_private()) | (crate::sys::map_hugetlb()
                        | crate::sys::map_huge_2mb())
                    &&& builder.page_size() == PAGE_SZ_2M
                }
                &&& !huge_pages ==> {
                    &&& builder.flags() == crate::sys::map_anonymous() | crate::sys::map_private()
                    &&& builder.page_size() == PAGE_SZ_4K
                }
            },
        },
{
    let builder = MmapBuilder::new();
    match hugetlbfs_path {
        Some(path) => builder.with_hugetlbfs(path),
        None => if huge_pages {
            builder.with_huge_pages()
        } else {
            builder
        },
    }
}

/// A number below `bound`, drawn by `rand::Rng::gen_range` from the generator of the thread
/// (`rand::thread_rng`). Trusted to lie in the range `0..bound`, which must not be empty; which
/// number of the range is drawn rests on chance, and nothing is said of it. The generator panics if
/// the system gives it no seed, which no argument rules out.
#[verifier::external_body]
fn random_below(bound: u64) -> (number: u64)
    requires
        0 < bound,
    ensures
        number < bound,
{
    rand::thread_rng().gen_range(0..bound)
}

/// A random time, in milliseconds, for which a task waits before it starts.
pub fn start_delay_ms() -> (delay: u64)
    ensures
        delay < MAX_DELAY_MS,
{
    random_below(MAX_DELAY_MS)
}

/// What a write task puts in its page: the pattern, over the whole page.
pub fn write_payload(mmap: &Mmap) -> (data: Vec<u8>)
    ensures
        data@ == Seq::new(mmap.page_size as nat, |i: int| 0x42u8),
{
    let data: Vec<u8> = PageSource::Pattern.page(mmap.page_size);
    assert(data@ =~= Seq::new(mmap.page_size as nat, |i: int| 0x42u8));
    data
}

/// The steps of the program, in order.
pub fn scenario() -> (steps: Vec<Step>)
    ensures
        steps@.len() == 4,
        steps@[0].title@ == " 2 reads, 1 write and 1 don't need on page 0 "@,
        steps@[0].tasks@ == seq![
            Task { access: Access::Read, page_idx: 0 },
            Task { access: Access::Read, page_idx: 0 },
            Task { access: Access::Write, page_idx: 0 },
            Task { access: Access::DontNeed, page_idx: 0 },
        ],
        steps@[1].title@ == "      1 don't need and 1 write on page 0     "@,
        steps@[1].tasks@ == seq![
            Task { access: Access::DontNeed, page_idx: 0 },
            Task { access: Access::Write, page_idx: 0 },
        ],
        steps@[2].title@ == "              1 write on page 0              "@,
        steps@[2].tasks@ == seq![Task { access: Access::Write, page_idx: 0 }],
        steps@[3].title@ == "              1 read on page 1               "@,
        steps@[3].tasks@ == seq![Task { access: Access::Read, page_idx: 1 }],
        forall|i: int, j: int|
            0 <= i < steps@.len() && 0 <= j < steps@[i].tasks@.len()
                ==> (#[trigger] steps@[i].tasks@[j]).page_idx < NR_PAGES,
{
    vec![
        Step {
            title: " 2 reads, 1 write and 1 don't need on page 0 ",
            tasks: vec![
                Task { access: Access::Read, page_idx: 0 },
                Task { access: Access::Read, page_idx: 0 },
                Task { access: Access::Write, page_idx: 0 },
                Task { access: Access::DontNeed, page_idx: 0 },
            ],
        },
        Step {
            title: "      1 don't need and 1 write on page 0     ",
            tasks: vec![
                Task { access: Access::DontNeed, page_idx: 0 },
                Task { access: Access::Write, page_idx: 0 },
            ],
        },
        Step {
            title: "              1 write on page 0              ",
            tasks: vec![Task { access: Access::Write, page_idx: 0 }],
        },
        Step {
            title: "              1 read on page 1               ",
            tasks: vec![Task { access: Access::Read, page_idx: 1 }],
        },
    ]
}

} // verus!
