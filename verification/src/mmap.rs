//! The memory region under test: where its pages are, and what is read from and written to them.
use vstd::prelude::*;
use crate::sys::{libc_madv_dontneed, libc_madv_populate_read};

verus! {

/// Size of an ordinary page.
pub const PAGE_SZ_4K: usize = 4096;

/// Size of a huge page.
pub const PAGE_SZ_2M: usize = 2097152;

/// Number of pages in a region.
pub const NR_PAGES: usize = 10;

/// What the fault handler knows of a page.
#[derive(Debug, Clone, Copy, PartialEq, Eq, Structural)]
pub enum PageState {
    /// Nothing has happened to the page.
    Untouched,
    /// A fault on the page has been served.
    Faulted,
    /// The page was given back to the system, and no fault on it has been served since.
    Removed,
}

/// A mapped region of whole pages.
#[derive(Debug, Clone, Copy, PartialEq, Eq, Structural)]
pub struct Mmap {
    /// Address of the first byte.
    pub addr: usize,
    /// Length in bytes.
    pub len: usize,
    /// Size of a page in bytes.
    pub page_size: usize,
    /// Descriptor of the file behind the region, if there is one.
    pub fd: Option<i32>,
}

/// A range of addresses, and the advice to give on it with `madvise`.
#[derive(Debug, Clone, Copy, PartialEq, Eq, Structural)]
pub struct Madvise {
    pub addr: usize,
    pub len: usize,
    pub advice: i32,
}

/// Judges what `madvise` returned: only 0 is success.
pub fn check_madvise(ret: i32) -> (ok: bool)
    ensures
        ok == (ret == 0),
{
    ret == 0
}

/// For a page of the region: its last byte comes no later than the end of the region.
pub proof fn lemma_page_fits(len: int, page_size: int, page_idx: int)
    requires
        0 < page_size,
        0 <= page_idx < len / page_size,
    ensures
        0 <= page_idx * page_size,
        page_idx * page_size + page_size <= len,
{
    assert(0 <= page_idx * page_size && page_idx * page_size + page_size <= len)
        by (nonlinear_arith)
        requires
            0 < page_size,
            0 <= page_idx < len / page_size,
    ;
}

impl Mmap {
    /// Pages have a size, and the region does not run past the end of the address space.
    pub open spec fn wf(&self) -> bool {
        &&& 0 < self.page_size
        &&& self.addr + self.len <= usize::MAX
    }

    /// Number of whole pages in the region.
    pub open spec fn nr_pages(&self) -> int {
        self.len as int / self.page_size as int
    }

    /// Offset of a page from the start of the region.
    pub open spec fn page_offset(&self, page_idx: int) -> int {
        page_idx * self.page_size
    }

    /// Address of a page.
    pub open spec fn page_addr(&self, page_idx: int) -> int {
        self.addr + self.page_offset(page_idx)
    }

    /// The page that an address lies on.
    pub open spec fn page_of(&self, addr: int) -> int {
        (addr - self.addr) / self.page_size as int
    }

    /// The bytes of a page, in the bytes of the region.
    pub open spec fn page_bytes(&self, memory: Seq<u8>, page_idx: int) -> Seq<u8> {
        memory.subrange(self.page_offset(page_idx), self.page_offset(page_idx) + self.page_size)
    }

    /// The bytes of the region once `data` has taken the place of a page.
    pub open spec fn with_page(&self, memory: Seq<u8>, page_idx: int, data: Seq<u8>) -> Seq<u8> {
        memory.subrange(0, self.page_offset(page_idx)) + data + memory.subrange(
            self.page_offset(page_idx) + self.page_size,
            memory.len() as int,
        )
    }

    /// The page at an address, which must be aligned to the size of a page and must not lie before
    /// the region.
    pub fn page_idx(&self, addr: usize) -> (page_idx: usize)
        requires
            self.wf(),
            addr as int % self.page_size as int == 0,
            self.addr <= addr,
        ensures
            page_idx == self.page_of(addr as int),
    {
        (addr - self.addr) / self.page_size
    }

    /// The region that consists of one page alone.
    pub fn page_region(&self, page_idx: usize) -> (page: Mmap)
        requires
            self.wf(),
            page_idx < self.nr_pages(),
        ensures
            page.wf(),
            page.nr_pages() == 1,
            page.addr == self.page_addr(page_idx as int),
            page.len == self.page_size,
            page.page_size == self.page_size,
            page.fd == self.fd,
    {
        proof {
            lemma_page_fits(self.len as int, self.page_size as int, page_idx as int);
            vstd::arithmetic::div_mod::lemma_div_by_self(self.page_size as int);
        }
        Mmap {
            addr: self.start_of(page_idx),
            len: self.page_size,
            page_size: self.page_size,
            fd: self.fd,
        }
    }

    /// Number of whole pages in the region.
    pub fn count_pages(&self) -> (count: usize)
        requires
            self.wf(),
        ensures
            count == self.nr_pages(),
    {
        self.len / self.page_size
    }

    /// A copy of the bytes of a page. `memory` is the whole region.
    pub fn read(&self, memory: &[u8], page_idx: usize) -> (page: Vec<u8>)
        requires
            self.wf(),
            memory@.len() == self.len,
            page_idx < self.nr_pages(),
        ensures
            page@ == self.page_bytes(memory@, page_idx as int),
    {
        proof {
            lemma_page_fits(self.len as int, self.page_size as int, page_idx as int);
        }
        let start: usize = page_idx * self.page_size;
        let page = vstd::slice::slice_subrange(memory, start, start + self.page_size);
        vstd::slice::slice_to_vec(page)
    }

    /// Puts `data`, which must be as long as a page, in the place of a page. `memory` is the whole
    /// region.
    pub fn write(&self, memory: &mut [u8], page_idx: usize, data: &[u8])
        requires
            self.wf(),
            old(memory)@.len() == self.len,
            page_idx < self.nr_pages(),
            data@.len() == self.page_size,
        ensures
            final(memory)@ == self.with_page(old(memory)@, page_idx as int, data@),
    {
        proof {
            lemma_page_fits(self.len as int, self.page_size as int, page_idx as int);
        }
        let start: usize = page_idx * self.page_size;
        let mut done: usize = 0;
        while done < self.page_size
            invariant
                done <= self.page_size,
                data@.len() == self.page_size,
                start + self.page_size <= self.len,
                memory@.len() == self.len,
                memory@ == old(memory)@.subrange(0, start as int) + data@.subrange(0, done as int)
                    + old(memory)@.subrange(start + done, self.len as int),
                old(memory)@.len() == self.len,
            decreases self.page_size - done,
        {
            memory[start + done] = data[done];
            done = done + 1;
        }
        assert(data@.subrange(0, done as int) =~= data@);
    }

    /// The request that faults a page in for reading.
    pub fn populate_read(&self, page_idx: usize) -> (request: Madvise)
        requires
            self.wf(),
            page_idx < self.nr_pages(),
        ensures
            request.addr == self.page_addr(page_idx as int),
            request.len == self.page_size,
            request.advice == crate::sys::madv_populate_read(),
    {
        Madvise {
            addr: self.start_of(page_idx),
            len: self.page_size,
            advice: libc_madv_populate_read(),
        }
    }

    /// The request that gives a page back to the system.
    pub fn dont_need(&self, page_idx: usize) -> (request: Madvise)
        requires
            self.wf(),
            page_idx < self.nr_pages(),
        ensures
            request.addr == self.page_addr(page_idx as int),
            request.len == self.page_size,
            request.advice == crate::sys::madv_dontneed(),
    {
        Madvise {
            addr: self.start_of(page_idx),
            len: self.page_size,
            advice: libc_madv_dontneed(),
        }
    }

    /// The address whose page map entry describes a page.
    pub fn pm_info(&self, page_idx: usize) -> (addr: usize)
        requires
            self.wf(),
            page_idx < self.nr_pages(),
        ensures
            addr == self.page_addr(page_idx as int),
    {
        self.start_of(page_idx)
    }

    /// Address of a page.
    fn start_of(&self, page_idx: usize) -> (addr: usize)
        requires
            self.wf(),
            page_idx < self.nr_pages(),
        ensures
            addr == self.page_addr(page_idx as int),
    {
        proof {
            lemma_page_fits(self.len as int, self.page_size as int, page_idx as int);
        }
        self.addr + page_idx * self.page_size
    }
}

} // verus!
