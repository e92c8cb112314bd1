//! Entries of the page map that the kernel keeps for a process.
use vstd::prelude::*;
use vstd::string::*;
use crate::mmap::{Mmap, PAGE_SZ_4K};
use crate::text::{append_decimal, truth_text};

verus! {

/// Length of an entry in bytes.
pub const ENTRY_LEN: u64 = 8;

/// The bit that is set if the page is in memory.
pub const PRESENT_BIT: u64 = 0x8000_0000_0000_0000;

/// The bit that is set if the page is write-protected through userfaultfd.
pub const WRITE_PROTECTED_BIT: u64 = 0x0200_0000_0000_0000;

/// The page map entry of one page.
#[derive(Debug, Clone, Copy, PartialEq, Eq, Structural)]
pub struct PagemapEntry {
    pub raw: u64,
}

/// What is reported of a page.
#[derive(Debug, Clone, Copy, PartialEq, Eq, Structural)]
pub struct PageInfo {
    pub present: bool,
    pub write_protected: bool,
    /// In memory and open to writes that nobody is told of.
    pub dirty: bool,
}

/// The line that reports a page.
pub open spec fn page_line(page_idx: int, info: PageInfo) -> Seq<char> {
    "PageMap info page "@ + crate::text::decimal(page_idx as nat) + ": present: "@
        + crate::text::truth(info.present) + " write-protected: "@ + crate::text::truth(
        info.write_protected,
    ) + " dirty: "@ + crate::text::truth(info.dirty)
}

impl PageInfo {
    /// The line that reports the page.
    pub fn line(&self, page_idx: usize) -> (line: String)
        ensures
            line@ == page_line(page_idx as int, *self),
    {
        let mut line = "PageMap info page ".to_owned();
        append_decimal(&mut line, page_idx as u64);
        line.append(": present: ");
        line.append(truth_text(self.present));
        line.append(" write-protected: ");
        line.append(truth_text(self.write_protected));
        line.append(" dirty: ");
        line.append(truth_text(self.dirty));
        line
    }
}

impl PagemapEntry {
    /// The page is in memory.
    pub open spec fn present(&self) -> bool {
        self.raw & PRESENT_BIT != 0
    }

    /// The page is write-protected through userfaultfd.
    pub open spec fn write_protected(&self) -> bool {
        self.raw & WRITE_PROTECTED_BIT != 0
    }

    /// What is reported of the page: it is dirty if it is present and not write-protected.
    pub open spec fn page_info(&self) -> PageInfo {
        PageInfo {
            present: self.present(),
            write_protected: self.write_protected(),
            dirty: self.present() && !self.write_protected(),
        }
    }

    /// Whether the page is in memory.
    pub fn is_present(&self) -> (present: bool)
        ensures
            present == self.present(),
    {
        self.raw & PRESENT_BIT != 0
    }

    /// Whether the page is write-protected through userfaultfd.
    pub fn is_write_protected(&self) -> (write_protected: bool)
        ensures
            write_protected == self.write_protected(),
    {
        self.raw & WRITE_PROTECTED_BIT != 0
    }

    /// What is reported of the page.
    pub fn info(&self) -> (info: PageInfo)
        ensures
            info == self.page_info(),
    {
        let present: bool = self.is_present();
        let write_protected: bool = self.is_write_protected();
        PageInfo { present, write_protected, dirty: present && !write_protected }
    }
}

/// Where in the page map the entry for an address stands.
pub open spec fn offset_of(addr: int) -> int {
    addr / PAGE_SZ_4K as int * ENTRY_LEN as int
}

/// Where in the page map the entry for an address stands. The page map has an entry for each 4 KiB
/// of addresses, also where the pages are huge.
pub fn entry_offset(addr: usize) -> (offset: u64)
    ensures
        offset == addr as int / PAGE_SZ_4K as int * ENTRY_LEN as int,
        offset == offset_of(addr as int),
{
    (addr / PAGE_SZ_4K) as u64 * ENTRY_LEN
}

impl Mmap {
    /// The lines that report the pages of the region, in order, given the entry of each.
    pub fn print_pm_info(&self, entries: &[PagemapEntry]) -> (lines: Vec<String>)
        requires
            self.wf(),
            entries@.len() == self.nr_pages(),
        ensures
            lines@.len() == self.nr_pages(),
            forall|i: int|
                0 <= i < self.nr_pages() ==> (#[trigger] lines@[i])@ == page_line(
                    i,
                    entries@[i].page_info(),
                ),
    {
        let nr_pages: usize = self.count_pages();
        let mut lines: Vec<String> = Vec::new();
        for i in 0..nr_pages
            invariant
                nr_pages == entries@.len(),
                lines@.len() == i,
                forall|j: int|
                    0 <= j < i ==> (#[trigger] lines@[j])@ == page_line(
                        j,
                        entries@[j].page_info(),
                    ),
        {
            lines.push(entries[i].info().line(i));
        }
        lines
    }
}

} // verus!
