//! The userfaultfd requests that provide a page, and how their replies are judged.
use vstd::prelude::*;
use vstd::string::*;
use crate::fault::Response;
use crate::mmap::{Mmap, PAGE_SZ_4K};
use crate::sys::{libc_eagain, libc_eexist};
use crate::text::append_decimal;

verus! {

/// A page that can be copied into the region.
#[derive(Debug, Clone, Copy, PartialEq, Eq, Structural)]
pub enum PageSource {
    /// A page of zeroes.
    Zeroes,
    /// A page that holds 0x42 in every byte.
    Pattern,
}

/// A request to the userfaultfd object.
#[derive(Debug, Clone, Copy, PartialEq, Eq, Structural)]
pub enum UffdOp {
    /// Map a page of zeroes, and wake the waiting threads or not.
    Zeropage { start: usize, len: usize, wake: bool },
    /// Write-protect a range.
    WriteProtect { start: usize, len: usize },
    /// Wake the threads that wait for a range.
    Wake { start: usize, len: usize },
    /// Copy a page in, wake the waiting threads or not, and write-protect it or not.
    Copy { source: PageSource, dst: usize, len: usize, wake: bool, wp: bool },
}

/// What a copy request came back with.
#[derive(Debug, Clone, Copy, PartialEq, Eq, Structural)]
pub enum CopyReply {
    /// That many bytes were copied.
    Copied(usize),
    /// The request was interrupted after that many bytes; a negative error code may stand in the
    /// place of the count.
    PartiallyCopied(usize),
    /// The request failed with that error code.
    CopyFailed(i32),
    /// The request failed in any other way.
    OtherError,
}

/// Why a reply to a copy request is not acceptable.
#[derive(Debug, Clone, Copy, PartialEq, Eq, Structural)]
pub enum CopyError {
    /// Interrupted before anything was copied.
    PartialTryAgain,
    /// Interrupted after that many bytes.
    Partial(usize),
    /// Failed with that error code.
    Failed(i32),
    /// Failed in any other way.
    Other,
}

/// A negated error code, cast to an unsigned count: the two's complement of the code.
pub open spec fn negated(errno: i32) -> int {
    usize::MAX + 1 - errno
}

/// The byte that a source page repeats.
pub open spec fn source_byte(source: PageSource) -> u8 {
    match source {
        PageSource::Zeroes => 0,
        PageSource::Pattern => 0x42,
    }
}

/// The request that copies a whole page to the address and wakes the threads that wait for it.
pub open spec fn copy_op(mmap: Mmap, source: PageSource, fault_addr: usize, wp: bool) -> UffdOp {
    UffdOp::Copy { source, dst: fault_addr, len: mmap.page_size, wake: true, wp }
}

/// The requests that provide a write-protected page of zeroes at the address. A page of 4 KiB is
/// mapped with the waiting threads left asleep, protected, and only then are they woken; any other
/// page is copied in, already protected.
pub open spec fn zeropage_ops(mmap: Mmap, fault_addr: usize) -> Seq<UffdOp> {
    if mmap.page_size == PAGE_SZ_4K {
        seq![
            UffdOp::Zeropage { start: fault_addr, len: PAGE_SZ_4K, wake: false },
            UffdOp::WriteProtect { start: fault_addr, len: PAGE_SZ_4K },
            UffdOp::Wake { start: fault_addr, len: PAGE_SZ_4K },
        ]
    } else {
        seq![copy_op(mmap, PageSource::Zeroes, fault_addr, true)]
    }
}

/// The requests that carry out a response.
pub open spec fn response_ops(mmap: Mmap, response: Response) -> Seq<UffdOp> {
    match response {
        Response::Skip | Response::AlreadyFaulted => seq![],
        Response::ZeroPage { addr } => zeropage_ops(mmap, addr),
        Response::CopyPage { addr, wp } => seq![copy_op(mmap, PageSource::Pattern, addr, wp)],
    }
}

/// The verdict on a reply: what was copied whole, or was there already, is accepted.
pub open spec fn copy_verdict(reply: CopyReply) -> Result<(), CopyError> {
    match reply {
        CopyReply::Copied(_) => Ok(()),
        CopyReply::PartiallyCopied(bytes) => if bytes == negated(crate::sys::eagain()) {
            Err(CopyError::PartialTryAgain)
        } else {
            Err(CopyError::Partial(bytes))
        },
        CopyReply::CopyFailed(errno) => if errno == crate::sys::eexist() {
            Ok(())
        } else {
            Err(CopyError::Failed(errno))
        },
        CopyReply::OtherError => Err(CopyError::Other),
    }
}

/// What is said of a copy that was interrupted. Of one that failed, the system's own error is told.
pub open spec fn copy_error_text(error: CopyError) -> Option<Seq<char>> {
    match error {
        CopyError::PartialTryAgain => Some("Got a PartialCopy error with -EAGAIN"@),
        CopyError::Partial(bytes) => Some(
            "Got a PartialCopy error. Total bytes copied: "@ + crate::text::decimal(bytes as nat)
                + " bytes."@,
        ),
        CopyError::Failed(_) | CopyError::Other => None,
    }
}

impl CopyError {
    /// What is said of a copy that was interrupted; nothing of one that failed.
    pub fn text(&self) -> (text: Option<String>)
        ensures
            match copy_error_text(*self) {
                Some(said) => text is Some && text->Some_0@ == said,
                None => text is None,
            },
    {
        match self {
            CopyError::PartialTryAgain => Some("Got a PartialCopy error with -EAGAIN".to_owned()),
            CopyError::Partial(bytes) => {
                let mut text = "Got a PartialCopy error. Total bytes copied: ".to_owned();
                append_decimal(&mut text, *bytes as u64);
                text.append(" bytes.");
                Some(text)
            },
            CopyError::Failed(_) | CopyError::Other => None,
        }
    }
}

impl PageSource {
    /// The contents of the source page, for pages of the given size.
    pub fn page(&self, len: usize) -> (page: Vec<u8>)
        ensures
            page@ == Seq::new(len as nat, |i: int| source_byte(*self)),
    {
        let byte: u8 = match self {
            PageSource::Zeroes => 0,
            PageSource::Pattern => 0x42,
        };
        vec![byte; len]
    }
}

/// The requests that provide a write-protected page of zeroes at the faulting address.
pub fn handle_zeropage(mmap: &Mmap, fault_addr: usize) -> (ops: Vec<UffdOp>)
    ensures
        ops@ == zeropage_ops(*mmap, fault_addr),
{
    if mmap.page_size == PAGE_SZ_4K {
        vec![
            UffdOp::Zeropage { start: fault_addr, len: PAGE_SZ_4K, wake: false },
            UffdOp::WriteProtect { start: fault_addr, len: PAGE_SZ_4K },
            UffdOp::Wake { start: fault_addr, len: PAGE_SZ_4K },
        ]
    } else {
        vec![handle_copy(mmap, PageSource::Zeroes, fault_addr, true)]
    }
}

/// The request that copies a source page to the faulting address.
pub fn handle_copy(mmap: &Mmap, source: PageSource, fault_addr: usize, wp: bool) -> (op: UffdOp)
    ensures
        op == copy_op(*mmap, source, fault_addr, wp),
{
    UffdOp::Copy { source, dst: fault_addr, len: mmap.page_size, wake: true, wp }
}

/// The requests that carry out a response.
pub fn respond(mmap: &Mmap, response: Response) -> (ops: Vec<UffdOp>)
    ensures
        ops@ == response_ops(*mmap, response),
{
    match response {
        Response::Skip | Response::AlreadyFaulted => Vec::new(),
        Response::ZeroPage { addr } => handle_zeropage(mmap, addr),
        Response::CopyPage { addr, wp } => vec![handle_copy(mmap, PageSource::Pattern, addr, wp)],
    }
}

/// Judges the reply to a copy request.
pub fn check_copy(reply: CopyReply) -> (verdict: Result<(), CopyError>)
    ensures
        verdict == copy_verdict(reply),
{
    match reply {
        CopyReply::Copied(_) => Ok(()),
        CopyReply::PartiallyCopied(bytes) => {
            let try_again: usize = usize::MAX - (libc_eagain() as usize - 1);
            if bytes == try_again {
                Err(CopyError::PartialTryAgain)
            } else {
                Err(CopyError::Partial(bytes))
            }
        },
        CopyReply::CopyFailed(errno) => if errno == libc_eexist() {
            Ok(())
        } else {
            Err(CopyError::Failed(errno))
        },
        CopyReply::OtherError => Err(CopyError::Other),
    }
}

} // verus!
