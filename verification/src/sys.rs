//! The numbers that the system-call interface gives to flags, advice and error codes.
//!
//! Each number is taken from the `libc` crate through a function that Verus does not read. The
//! values stated here are those of `libc` for x86-64 Linux with GNU libc.
use vstd::prelude::*;

verus! {

/// Pages may be read.
pub open spec fn prot_read() -> i32 {
    1
}

/// Pages may be written.
pub open spec fn prot_write() -> i32 {
    2
}

/// Updates to the mapping reach the mapped file.
pub open spec fn map_shared() -> i32 {
    0x01
}

/// The mapping is private to the process.
pub open spec fn map_private() -> i32 {
    0x02
}

/// The mapping is not backed by a file.
pub open spec fn map_anonymous() -> i32 {
    0x20
}

/// The mapping uses huge pages.
pub open spec fn map_hugetlb() -> i32 {
    0x4_0000
}

/// The huge pages are of two megabytes: the binary logarithm of the size, in the bits from 26 up.
pub open spec fn map_huge_2mb() -> i32 {
    0x5400_0000
}

/// The address that a failed `mmap` returns.
pub open spec fn map_failed() -> usize {
    usize::MAX
}

/// The file is created if it does not exist.
pub open spec fn o_creat() -> i32 {
    0o100
}

/// The file is opened for reading and writing.
pub open spec fn o_rdwr() -> i32 {
    0o2
}

/// The call fails if the file exists already.
pub open spec fn o_excl() -> i32 {
    0o200
}

/// Error code: the file, or the page, exists already.
pub open spec fn eexist() -> i32 {
    17
}

/// Error code: try again.
pub open spec fn eagain() -> i32 {
    11
}

/// Advice: the pages are not needed any more.
pub open spec fn madv_dontneed() -> i32 {
    4
}

/// Advice: fault the pages in for reading.
pub open spec fn madv_populate_read() -> i32 {
    22
}

/// `libc::PROT_READ`, trusted to be 1.
#[verifier::external_body]
pub(crate) fn libc_prot_read() -> (value: i32)
    ensures
        value == prot_read(),
{
    libc::PROT_READ
}

/// `libc::PROT_WRITE`, trusted to be 2.
#[verifier::external_body]
pub(crate) fn libc_prot_write() -> (value: i32)
    ensures
        value == prot_write(),
{
    libc::PROT_WRITE
}

/// `libc::MAP_SHARED`, trusted to be 1.
#[verifier::external_body]
pub(crate) fn libc_map_shared() -> (value: i32)
    ensures
        value == map_shared(),
{
    libc::MAP_SHARED
}

/// `libc::MAP_PRIVATE`, trusted to be 2.
#[verifier::external_body]
pub(crate) fn libc_map_private() -> (value: i32)
    ensures
        value == map_private(),
{
    libc::MAP_PRIVATE
}

/// `libc::MAP_ANONYMOUS`, trusted to be 0x20.
#[verifier::external_body]
pub(crate) fn libc_map_anonymous() -> (value: i32)
    ensures
        value == map_anonymous(),
{
    libc::MAP_ANONYMOUS
}

/// `libc::MAP_HUGETLB`, trusted to be 0x40000.
#[verifier::external_body]
pub(crate) fn libc_map_hugetlb() -> (value: i32)
    ensures
        value == map_hugetlb(),
{
    libc::MAP_HUGETLB
}

/// `libc::MAP_HUGE_2MB`, trusted to be 21 shifted left by 26.
#[verifier::external_body]
pub(crate) fn libc_map_huge_2mb() -> (value: i32)
    ensures
        value == map_huge_2mb(),
{
    libc::MAP_HUGE_2MB
}

/// `libc::MAP_FAILED`, a pointer whose address is trusted to have every bit set.
#[verifier::external_body]
pub(crate) fn libc_map_failed() -> (value: usize)
    ensures
        value == map_failed(),
{
    libc::MAP_FAILED as usize
}

/// `libc::O_CREAT`, trusted to be 64.
#[verifier::external_body]
pub(crate) fn libc_o_creat() -> (value: i32)
    ensures
        value == o_creat(),
{
    libc::O_CREAT
}

/// `libc::O_RDWR`, trusted to be 2.
#[verifier::external_body]
pub(crate) fn libc_o_rdwr() -> (value: i32)
    ensures
        value == o_rdwr(),
{
    libc::O_RDWR
}

/// `libc::O_EXCL`, trusted to be 128.
#[verifier::external_body]
pub(crate) fn libc_o_excl() -> (value: i32)
    ensures
        value == o_excl(),
{
    libc::O_EXCL
}

/// `libc::EEXIST`, trusted to be 17.
#[verifier::external_body]
pub(crate) fn libc_eexist() -> (value: i32)
    ensures
        value == eexist(),
{
    libc::EEXIST
}

/// `libc::EAGAIN`, trusted to be 11.
#[verifier::external_body]
pub(crate) fn libc_eagain() -> (value: i32)
    ensures
        value == eagain(),
{
    libc::EAGAIN
}

/// `libc::MADV_DONTNEED`, trusted to be 4.
#[verifier::external_body]
pub(crate) fn libc_madv_dontneed() -> (value: i32)
    ensures
        value == madv_dontneed(),
{
    libc::MADV_DONTNEED
}

/// `libc::MADV_POPULATE_READ`, trusted to be 22.
#[verifier::external_body]
pub(crate) fn libc_madv_populate_read() -> (value: i32)
    ensures
        value == madv_populate_read(),
{
    libc::MADV_POPULATE_READ
}

} // verus!
