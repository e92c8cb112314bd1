//! Setting up a region: its settings, and the system calls that map it.
//!
//! [`MmapBuilder::build`] makes a [`Build`], which tells one system call at a time and takes the
//! value that came back.
use vstd::prelude::*;
use crate::mmap::{Mmap, NR_PAGES, PAGE_SZ_2M, PAGE_SZ_4K};
use crate::path::backing_file;
use crate::sys::{
    libc_map_anonymous, libc_map_failed, libc_map_huge_2mb, libc_map_hugetlb, libc_map_private,
    libc_map_shared, libc_o_creat, libc_o_excl, libc_o_rdwr, libc_prot_read, libc_prot_write,
};

verus! {

/// The settings of a region.
pub struct MmapBuilder {
    flags: i32,
    prot: i32,
    page_size: usize,
    hugetlbfs_path: Option<String>,
}

/// How far a build has come, and the descriptor of the file if it is open.
#[derive(Debug, Clone, Copy, PartialEq, Eq, Structural)]
pub enum Stage {
    /// The file is to be created.
    Opening,
    /// The file is to be given its size.
    Sizing { fd: i32 },
    /// The name of the file is to be removed.
    Unlinking { fd: i32 },
    /// The region is to be mapped.
    Mapping { file: Option<i32> },
    /// The build has failed, and the file is to be closed.
    Closing { fd: i32 },
    /// The build has failed.
    Failed,
    /// The region is mapped.
    Mapped { addr: usize, file: Option<i32> },
}

/// What is to be done next for a build.
#[derive(Debug, PartialEq, Eq)]
pub enum BuildCall {
    /// `open`.
    Open { path: String, flags: i32, mode: u32 },
    /// `ftruncate`.
    Ftruncate { fd: i32, size: i64 },
    /// `unlink`, whose reply does not matter.
    Unlink { path: String },
    /// `mmap`, at an address of the system's choice. Without a file, `fd` is -1.
    Mmap { len: usize, prot: i32, flags: i32, fd: i32, offset: i64 },
    /// `close`, whose reply does not matter.
    Close { fd: i32 },
    /// Nothing: the build has failed, and the last error of the system says why.
    LastOsError,
    /// Nothing: the region is ready.
    Ready(Mmap),
}

/// A build under way.
pub struct Build {
    /// The path of the file behind the region, if there is to be one.
    pub file: Option<String>,
    pub len: usize,
    pub page_size: usize,
    pub prot: i32,
    pub flags: i32,
    pub stage: Stage,
}

/// The stage that follows when a call other than `mmap` has returned `ret`.
pub open spec fn after_status(stage: Stage, ret: i32) -> Stage {
    match stage {
        Stage::Opening => if ret < 0 {
            Stage::Failed
        } else {
            Stage::Sizing { fd: ret }
        },
        Stage::Sizing { fd } => if ret < 0 {
            Stage::Closing { fd }
        } else {
            Stage::Unlinking { fd }
        },
        Stage::Unlinking { fd } => Stage::Mapping { file: Some(fd) },
        Stage::Closing { .. } => Stage::Failed,
        _ => stage,
    }
}

/// The stage that follows when `mmap` has returned `addr`.
pub open spec fn after_map(stage: Stage, addr: usize) -> Stage {
    match stage {
        Stage::Mapping { file } => if addr != crate::sys::map_failed() {
            Stage::Mapped { addr, file }
        } else {
            match file {
                Some(fd) => Stage::Closing { fd },
                None => Stage::Failed,
            }
        },
        _ => stage,
    }
}

/// The call that a build is waiting for.
pub open spec fn call_of(build: Build) -> BuildCall {
    match build.stage {
        Stage::Opening => BuildCall::Open {
            path: build.file->Some_0,
            flags: crate::sys::o_creat() | crate::sys::o_rdwr() | crate::sys::o_excl(),
            mode: 0o600,
        },
        Stage::Sizing { fd } => BuildCall::Ftruncate { fd, size: build.len as i64 },
        Stage::Unlinking { fd: _ } => BuildCall::Unlink { path: build.file->Some_0 },
        Stage::Mapping { file } => BuildCall::Mmap {
            len: build.len,
            prot: build.prot,
            flags: build.flags,
            fd: match file {
                Some(fd) => fd,
                None => (-1) as i32,
            },
            offset: 0,
        },
        Stage::Closing { fd } => BuildCall::Close { fd },
        Stage::Failed => BuildCall::LastOsError,
        Stage::Mapped { addr, file } => BuildCall::Ready(
            Mmap { addr, len: build.len, page_size: build.page_size, fd: file },
        ),
    }
}

impl MmapBuilder {
    /// Pages have one of the two sizes.
    #[verifier::type_invariant]
    spec fn inv(self) -> bool {
        self.page_size == PAGE_SZ_4K || self.page_size == PAGE_SZ_2M
    }

    /// The flags for `mmap`.
    pub closed spec fn flags(&self) -> i32 {
        self.flags
    }

    /// The protection for `mmap`.
    pub closed spec fn prot(&self) -> i32 {
        self.prot
    }

    /// The size of a page.
    pub closed spec fn page_size(&self) -> usize {
        self.page_size
    }

    /// The directory, on a hugetlbfs mount, in which the file behind the region is created.
    pub closed spec fn hugetlbfs_path(&self) -> Option<Seq<char>> {
        match self.hugetlbfs_path {
            Some(path) => Some(path@),
            None => None,
        }
    }

    /// The settings of a private region of 4 KiB pages that no file backs.
    pub fn new() -> (builder: MmapBuilder)
        ensures
            builder.flags() == crate::sys::map_anonymous() | crate::sys::map_private(),
            builder.prot() == crate::sys::prot_read() | crate::sys::prot_write(),
            builder.page_size() == PAGE_SZ_4K,
            builder.hugetlbfs_path() is None,
    {
        MmapBuilder {
            flags: libc_map_anonymous() | libc_map_private(),
            prot: libc_prot_read() | libc_prot_write(),
            page_size: PAGE_SZ_4K,
            hugetlbfs_path: None,
        }
    }

    /// Asks for huge pages.
    pub fn with_huge_pages(self) -> (builder: MmapBuilder)
        ensures
            builder.flags() == self.flags() | (crate::sys::map_hugetlb()
                | crate::sys::map_huge_2mb()),
            builder.prot() == self.prot(),
            builder.page_size() == PAGE_SZ_2M,
            builder.hugetlbfs_path() == self.hugetlbfs_path(),
    {
        MmapBuilder {
            flags: self.flags | (libc_map_hugetlb() | libc_map_huge_2mb()),
            prot: self.prot,
            page_size: PAGE_SZ_2M,
            hugetlbfs_path: self.hugetlbfs_path,
        }
    }

    /// Asks for a file on a hugetlbfs mount behind the region. Such a file has huge pages.
    pub fn with_hugetlbfs(self, path: String) -> (builder: MmapBuilder)
        ensures
            builder.flags() == crate::sys::map_shared(),
            builder.prot() == self.prot(),
            builder.page_size() == PAGE_SZ_2M,
            builder.hugetlbfs_path() == Some(path@),
    {
        MmapBuilder {
            flags: libc_map_shared(),
            prot: self.prot,
            page_size: PAGE_SZ_2M,
            hugetlbfs_path: Some(path),
        }
    }

    /// Starts the build, in the process with the given number. The path of the directory, if there
    /// is one, must hold no NUL.
    pub fn build(self, pid: u32) -> (build: Build)
        requires
            self.hugetlbfs_path() matches Some(dir) ==> crate::path::no_nul(dir),
        ensures
            build.wf(),
            build.page_size == self.page_size(),
            build.len == NR_PAGES * self.page_size(),
            build.prot == self.prot(),
            build.flags == self.flags(),
            match self.hugetlbfs_path() {
                Some(dir) => {
                    &&& build.stage == Stage::Opening
                    &&& build.file is Some
                    &&& build.file->Some_0@ == crate::path::backing_path(dir, pid)
                },
                None => {
                    &&& build.stage == Stage::Mapping { file: None }
                    &&& build.file is None
                },
            },
    {
        proof {
            use_type_invariant(&self);
            if let Some(dir) = self.hugetlbfs_path() {
                crate::path::lemma_backing_path_no_nul(dir, pid);
            }
        }
        let len: usize = NR_PAGES * self.page_size;
        match self.hugetlbfs_path {
            Some(dir) => Build {
                file: Some(backing_file(dir.as_str(), pid)),
                len,
                page_size: self.page_size,
                prot: self.prot,
                flags: self.flags,
                stage: Stage::Opening,
            },
            None => Build {
                file: None,
                len,
                page_size: self.page_size,
                prot: self.prot,
                flags: self.flags,
                stage: Stage::Mapping { file: None },
            },
        }
    }
}

impl Build {
    /// The region is a fixed number of pages of one of the two sizes, a file that is still to be
    /// worked on has a path, no path holds a NUL, and a mapped region lies within the address
    /// space.
    pub open spec fn wf(&self) -> bool {
        &&& self.page_size == PAGE_SZ_4K || self.page_size == PAGE_SZ_2M
        &&& self.len == NR_PAGES * self.page_size
        &&& self.stage is Opening || self.stage is Sizing || self.stage is Unlinking
            ==> self.file is Some
        &&& self.file matches Some(file) ==> crate::path::no_nul(file@)
        &&& self.stage matches Stage::Mapped { addr, .. } ==> addr + self.len <= usize::MAX
    }

    /// The same build at another stage.
    pub open spec fn at(self, stage: Stage) -> Build {
        Build { stage, ..self }
    }

    /// What is to be done next.
    pub fn call(&self) -> (call: BuildCall)
        requires
            self.wf(),
        ensures
            call == call_of(*self),
            call matches BuildCall::Open { path, .. } ==> crate::path::no_nul(path@),
            call matches BuildCall::Unlink { path } ==> crate::path::no_nul(path@),
            call matches BuildCall::Ready(mmap) ==> mmap.wf() && mmap.nr_pages() == NR_PAGES,
    {
        assert(self.len as int / self.page_size as int == NR_PAGES) by (nonlinear_arith)
            requires
                0 < self.page_size,
                self.len == NR_PAGES * self.page_size,
        ;
        match self.stage {
            Stage::Opening => BuildCall::Open {
                path: self.path(),
                flags: libc_o_creat() | libc_o_rdwr() | libc_o_excl(),
                mode: 0o600,
            },
            Stage::Sizing { fd } => BuildCall::Ftruncate { fd, size: self.len as i64 },
            Stage::Unlinking { .. } => BuildCall::Unlink { path: self.path() },
            Stage::Mapping { file } => BuildCall::Mmap {
                len: self.len,
                prot: self.prot,
                flags: self.flags,
                fd: match file {
                    Some(fd) => fd,
                    None => -1,
                },
                offset: 0,
            },
            Stage::Closing { fd } => BuildCall::Close { fd },
            Stage::Failed => BuildCall::LastOsError,
            Stage::Mapped { addr, file } => BuildCall::Ready(
                Mmap { addr, len: self.len, page_size: self.page_size, fd: file },
            ),
        }
    }

    /// A copy of the path of the file.
    fn path(&self) -> (path: String)
        requires
            self.file is Some,
        ensures
            path == self.file->Some_0,
    {
        match &self.file {
            Some(file) => file.clone(),
            None => String::new(),
        }
    }

    /// Takes what `open`, `ftruncate`, `unlink` or `close` returned.
    pub fn status(&mut self, ret: i32)
        requires
            old(self).wf(),
            old(self).stage is Opening || old(self).stage is Sizing || old(self).stage is Unlinking
                || old(self).stage is Closing,
        ensures
            final(self).wf(),
            *final(self) == old(self).at(after_status(old(self).stage, ret)),
    {
        match self.stage {
            Stage::Opening => {
                self.stage = if ret < 0 {
                    Stage::Failed
                } else {
                    Stage::Sizing { fd: ret }
                };
            },
            Stage::Sizing { fd } => {
                self.stage = if ret < 0 {
                    Stage::Closing { fd }
                } else {
                    Stage::Unlinking { fd }
                };
            },
            Stage::Unlinking { fd } => {
                self.stage = Stage::Mapping { file: Some(fd) };
            },
            _ => {
                self.stage = Stage::Failed;
            },
        }
    }

    /// Takes the address that `mmap` returned.
    pub fn mapped(&mut self, addr: usize)
        requires
            old(self).wf(),
            old(self).stage is Mapping,
            addr == crate::sys::map_failed() || addr + old(self).len <= usize::MAX,
        ensures
            final(self).wf(),
            *final(self) == old(self).at(after_map(old(self).stage, addr)),
    {
        if let Stage::Mapping { file } = self.stage {
            if addr != libc_map_failed() {
                self.stage = Stage::Mapped { addr, file };
            } else {
                self.stage = match file {
                    Some(fd) => Stage::Closing { fd },
                    None => Stage::Failed,
                };
            }
        }
    }
}

} // verus!
