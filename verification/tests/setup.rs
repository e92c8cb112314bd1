use uffd_tests::builder::{Build, BuildCall, MmapBuilder, Stage};
use uffd_tests::mmap::{Mmap, PAGE_SZ_2M, PAGE_SZ_4K};
use uffd_tests::path::backing_file;
use uffd_tests::uffd::{
    Command, FeatureFlags, IoctlFlags, Message, Range, RegisterMode, SetupStep, UffdHandler,
    UffdManager,
};
use uffd_tests::workload::{
    configure, scenario, start_delay_ms, write_payload, Access, Task, MAX_DELAY_MS,
};

fn file_build() -> Build {
    MmapBuilder::new().with_hugetlbfs("/mnt/huge".to_string()).build(4711)
}

fn path() -> String {
    "/mnt/huge/uffd-test-4711".to_string()
}

#[test]
fn anonymous_mapping() {
    let mut build = MmapBuilder::new().build(1);
    assert_eq!(
        build.call(),
        BuildCall::Mmap {
            len: 40960,
            prot: libc::PROT_READ | libc::PROT_WRITE,
            flags: libc::MAP_ANONYMOUS | libc::MAP_PRIVATE,
            fd: -1,
            offset: 0,
        }
    );
    assert_eq!(build.prot, 3);
    assert_eq!(build.flags, 0x22);
    build.mapped(0x7000_0000);
    assert_eq!(
        build.call(),
        BuildCall::Ready(Mmap { addr: 0x7000_0000, len: 40960, page_size: 4096, fd: None })
    );
}

#[test]
fn anonymous_huge_mapping() {
    let build = MmapBuilder::new().with_huge_pages().build(1);
    assert_eq!(build.page_size, PAGE_SZ_2M);
    assert_eq!(build.len, 20_971_520);
    assert_eq!(
        build.flags,
        libc::MAP_ANONYMOUS | libc::MAP_PRIVATE | libc::MAP_HUGETLB | libc::MAP_HUGE_2MB
    );
    assert_eq!(build.flags, 0x5404_0022);
    assert_eq!(build.stage, Stage::Mapping { file: None });
}

#[test]
fn failed_anonymous_mapping() {
    let mut build = MmapBuilder::new().build(1);
    build.mapped(libc::MAP_FAILED as usize);
    assert_eq!(build.call(), BuildCall::LastOsError);
}

#[test]
fn file_mapping() {
    let mut build = file_build();
    assert_eq!(
        build.call(),
        BuildCall::Open {
            path: path(),
            flags: libc::O_CREAT | libc::O_RDWR | libc::O_EXCL,
            mode: 0o600,
        }
    );
    build.status(5);
    assert_eq!(build.call(), BuildCall::Ftruncate { fd: 5, size: 20_971_520 });
    build.status(0);
    assert_eq!(build.call(), BuildCall::Unlink { path: path() });
    build.status(0);
    assert_eq!(
        build.call(),
        BuildCall::Mmap {
            len: 20_971_520,
            prot: libc::PROT_READ | libc::PROT_WRITE,
            flags: libc::MAP_SHARED,
            fd: 5,
            offset: 0,
        }
    );
    build.mapped(0x7000_0000);
    assert_eq!(
        build.call(),
        BuildCall::Ready(Mmap {
            addr: 0x7000_0000,
            len: 20_971_520,
            page_size: PAGE_SZ_2M,
            fd: Some(5),
        })
    );
}

#[test]
fn failed_open() {
    let mut build = file_build();
    build.status(-1);
    assert_eq!(build.call(), BuildCall::LastOsError);
}

#[test]
fn descriptor_zero_is_a_descriptor() {
    let mut build = file_build();
    build.status(0);
    assert_eq!(build.call(), BuildCall::Ftruncate { fd: 0, size: 20_971_520 });
}

#[test]
fn failed_sizing_closes_the_file() {
    let mut build = file_build();
    build.status(5);
    build.status(-1);
    assert_eq!(build.call(), BuildCall::Close { fd: 5 });
    build.status(0);
    assert_eq!(build.call(), BuildCall::LastOsError);
}

#[test]
fn failed_unlink_does_not_matter() {
    let mut build = file_build();
    build.status(5);
    build.status(0);
    build.status(-1);
    assert_eq!(build.stage, Stage::Mapping { file: Some(5) });
}

#[test]
fn failed_mapping_closes_the_file() {
    let mut build = file_build();
    build.status(5);
    build.status(0);
    build.status(0);
    build.mapped(libc::MAP_FAILED as usize);
    assert_eq!(build.call(), BuildCall::Close { fd: 5 });
    build.status(-1);
    assert_eq!(build.call(), BuildCall::LastOsError);
}

#[test]
fn paths_are_joined() {
    assert_eq!(backing_file("/mnt/huge", 0), "/mnt/huge/uffd-test-0");
    assert_eq!(backing_file("/mnt/huge/", 10), "/mnt/huge/uffd-test-10");
    assert_eq!(backing_file("/", 1234567890), "/uffd-test-1234567890");
    assert_eq!(backing_file("", 4294967295), "uffd-test-4294967295");
    assert_eq!(backing_file("d\u{e9}p\u{f4}t", 9), "d\u{e9}p\u{f4}t/uffd-test-9");
}

#[test]
fn paths_are_joined_as_by_std() {
    for dir in ["", "/", "a", "a/", "/a/b", "a//"] {
        for pid in [0u32, 9, 10, 99, 100, 65536] {
            let joined = std::path::PathBuf::from(dir).join(format!("uffd-test-{}", pid));
            assert_eq!(backing_file(dir, pid), joined.to_str().unwrap());
        }
    }
}

#[test]
fn processes_do_not_share_files() {
    assert_ne!(backing_file("/mnt/huge", 1), backing_file("/mnt/huge", 11));
}

#[test]
fn directory_goes_before_huge_pages() {
    let build = configure(true, Some("/mnt/huge".to_string())).build(7);
    assert_eq!(build.flags, libc::MAP_SHARED);
    assert_eq!(build.file, Some("/mnt/huge/uffd-test-7".to_string()));
    let build = configure(true, None).build(7);
    assert_eq!(build.page_size, PAGE_SZ_2M);
    assert_eq!(build.file, None);
    let build = configure(false, None).build(7);
    assert_eq!(build.page_size, PAGE_SZ_4K);
}

#[test]
fn huge_region_is_protected_from_the_start() {
    let mmap = Mmap { addr: 0x20_0000, len: 20_971_520, page_size: PAGE_SZ_2M, fd: None };
    let setup = UffdManager::new(mmap).start();
    let region = Range { start: 0x20_0000, len: 20_971_520 };
    assert_eq!(setup.register, region);
    assert_eq!(setup.write_protect, Some(region));
    assert!(!setup.user_mode_only && setup.non_blocking && setup.close_on_exec);
    assert_eq!(
        setup.features,
        FeatureFlags { event_remove: true, missing_hugetlbfs: true, wp_async: true }
    );
    assert_eq!(setup.ioctls, IoctlFlags { register: true, unregister: true });
    assert_eq!(setup.mode, RegisterMode { missing: true, write_protect: true });
}

#[test]
fn small_region_is_not_protected_from_the_start() {
    let mmap = Mmap { addr: 0x1000, len: 40960, page_size: PAGE_SZ_4K, fd: None };
    let setup = UffdManager::new(mmap).start();
    assert_eq!(setup.register, Range { start: 0x1000, len: 40960 });
    assert_eq!(setup.write_protect, None);
}

#[test]
fn messages() {
    let handler = UffdHandler {};
    assert_eq!(handler.thaw(), Message::Continue);
    assert!(handler.wait(Message::Done));
    assert!(!handler.wait(Message::Continue));
    assert!(!handler.wait(Message::Exit));
    assert_eq!(handler.stop(), Message::Exit);
    assert_eq!(Message::Continue.command(), Some(Command::Serve));
    assert_eq!(Message::Exit.command(), Some(Command::Return));
    assert_eq!(Message::Done.command(), None);
}

#[test]
fn delays_are_short_and_vary() {
    let delays: Vec<u64> = (0..1000).map(|_| start_delay_ms()).collect();
    assert!(delays.iter().all(|delay| *delay < 10));
    assert!(delays.iter().any(|delay| *delay != delays[0]));
    assert_eq!(MAX_DELAY_MS, 10);
}

#[test]
fn payload_is_a_page_of_the_pattern() {
    let mmap = Mmap { addr: 0x1000, len: 40960, page_size: PAGE_SZ_4K, fd: None };
    assert_eq!(write_payload(&mmap), vec![0x42u8; 4096]);
}

#[test]
fn steps_of_the_program() {
    let steps = scenario();
    let read = Task { access: Access::Read, page_idx: 0 };
    let write = Task { access: Access::Write, page_idx: 0 };
    let dont_need = Task { access: Access::DontNeed, page_idx: 0 };
    assert_eq!(steps.len(), 4);
    assert_eq!(steps[0].tasks, vec![read, read, write, dont_need]);
    assert_eq!(steps[1].tasks, vec![dont_need, write]);
    assert_eq!(steps[2].tasks, vec![write]);
    assert_eq!(steps[3].tasks, vec![Task { access: Access::Read, page_idx: 1 }]);
    assert!(steps.iter().all(|step| step.title.len() == 45));
}

#[test]
fn setup_goes_step_by_step() {
    let features = FeatureFlags { event_remove: true, missing_hugetlbfs: true, wp_async: true };
    let ioctls = IoctlFlags { register: true, unregister: true };
    let mode = RegisterMode { missing: true, write_protect: true };
    let create = SetupStep::Create {
        user_mode_only: false,
        non_blocking: true,
        close_on_exec: true,
        features,
        ioctls,
    };
    let small = Mmap { addr: 0x1000, len: 40960, page_size: PAGE_SZ_4K, fd: None };
    let range = Range { start: 0x1000, len: 40960 };
    assert_eq!(
        UffdManager::new(small).start().steps(),
        vec![create, SetupStep::Register { range, mode }, SetupStep::Spawn]
    );
    let huge = Mmap { addr: 0x20_0000, len: 20_971_520, page_size: PAGE_SZ_2M, fd: None };
    let range = Range { start: 0x20_0000, len: 20_971_520 };
    assert_eq!(
        UffdManager::new(huge).start().steps(),
        vec![
            create,
            SetupStep::Register { range, mode },
            SetupStep::WriteProtect(range),
            SetupStep::Spawn,
        ]
    );
}
