use uffd_tests::mmap::{check_madvise, Madvise, Mmap, NR_PAGES, PAGE_SZ_2M, PAGE_SZ_4K};
use uffd_tests::pagemap::{entry_offset, PageInfo, PagemapEntry};

fn region() -> Mmap {
    Mmap { addr: 0x1000_0000, len: NR_PAGES * PAGE_SZ_4K, page_size: PAGE_SZ_4K, fd: None }
}

fn memory() -> Vec<u8> {
    (0..NR_PAGES * PAGE_SZ_4K).map(|i| (i / PAGE_SZ_4K) as u8 + 1).collect()
}

#[test]
fn pages_are_counted() {
    assert_eq!(region().count_pages(), 10);
    let ragged = Mmap { len: 3 * PAGE_SZ_4K - 1, ..region() };
    assert_eq!(ragged.count_pages(), 2);
}

#[test]
fn address_and_index_invert_each_other() {
    for page in 0..NR_PAGES {
        let addr = region().pm_info(page);
        assert_eq!(addr, 0x1000_0000 + page * 4096);
        assert_eq!(region().page_idx(addr), page);
    }
}

#[test]
fn index_of_huge_page() {
    let huge = Mmap { len: NR_PAGES * PAGE_SZ_2M, page_size: PAGE_SZ_2M, ..region() };
    assert_eq!(huge.page_idx(0x1000_0000 + 3 * 0x20_0000), 3);
    assert_eq!(huge.pm_info(9), 0x1000_0000 + 9 * 0x20_0000);
}

#[test]
fn index_past_the_end_is_computed_too() {
    assert_eq!(region().page_idx(0x1000_0000 + 12 * 4096), 12);
}

#[test]
fn read_copies_one_page() {
    let memory = memory();
    assert_eq!(region().read(&memory, 0), vec![1u8; PAGE_SZ_4K]);
    assert_eq!(region().read(&memory, 9), vec![10u8; PAGE_SZ_4K]);
}

#[test]
fn read_gives_back_what_was_written() {
    let mut memory = memory();
    let data: Vec<u8> = (0..PAGE_SZ_4K).map(|i| (i % 251) as u8).collect();
    region().write(&mut memory, 4, &data);
    assert_eq!(region().read(&memory, 4), data);
}

#[test]
fn write_leaves_the_other_pages() {
    let before = memory();
    let mut memory = memory();
    region().write(&mut memory, 4, &vec![0x42u8; PAGE_SZ_4K]);
    for page in (0..NR_PAGES).filter(|page| *page != 4) {
        assert_eq!(region().read(&memory, page), region().read(&before, page));
    }
    assert_eq!(memory.len(), before.len());
}

#[test]
fn the_last_write_stays() {
    let mut twice = memory();
    region().write(&mut twice, 2, &vec![7u8; PAGE_SZ_4K]);
    region().write(&mut twice, 2, &vec![8u8; PAGE_SZ_4K]);
    let mut once = memory();
    region().write(&mut once, 2, &vec![8u8; PAGE_SZ_4K]);
    assert_eq!(twice, once);
}

#[test]
fn writing_back_changes_nothing() {
    let before = memory();
    let mut memory = memory();
    let page = region().read(&memory, 5);
    region().write(&mut memory, 5, &page);
    assert_eq!(memory, before);
}

#[test]
fn pages_lie_one_after_the_other() {
    for page in 1..NR_PAGES {
        assert_eq!(region().pm_info(page - 1) + PAGE_SZ_4K, region().pm_info(page));
    }
    assert_eq!(region().pm_info(9) + PAGE_SZ_4K, region().addr + region().len);
}

#[test]
fn page_is_given_back() {
    assert_eq!(
        region().dont_need(1),
        Madvise { addr: 0x1000_1000, len: 4096, advice: 4 }
    );
    assert_eq!(region().dont_need(1).advice, libc::MADV_DONTNEED);
}

#[test]
fn page_is_populated() {
    assert_eq!(
        region().populate_read(2),
        Madvise { addr: 0x1000_2000, len: 4096, advice: 22 }
    );
    assert_eq!(region().populate_read(2).advice, libc::MADV_POPULATE_READ);
}

#[test]
fn page_map_offset_counts_small_pages() {
    assert_eq!(entry_offset(0), 0);
    assert_eq!(entry_offset(0x1000_0000), 0x8_0000);
    assert_eq!(entry_offset(0x1000_0fff), 0x8_0000);
    assert_eq!(entry_offset(0x1020_0000), 0x8_1000);
}

#[test]
fn page_map_entries_are_decoded() {
    let present = PagemapEntry { raw: 1 << 63 };
    let protected = PagemapEntry { raw: 1 << 57 };
    assert!(present.is_present() && !present.is_write_protected());
    assert!(!protected.is_present() && protected.is_write_protected());
    let noise = PagemapEntry { raw: !(1 << 63 | 1 << 57) };
    assert!(!noise.is_present() && !noise.is_write_protected());
}

#[test]
fn page_is_dirty_if_present_and_not_protected() {
    let mut entries = vec![PagemapEntry { raw: 0 }; NR_PAGES];
    entries[0].raw = 1 << 63;
    entries[1].raw = 1 << 57;
    entries[2].raw = 1 << 63 | 1 << 57;
    let infos: Vec<PageInfo> = entries.iter().map(|entry| entry.info()).collect();
    assert_eq!(infos[0], PageInfo { present: true, write_protected: false, dirty: true });
    assert_eq!(infos[1], PageInfo { present: false, write_protected: true, dirty: false });
    assert_eq!(infos[2], PageInfo { present: true, write_protected: true, dirty: false });
    assert_eq!(infos[3], PageInfo { present: false, write_protected: false, dirty: false });
}

#[test]
fn page_region_is_the_page() {
    let page = region().page_region(3);
    assert_eq!(page, Mmap { addr: 0x1000_3000, len: 4096, page_size: 4096, fd: None });
    assert_eq!(page.count_pages(), 1);
    let mut memory = memory();
    let alone = memory[3 * PAGE_SZ_4K..4 * PAGE_SZ_4K].to_vec();
    assert_eq!(page.read(&alone, 0), region().read(&memory, 3));
    page.write(&mut memory[3 * PAGE_SZ_4K..4 * PAGE_SZ_4K], 0, &vec![9u8; PAGE_SZ_4K]);
    assert_eq!(region().read(&memory, 3), vec![9u8; PAGE_SZ_4K]);
    assert_eq!(region().read(&memory, 2), vec![3u8; PAGE_SZ_4K]);
}

#[test]
fn report_has_a_line_for_each_page() {
    let three = Mmap { len: 3 * PAGE_SZ_4K, ..region() };
    let entries = [
        PagemapEntry { raw: 1 << 63 },
        PagemapEntry { raw: 1 << 63 | 1 << 57 },
        PagemapEntry { raw: 0 },
    ];
    assert_eq!(
        three.print_pm_info(&entries),
        vec![
            "PageMap info page 0: present: true write-protected: false dirty: true",
            "PageMap info page 1: present: true write-protected: true dirty: false",
            "PageMap info page 2: present: false write-protected: false dirty: false",
        ]
    );
}

#[test]
fn line_of_a_page_with_many_digits() {
    let info = PageInfo { present: false, write_protected: true, dirty: false };
    assert_eq!(
        info.line(usize::MAX),
        format!(
            "PageMap info page {}: present: false write-protected: true dirty: false",
            usize::MAX
        )
    );
}

#[test]
fn madvise_must_return_zero() {
    assert!(check_madvise(0));
    assert!(!check_madvise(-1));
    assert!(!check_madvise(1));
}
