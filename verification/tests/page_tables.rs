use dandelion_unikraft::ap_startup::{virt_to_phys, WalkStep};
use dandelion_unikraft::x86_64::{set_page_table, X86Error};

fn entry(storage: &[u8], at: usize) -> u64 {
    let mut bytes = [0u8; 8];
    bytes.copy_from_slice(&storage[at..at + 8]);
    u64::from_le_bytes(bytes)
}

/// Walks the tables in `storage`, which lies at `phys_base`, through a direct map.
fn translate(storage: &[u8], phys_base: u64, root: u64, va: u64, directmap_base: u64) -> Option<u64> {
    let mut step = virt_to_phys(va, directmap_base, root);
    loop {
        match step {
            WalkStep::Done(result) => return result,
            WalkStep::Read { walk, entry_addr } => {
                let pa = entry_addr.wrapping_sub(directmap_base);
                step = walk.resume(entry(storage, (pa - phys_base) as usize));
            }
        }
    }
}

#[test]
fn large_pages_of_a_small_context() {
    let size = 0x40_0000usize;
    let phys = 0x1000_0000u64;
    let mut storage = vec![0xAAu8; size];
    let mut stack_start = size;
    let root = set_page_table(&mut storage, &mut stack_start, size, phys, true);
    assert_eq!(root, Ok(phys + 0x3F_F000));
    assert_eq!(stack_start, size - 3 * 4096);
    // Root entry, directory pointer, two blocks of 2 MiB.
    assert_eq!(entry(&storage, size - 0x1000), (phys + 0x3F_E000) | 7);
    assert_eq!(entry(&storage, size - 0x1000 + 8), 0);
    assert_eq!(entry(&storage, size - 0x2000), (phys + 0x3F_D000) | 7);
    assert_eq!(entry(&storage, size - 0x3000), phys | 0x87);
    assert_eq!(entry(&storage, size - 0x3000 + 8), (phys + 0x20_0000) | 0x87);
    assert_eq!(entry(&storage, size - 0x3000 + 16), 0);
    // Nothing below the tables is touched.
    assert!(storage[..stack_start].iter().all(|b| *b == 0xAA));
}

#[test]
fn large_pages_translate_to_the_context() {
    let size = 0x40_0000usize;
    let phys = 0x1000_0000u64;
    let mut storage = vec![0u8; size];
    let mut stack_start = size;
    let root = set_page_table(&mut storage, &mut stack_start, size, phys, true).unwrap();
    let base = 0xffff_ff80_0000_0000u64;
    for va in [0u64, 1, 0x1234, 0x20_0000, 0x3F_FFFF] {
        assert_eq!(translate(&storage, phys, root, va, base), Some(phys + va));
        assert_eq!(translate(&storage, phys, root, va, 0), Some(phys + va));
    }
    for va in [0x40_0000u64, 0x4000_0000, 0x80_0000_0000, 0xFFFF_FFFF_FFFF] {
        assert_eq!(translate(&storage, phys, root, va, base), None);
    }
}

#[test]
fn small_pages_translate_page_by_page() {
    let size = 0x30_1800usize;
    let top = 0x30_1000usize;
    let phys = 0x7000u64;
    let mut storage = vec![0xFFu8; size];
    let mut stack_start = top;
    let root = set_page_table(&mut storage, &mut stack_start, size, phys, false).unwrap();
    // Root, pointer table, one directory, two page tables.
    assert_eq!(stack_start, top - 5 * 4096);
    assert_eq!(root, phys + top as u64 - 4096);
    assert_eq!(translate(&storage, phys, root, 0, 0), Some(phys));
    assert_eq!(translate(&storage, phys, root, 0x1FFFFF, 0), Some(phys + 0x1FFFFF));
    assert_eq!(translate(&storage, phys, root, 0x200000, 0), Some(phys + 0x200000));
    // The last page is mapped whole, the one after it is not.
    assert_eq!(translate(&storage, phys, root, 0x301FFF, 0), Some(phys + 0x301FFF));
    assert_eq!(translate(&storage, phys, root, 0x302000, 0), None);
}

#[test]
fn several_gigabytes_get_a_directory_each() {
    let mut storage = vec![0u8; 0x10_0000];
    let mut stack_start = 0x10_0000usize;
    let size = 0x9000_0000usize;
    let root = set_page_table(&mut storage, &mut stack_start, size, 0x20_0000, true).unwrap();
    assert_eq!(stack_start, 0x10_0000 - 5 * 4096);
    assert_eq!(translate(&storage, 0x20_0000, root, 0x8FFF_FFFF, 0), Some(0x901F_FFFF));
    assert_eq!(translate(&storage, 0x20_0000, root, 0x9000_0000, 0), None);
}

#[test]
fn misaligned_memory_is_not_mapped_onto_itself() {
    // Large pages need a physical address that is a multiple of 2 MiB.
    let mut storage = vec![0u8; 0x20_0000];
    let mut stack_start = 0x20_0000usize;
    let root = set_page_table(&mut storage, &mut stack_start, 0x20_0000, 0x1000, true).unwrap();
    assert_eq!(translate(&storage, 0x1000, root, 0, 0), Some(0));
}

#[test]
fn empty_context_maps_nothing() {
    let mut storage = vec![1u8; 0x4000];
    let mut stack_start = 0x4000usize;
    let root = set_page_table(&mut storage, &mut stack_start, 0, 0, false).unwrap();
    assert_eq!(stack_start, 0x1000);
    assert_eq!(translate(&storage, 0, root, 0, 0), None);
}

#[test]
fn too_little_room_for_tables() {
    for pages in 0..3usize {
        let mut storage = vec![0x55u8; 0x4000];
        let mut stack_start = pages * 4096 + 100;
        let before = stack_start;
        let result = set_page_table(&mut storage, &mut stack_start, 0x20_0000, 0, true);
        assert_eq!(result, Err(X86Error::ContextTooSmall));
        assert_eq!(stack_start, 100);
        assert!(storage[..100].iter().all(|b| *b == 0x55));
        assert!(storage[before..].iter().all(|b| *b == 0x55));
        if pages > 0 {
            // The root entry is set only where its table was taken.
            let link = entry(&storage, before - 4096);
            assert_eq!(link, if pages > 1 { (before as u64 - 8192) | 7 } else { 0 });
        }
    }
}

#[test]
fn walk_of_a_gigabyte_page() {
    let step = virt_to_phys(0x1234_5678_9ABC, 0x1000, 0x5FFF);
    let (walk, entry_addr) = match step {
        WalkStep::Read { walk, entry_addr } => (walk, entry_addr),
        WalkStep::Done(_) => panic!("no entry was read"),
    };
    // Root at 0x5000, seen through the direct map at 0x6000; index 0x24.
    assert_eq!(entry_addr, 0x6000 + 8 * 0x24);
    let (walk, entry_addr) = match walk.resume(0x8000_0000_0000_9027) {
        WalkStep::Read { walk, entry_addr } => (walk, entry_addr),
        WalkStep::Done(_) => panic!("no entry was read"),
    };
    assert_eq!(entry_addr, 0xA000 + 8 * 0xD1);
    assert_eq!(walk.resume(0x1_4000_0083), WalkStep::Done(Some(0x1_5678_9ABC)));
    assert_eq!(walk.resume(0x1_4000_0082), WalkStep::Done(None));
}

#[test]
fn no_table_is_touched_without_a_page() {
    let mut storage = [3u8; 50];
    let mut stack_start = 4095usize;
    let result = set_page_table(&mut storage, &mut stack_start, usize::MAX, u64::MAX, false);
    assert_eq!(result, Err(X86Error::ContextTooSmall));
    assert_eq!(stack_start, 4095);
    assert_eq!(storage, [3u8; 50]);
}

/// The entries that the translation of an address goes through.
fn entries_on_the_way(storage: &[u8], phys_base: u64, root: u64, va: u64) -> Vec<u64> {
    let mut entries = vec![];
    let mut step = virt_to_phys(va, 0, root);
    while let WalkStep::Read { walk, entry_addr } = step {
        let value = entry(storage, (entry_addr - phys_base) as usize);
        entries.push(value);
        step = walk.resume(value);
    }
    entries
}

#[test]
fn user_code_may_use_every_page() {
    for large in [true, false] {
        let size = 0x40_0000usize;
        let mut storage = vec![0u8; size];
        let mut stack_start = size;
        let root = set_page_table(&mut storage, &mut stack_start, size, 0x20_0000, large).unwrap();
        for va in [0u64, 0x1FFFFF, 0x200000, 0x3FFFFF] {
            let entries = entries_on_the_way(&storage, 0x20_0000, root, va);
            assert_eq!(entries.len(), if large { 3 } else { 4 });
            assert!(entries.iter().all(|e| e & 7 == 7 && e >> 63 == 0));
            assert_eq!(entries[2] & 0x80 != 0, large);
        }
    }
}
