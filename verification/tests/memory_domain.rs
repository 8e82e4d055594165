use dandelion_unikraft::errors::{DandelionError, DomainError};
use dandelion_unikraft::memory_domain::{
    bytes_to_unikraft_transfer, unikraft_transfer, MemoryResource, UnikraftContext, UnikraftLayout,
    UnikraftMemoryDomain, DEFAULT_CONTEXT_SIZE, DIRECTMAP_BASE, MIN_CONTEXT_SIZE,
};

fn small_context(size: usize, address: u64) -> UnikraftContext {
    let mut layout = UnikraftLayout::default();
    layout.total_size = size;
    UnikraftContext::new(layout, vec![0u8; size + 4095], address)
}

#[test]
fn layout_of_the_default_size() {
    let layout = UnikraftLayout::calculate(DEFAULT_CONTEXT_SIZE).unwrap();
    assert_eq!(layout.size(), 0x400_0000);
    assert_eq!(layout.page_table_offset, 0x3FF_9000);
    assert_eq!(layout.trampoline_offset, 0x3FF_7000);
    assert_eq!(layout.k2u_entry_offset, 0x3FF_7000);
    assert_eq!(layout.u2k_entry_offset, 0x3FF_8000);
    assert_eq!(layout.interrupt_stack_offset, 0x3FF_6000);
    assert_eq!(layout.idt_offset, 0x3FF_5DF0);
    assert_eq!(layout.tss_offset, 0x3FF_5D88);
    assert_eq!(layout.gdt_offset, 0x3FF_5D48);
    assert_eq!(layout.handler_offset, 0x3FF_4000);
    assert_eq!(layout.user_stack_top, 0x3FF_4000);
    assert_eq!(layout.user_space_size(), 0x3FF_4000);
    assert_eq!(layout.pml4_phys, 0);
}

#[test]
fn layout_of_an_odd_size_is_aligned() {
    let layout = UnikraftLayout::calculate(MIN_CONTEXT_SIZE + 13).unwrap();
    assert_eq!(layout.idt_offset % 8, 0);
    assert_eq!(layout.tss_offset % 4, 0);
    assert_eq!(layout.gdt_offset % 8, 0);
    assert_eq!(layout.handler_offset % 4096, 0);
    assert!(layout.handler_offset + 4096 <= layout.gdt_offset);
    assert!(layout.gdt_offset + 64 <= layout.tss_offset);
    assert!(layout.tss_offset + 104 <= layout.idt_offset);
    assert!(layout.idt_offset + 528 <= layout.interrupt_stack_offset);
}

#[test]
fn two_gigabytes_reserve_a_directory_more() {
    let layout = UnikraftLayout::calculate(0x4000_0001).unwrap();
    assert_eq!(layout.page_table_offset, 0x4000_0001 - 8 * 4096);
}

#[test]
fn too_small_a_layout() {
    assert_eq!(
        UnikraftLayout::calculate(MIN_CONTEXT_SIZE - 1).err(),
        Some(DandelionError::MemoryAllocationError)
    );
    assert!(UnikraftLayout::calculate(MIN_CONTEXT_SIZE).is_ok());
}

#[test]
fn domain_resources() {
    let size = |config| UnikraftMemoryDomain::init(config).map(|d| d.default_size);
    assert_eq!(size(MemoryResource::Unspecified), Ok(DEFAULT_CONTEXT_SIZE));
    assert_eq!(size(MemoryResource::Anonymous { size: 0 }), Ok(DEFAULT_CONTEXT_SIZE));
    assert_eq!(size(MemoryResource::Anonymous { size: 0x30_0000 }), Ok(0x30_0000));
    assert_eq!(
        size(MemoryResource::Anonymous { size: 1 }),
        Err(DandelionError::MemoryAllocationError)
    );
    assert_eq!(
        size(MemoryResource::Other),
        Err(DandelionError::DomainError(DomainError::ConfigMissmatch))
    );
}

#[test]
fn acquired_context_is_zeroed_and_aligned() {
    let domain =
        UnikraftMemoryDomain::init(MemoryResource::Anonymous { size: 0x30_0000 }).unwrap();
    let layout = domain.plan_context(0).unwrap();
    assert_eq!(layout.total_size, 0x30_0000);
    let buffer = vec![0u8; layout.total_size + 4095];
    let context = domain.acquire_context(0, Some((buffer, 0x12345))).unwrap();
    assert_eq!(context.storage_addr, 0x13000);
    assert_eq!(context.start, 0xCBB);
    assert_eq!(context.as_slice().len(), 0x30_0000);
    assert!(context.as_slice().iter().all(|b| *b == 0));
    assert!(!context.initialized);
}

#[test]
fn refused_contexts() {
    let domain = UnikraftMemoryDomain::init(MemoryResource::Unspecified).unwrap();
    let err = Some(DandelionError::MemoryAllocationError);
    assert_eq!(domain.acquire_context(4096, None).err(), err);
    assert_eq!(domain.acquire_context(MIN_CONTEXT_SIZE, None).err(), err);
    assert_eq!(domain.plan_context(isize::MAX as usize).err(), err);
    assert!(domain.plan_context(isize::MAX as usize - 4095).is_ok());
    assert_eq!(domain.plan_context(usize::MAX - 0x3fff_ffff).err(), err);
}

#[test]
fn write_then_read() {
    let mut context = small_context(100, 4097);
    assert_eq!(context.write(8, &[1, 2, 3, 4], 4), Ok(()));
    let mut buffer = [9u8; 6];
    assert_eq!(context.read(7, &mut buffer, 1), Ok(()));
    assert_eq!(buffer, [0, 1, 2, 3, 4, 0]);
    assert_eq!(context.get_chunk_ref(9, 2), Ok(&[2u8, 3][..]));
    assert_eq!(context.as_slice()[11], 4);
    context.as_slice_mut()[11] = 40;
    assert_eq!(context.get_chunk_ref(11, 1), Ok(&[40u8][..]));
}

#[test]
fn refused_reads_and_writes() {
    let mut context = small_context(100, 0);
    assert_eq!(context.write(2, &[1; 4], 4), Err(DandelionError::WriteMisaligned));
    assert_eq!(context.write(97, &[1; 4], 1), Err(DandelionError::InvalidWrite));
    // Misalignment is reported first.
    assert_eq!(context.write(99, &[1; 4], 4), Err(DandelionError::WriteMisaligned));
    assert_eq!(context.write(96, &[1; 4], 4), Ok(()));
    let mut buffer = [5u8; 4];
    assert_eq!(context.read(2, &mut buffer, 4), Err(DandelionError::ReadMisaligned));
    assert_eq!(context.read(97, &mut buffer, 1), Err(DandelionError::InvalidRead));
    assert_eq!(buffer, [5; 4]);
    assert_eq!(context.get_chunk_ref(97, 4), Err(DandelionError::InvalidRead));
    assert_eq!(context.get_chunk_ref(100, 0), Ok(&[][..]));
}

#[test]
fn transfer_between_contexts() {
    let mut source = small_context(16, 0);
    let mut destination = small_context(8, 0);
    source.write(0, &[1, 2, 3, 4, 5, 6, 7, 8], 1).unwrap();
    assert_eq!(unikraft_transfer(&mut destination, &source, 4, 2, 4), Ok(()));
    assert_eq!(destination.as_slice(), &[0, 0, 0, 0, 3, 4, 5, 6]);
    assert_eq!(
        unikraft_transfer(&mut destination, &source, 5, 2, 4),
        Err(DandelionError::InvalidWrite)
    );
    assert_eq!(
        unikraft_transfer(&mut destination, &source, 5, 13, 4),
        Err(DandelionError::InvalidRead)
    );
    assert_eq!(destination.as_slice(), &[0, 0, 0, 0, 3, 4, 5, 6]);
    // And back: the source is as it was.
    let before = source.as_slice().to_vec();
    assert_eq!(unikraft_transfer(&mut source, &destination, 2, 4, 4), Ok(()));
    assert_eq!(source.as_slice(), &before[..]);
}

#[test]
fn transfer_of_a_chunk() {
    let mut destination = small_context(4, 0);
    assert_eq!(bytes_to_unikraft_transfer(&mut destination, Ok(&[8, 9]), 1, 2), Ok(()));
    assert_eq!(destination.as_slice(), &[0, 8, 9, 0]);
    assert_eq!(
        bytes_to_unikraft_transfer(&mut destination, Ok(&[8, 9]), 3, 2),
        Err(DandelionError::InvalidWrite)
    );
    assert_eq!(
        bytes_to_unikraft_transfer(&mut destination, Err(DandelionError::InvalidRead), 0, 2),
        Err(DandelionError::InvalidRead)
    );
    assert_eq!(destination.as_slice(), &[0, 8, 9, 0]);
}

#[test]
fn physical_base() {
    let mut context = small_context(16, 0x7000);
    assert!(context.needs_page_walk());
    assert_eq!(context.get_phys_base(None), 0x7000);
    assert_eq!(context.get_phys_base(Some(0x9000)), 0x9000);
    context.set_phys_base(0x1234_5000);
    assert!(!context.needs_page_walk());
    assert_eq!(context.get_phys_base(Some(0x9000)), 0x1234_5000);
    let mapped = small_context(16, DIRECTMAP_BASE + 0x3000);
    assert!(!mapped.needs_page_walk());
    assert_eq!(mapped.get_phys_base(Some(0x9000)), 0x3000);
}

#[test]
fn estimate_of_the_table_pages() {
    for (size, pages) in [(0usize, 7usize), (1, 7), (1 << 30, 7), ((1 << 30) + 1, 8), (1 << 39, 518)] {
        assert_eq!(UnikraftLayout::estimate_page_table_pages(size), pages);
    }
}
