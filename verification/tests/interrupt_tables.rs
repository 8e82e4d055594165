use dandelion_unikraft::x86_64::{create_descriptor, set_interrupt_tables, X86Error};

fn le(bytes: &[u8]) -> u64 {
    bytes.iter().rev().fold(0, |value, b| value * 256 + *b as u64)
}

fn offsets() -> Vec<usize> {
    (0..33).map(|v| v * 32).collect()
}

#[test]
fn tables_stand_below_the_stack() {
    let phys = 0x1_2345_0000u64;
    let code: Vec<u8> = (0..1100u32).map(|i| (i % 251) as u8).collect();
    let mut storage = vec![0xEEu8; 0x8000];
    let mut stack_start = 0x8000usize;
    let result = set_interrupt_tables(&mut storage, &mut stack_start, phys, &code, &offsets());
    let gdt = 0x6000 - 696;
    assert_eq!(result, Ok((gdt, gdt + 64, gdt + 168, 0x6000, phys + 0x8000)));
    assert_eq!(stack_start, gdt);
    assert!(storage[..gdt].iter().all(|b| *b == 0xEE));
    assert!(storage[0x7000..].iter().all(|b| *b == 0));
    assert_eq!(&storage[0x6000..0x6000 + 1100], &code[..]);
    assert!(storage[0x6000 + 1100..0x7000].iter().all(|b| *b == 0));

    // Global descriptor table.
    assert_eq!(le(&storage[gdt..gdt + 8]), 0);
    assert_eq!(le(&storage[gdt + 8..gdt + 16]), 0x00AF_9A00_0000_FFFF);
    assert_eq!(le(&storage[gdt + 16..gdt + 24]), 0x00CF_9200_0000_FFFF);
    assert_eq!(le(&storage[gdt + 24..gdt + 32]), 0x00AF_FA00_0000_FFFF);
    assert_eq!(le(&storage[gdt + 32..gdt + 40]), 0x00CF_F200_0000_FFFF);
    // Task state segment at 0x1_2345_5D88.
    assert_eq!(phys + gdt as u64 + 64, 0x1_2345_5D88);
    assert_eq!(le(&storage[gdt + 40..gdt + 48]), 0x2300_8945_5D88_0067);
    assert_eq!(le(&storage[gdt + 48..gdt + 56]), 1);
    assert_eq!(le(&storage[gdt + 56..gdt + 64]), 0);

    // Task state segment.
    let tss = gdt + 64;
    assert_eq!(le(&storage[tss + 4..tss + 12]), phys + 0x8000);
    assert_eq!(le(&storage[tss + 0x24..tss + 0x2C]), phys + 0x8000);
    assert_eq!(storage[tss + 0x66], 0x68);
    assert_eq!(storage[tss + 0x67], 0);
    assert!(storage[tss..tss + 4].iter().all(|b| *b == 0));
    assert!(storage[tss + 12..tss + 0x24].iter().all(|b| *b == 0));

    // Gates lead to their handlers.
    for v in 0..33usize {
        let gate = gdt + 168 + 16 * v;
        let handler = le(&storage[gate..gate + 2])
            + (le(&storage[gate + 6..gate + 8]) << 16)
            + (le(&storage[gate + 8..gate + 12]) << 32);
        assert_eq!(handler, phys + 0x6000 + 32 * v as u64);
        assert_eq!(le(&storage[gate + 2..gate + 4]), 8);
        assert_eq!(storage[gate + 4], 1);
        assert_eq!(storage[gate + 5], 0xEE);
        assert_eq!(le(&storage[gate + 12..gate + 16]), 0);
    }
}

#[test]
fn descriptor_of_the_task_state_leads_to_it() {
    let mut storage = vec![0u8; 0x4000];
    let mut stack_start = 0x4000usize;
    let phys = 0xFEDC_BA98_0000_0000u64;
    let (gdt, tss, _, _, _) =
        set_interrupt_tables(&mut storage, &mut stack_start, phys, &[0x90], &offsets()).unwrap();
    let low = le(&storage[gdt + 0x28..gdt + 0x30]);
    let high = le(&storage[gdt + 0x30..gdt + 0x38]);
    let base = ((low >> 16) & 0xFF_FFFF) | ((low >> 56) << 24) | (high << 32);
    assert_eq!(base, phys + tss as u64);
}

#[test]
fn no_room_for_the_stack() {
    let mut storage = vec![7u8; 0x2000];
    let mut stack_start = 4095usize;
    let result = set_interrupt_tables(&mut storage, &mut stack_start, 0, &[1], &offsets());
    assert_eq!(result, Err(X86Error::ContextTooSmall));
    assert_eq!(stack_start, 4095);
    assert!(storage.iter().all(|b| *b == 7));
}

#[test]
fn no_room_for_the_handlers() {
    let mut storage = vec![7u8; 0x2000];
    let mut stack_start = 0x2000usize;
    let code = vec![1u8; 4097];
    let result = set_interrupt_tables(&mut storage, &mut stack_start, 0, &code, &offsets());
    assert_eq!(result, Err(X86Error::ContextTooSmall));
    assert_eq!(stack_start, 0x1000);
    assert!(storage[..0x1000].iter().all(|b| *b == 7));
    assert!(storage[0x1000..].iter().all(|b| *b == 0));
}

#[test]
fn no_room_for_the_tables() {
    let mut storage = vec![7u8; 0x2000 + 695];
    let mut stack_start = 0x2000 + 695usize;
    let result = set_interrupt_tables(&mut storage, &mut stack_start, 0, &[], &offsets());
    assert_eq!(result, Err(X86Error::ContextTooSmall));
    assert_eq!(stack_start, 695);
    assert!(storage[..695].iter().all(|b| *b == 7));
    assert!(storage[695..].iter().all(|b| *b == 0));
}

#[test]
fn descriptor_operand() {
    assert_eq!(
        create_descriptor(0x0807_0605_0403_0201, 0xBBAA),
        [0xAA, 0xBB, 1, 2, 3, 4, 5, 6, 7, 8]
    );
}
