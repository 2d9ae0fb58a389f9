use no_os::elf_load::{
    find_load_segment, load_kernel, pages_for, plan_load, ElfImage, KernelLoad, LoadError, ProgramHeader, PT_LOAD,
};

/// A little-endian 64-bit ELF executable with the given entry point and
/// program headers (type, physical address, size in memory).
fn elf(entry: u64, headers: &[(u32, u64, u64)]) -> Vec<u8> {
    let mut b = vec![0x7f, b'E', b'L', b'F', 2, 1, 1, 0];
    b.extend([0u8; 8]);
    b.extend(2u16.to_le_bytes()); // e_type: executable
    b.extend(0x3eu16.to_le_bytes()); // e_machine: x86-64
    b.extend(1u32.to_le_bytes()); // e_version
    b.extend(entry.to_le_bytes()); // e_entry
    b.extend(64u64.to_le_bytes()); // e_phoff
    b.extend(0u64.to_le_bytes()); // e_shoff
    b.extend(0u32.to_le_bytes()); // e_flags
    b.extend(64u16.to_le_bytes()); // e_ehsize
    b.extend(56u16.to_le_bytes()); // e_phentsize
    b.extend((headers.len() as u16).to_le_bytes()); // e_phnum
    b.extend(64u16.to_le_bytes()); // e_shentsize
    b.extend(0u16.to_le_bytes()); // e_shnum
    b.extend(0u16.to_le_bytes()); // e_shstrndx
    assert_eq!(b.len(), 64);
    for (p_type, paddr, memsz) in headers {
        b.extend(p_type.to_le_bytes());
        b.extend(5u32.to_le_bytes()); // p_flags
        b.extend(0u64.to_le_bytes()); // p_offset
        b.extend(paddr.to_le_bytes()); // p_vaddr
        b.extend(paddr.to_le_bytes()); // p_paddr
        b.extend(0u64.to_le_bytes()); // p_filesz
        b.extend(memsz.to_le_bytes()); // p_memsz
        b.extend(0x1000u64.to_le_bytes()); // p_align
    }
    b
}

#[test]
fn load_kernel_uses_first_load_segment() {
    let bytes = elf(0x100020, &[(4, 0x5000, 3), (PT_LOAD, 0x100000, 0x1001), (PT_LOAD, 0x200000, 5)]);
    assert_eq!(
        load_kernel(&bytes),
        Ok(KernelLoad { load_address: 0x100000, pages: 2, entry: 0x100020 })
    );
}

#[test]
fn load_kernel_whole_page() {
    let bytes = elf(0xffff_8000_0000_0000, &[(PT_LOAD, 0x400000, 0x1000)]);
    assert_eq!(
        load_kernel(&bytes),
        Ok(KernelLoad { load_address: 0x400000, pages: 1, entry: 0xffff_8000_0000_0000 })
    );
}

#[test]
fn load_kernel_empty_segment_needs_no_page() {
    let bytes = elf(7, &[(PT_LOAD, 0x1000, 0)]);
    assert_eq!(load_kernel(&bytes), Ok(KernelLoad { load_address: 0x1000, pages: 0, entry: 7 }));
}

#[test]
fn load_kernel_without_load_segment() {
    let bytes = elf(0x1000, &[(4, 0x5000, 3), (6, 0x40, 0x38)]);
    assert_eq!(load_kernel(&bytes), Err(LoadError::NoLoadSegment));
    let bytes = elf(0x1000, &[]);
    assert_eq!(load_kernel(&bytes), Err(LoadError::NoLoadSegment));
}

#[test]
fn load_kernel_segment_too_large() {
    let bytes = elf(0x1000, &[(PT_LOAD, 0, u64::MAX)]);
    assert_eq!(load_kernel(&bytes), Err(LoadError::SegmentTooLarge));
}

#[test]
fn load_kernel_refuses_non_elf() {
    assert_eq!(load_kernel(&[]), Err(LoadError::Parse));
    assert_eq!(load_kernel(b"definitely not an ELF image"), Err(LoadError::Parse));
}

#[test]
fn plan_load_of_parsed_image() {
    let image = ElfImage {
        entry: 42,
        program_headers: vec![
            ProgramHeader { p_type: 6, p_paddr: 1, p_memsz: 2 },
            ProgramHeader { p_type: PT_LOAD, p_paddr: 0x8000, p_memsz: 0x2fff },
        ],
    };
    assert_eq!(plan_load(&image), Ok(KernelLoad { load_address: 0x8000, pages: 3, entry: 42 }));
    let none = ElfImage { entry: 42, program_headers: vec![] };
    assert_eq!(plan_load(&none), Err(LoadError::NoLoadSegment));
}

#[test]
fn find_load_segment_first_match() {
    let hs = vec![
        ProgramHeader { p_type: 3, p_paddr: 0, p_memsz: 0 },
        ProgramHeader { p_type: 1, p_paddr: 0, p_memsz: 0 },
        ProgramHeader { p_type: 1, p_paddr: 0, p_memsz: 0 },
    ];
    assert_eq!(find_load_segment(&hs), Some(1));
    assert_eq!(find_load_segment(&hs[..1].to_vec()), None);
}

#[test]
fn pages_round_up() {
    assert_eq!(pages_for(0), 0);
    assert_eq!(pages_for(1), 1);
    assert_eq!(pages_for(4096), 1);
    assert_eq!(pages_for(4097), 2);
    assert_eq!(pages_for(usize::MAX - 4096), usize::MAX / 4096);
}
