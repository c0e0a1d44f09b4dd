use linker::elf::{
    Elf64Header, ElfClass, ElfIdent, ElfVersion, Encoding, Machine, ObjectFileType, OsAbi,
    SectionFlag64, SectionType, SegmentFlag, SegmentType, HEADER_SIZE, IDENT_SIZE,
    PROGRAM_HEADER_SIZE, SECTION_HEADER_NUMBER_UNDEF, SECTION_HEADER_SIZE,
};

fn ident_bytes() -> [u8; 16] {
    [0x7F, b'E', b'L', b'F', 2, 1, 1, 0, 0, 0, 0, 0, 0, 0, 0, 0]
}

fn header_rest() -> [u8; 48] {
    let mut left = [0u8; 48];
    left[0..2].copy_from_slice(&3u16.to_le_bytes());
    left[2..4].copy_from_slice(&62u16.to_le_bytes());
    left[4..8].copy_from_slice(&1u32.to_le_bytes());
    left[8..16].copy_from_slice(&0x0000_0000_0040_1000u64.to_le_bytes());
    left[16..24].copy_from_slice(&64u64.to_le_bytes());
    left[24..32].copy_from_slice(&0x1122_3344_5566_7788u64.to_le_bytes());
    left[32..36].copy_from_slice(&0xA1B2_C3D4u32.to_le_bytes());
    left[36..38].copy_from_slice(&64u16.to_le_bytes());
    left[38..40].copy_from_slice(&56u16.to_le_bytes());
    left[40..42].copy_from_slice(&13u16.to_le_bytes());
    left[42..44].copy_from_slice(&64u16.to_le_bytes());
    left[44..46].copy_from_slice(&31u16.to_le_bytes());
    left[46..48].copy_from_slice(&30u16.to_le_bytes());
    left
}

#[test]
fn sizes_of_the_format() {
    assert_eq!(IDENT_SIZE, 16);
    assert_eq!(HEADER_SIZE, 64);
    assert_eq!(SECTION_HEADER_SIZE, 64);
    assert_eq!(PROGRAM_HEADER_SIZE, 56);
    assert_eq!(SECTION_HEADER_NUMBER_UNDEF, 0);
}

#[test]
fn class_decodes_known_values() {
    assert_eq!(ElfClass::try_from(0), Ok(ElfClass::Unspecified));
    assert_eq!(ElfClass::try_from(1), Ok(ElfClass::Class32));
    assert_eq!(ElfClass::try_from(2), Ok(ElfClass::Class64));
}

#[test]
fn class_refuses_unknown_values() {
    for raw in 3..=255u8 {
        assert_eq!(ElfClass::try_from(raw), Err("invalid ELF class".to_string()));
    }
}

#[test]
fn encoding_decodes_known_values() {
    assert_eq!(Encoding::try_from(0), Ok(Encoding::Unspecified));
    assert_eq!(Encoding::try_from(1), Ok(Encoding::LSB2));
    assert_eq!(Encoding::try_from(2), Ok(Encoding::MSB2));
}

#[test]
fn encoding_refuses_unknown_values() {
    assert_eq!(Encoding::try_from(3), Err("invaild encoding".to_string()));
    assert_eq!(Encoding::try_from(255), Err("invaild encoding".to_string()));
}

#[test]
fn version_decodes_known_values() {
    assert_eq!(ElfVersion::try_from(0), Ok(ElfVersion::Unspecified));
    assert_eq!(ElfVersion::try_from(1), Ok(ElfVersion::Current));
}

#[test]
fn version_refuses_unknown_values() {
    assert_eq!(ElfVersion::try_from(2), Err("not supported ELF version".to_string()));
}

#[test]
fn osabi_decodes_known_values() {
    assert_eq!(OsAbi::try_from(0), Ok(OsAbi::SysV));
    assert_eq!(OsAbi::try_from(1), Ok(OsAbi::HpUx));
    assert_eq!(OsAbi::try_from(255), Ok(OsAbi::Standalone));
}

#[test]
fn osabi_refuses_unknown_values() {
    for raw in 2..255u8 {
        assert_eq!(OsAbi::try_from(raw), Err("not supported OS or ABI".to_string()));
    }
}

#[test]
fn object_file_type_decodes_known_values() {
    assert_eq!(ObjectFileType::try_from(0), Ok(ObjectFileType::Unspecified));
    assert_eq!(ObjectFileType::try_from(1), Ok(ObjectFileType::Rel));
    assert_eq!(ObjectFileType::try_from(2), Ok(ObjectFileType::Exec));
    assert_eq!(ObjectFileType::try_from(3), Ok(ObjectFileType::Dyn));
    assert_eq!(ObjectFileType::try_from(4), Ok(ObjectFileType::Core));
}

#[test]
fn object_file_type_refuses_unknown_values() {
    assert_eq!(ObjectFileType::try_from(5), Err("invalid object file type".to_string()));
    assert_eq!(ObjectFileType::try_from(0xFFFF), Err("invalid object file type".to_string()));
}

#[test]
fn machine_decodes_known_values() {
    assert_eq!(Machine::try_from(0), Ok(Machine::Unspecified));
    assert_eq!(Machine::try_from(1), Ok(Machine::M32));
    assert_eq!(Machine::try_from(2), Ok(Machine::Sparc));
    assert_eq!(Machine::try_from(3), Ok(Machine::I386));
    assert_eq!(Machine::try_from(4), Ok(Machine::Motorola68K));
    assert_eq!(Machine::try_from(5), Ok(Machine::Motorola88K));
    assert_eq!(Machine::try_from(7), Ok(Machine::I860));
    assert_eq!(Machine::try_from(8), Ok(Machine::Mips));
    assert_eq!(Machine::try_from(62), Ok(Machine::X86_64));
}

#[test]
fn machine_refuses_unknown_values() {
    assert_eq!(Machine::try_from(6), Err("invalid machine".to_string()));
    assert_eq!(Machine::try_from(9), Err("invalid machine".to_string()));
    assert_eq!(Machine::try_from(183), Err("invalid machine".to_string()));
}

#[test]
fn section_type_decodes_known_values() {
    let known = [
        (0u32, SectionType::Null),
        (1, SectionType::Progbits),
        (2, SectionType::Symtab),
        (3, SectionType::Strtab),
        (4, SectionType::Rela),
        (5, SectionType::Hash),
        (6, SectionType::Dynamic),
        (7, SectionType::Note),
        (8, SectionType::Nobits),
        (9, SectionType::Rel),
        (10, SectionType::Shlib),
        (11, SectionType::Dynsym),
        (14, SectionType::InitArray),
        (15, SectionType::FiniArray),
        (16, SectionType::PreinitArray),
        (17, SectionType::Group),
        (18, SectionType::SymtabShndx),
        (19, SectionType::Num),
        (0x6000_0000, SectionType::Loos),
        (0x6FFF_FFF5, SectionType::GnuAttributes),
        (0x6FFF_FFF6, SectionType::GnuHash),
        (0x6FFF_FFF7, SectionType::GnuLiblist),
        (0x6FFF_FFF8, SectionType::CheckSum),
        (0x6FFF_FFFD, SectionType::GnuVerdef),
        (0x6FFF_FFFE, SectionType::GnuVerneed),
        (0x6FFF_FFFF, SectionType::GnuVersym),
    ];
    for (raw, ty) in known {
        assert_eq!(SectionType::try_from(raw), Ok(ty));
        assert_eq!(ty.code(), raw);
    }
}

#[test]
fn section_type_refuses_unknown_values() {
    for raw in [12u32, 13, 20, 0x5FFF_FFFF, 0x6000_0001, 0x6FFF_FFF4, 0x6FFF_FFF9, 0x7000_0000] {
        assert_eq!(SectionType::try_from(raw), Err("invalid section type".to_string()));
    }
}

#[test]
fn segment_type_decodes_known_values() {
    let known = [
        (0u32, SegmentType::Null),
        (1, SegmentType::Load),
        (2, SegmentType::Dynamic),
        (3, SegmentType::Interp),
        (4, SegmentType::Note),
        (5, SegmentType::Shlib),
        (6, SegmentType::Phdr),
        (7, SegmentType::Tls),
        (8, SegmentType::Num),
        (0x6474_E550, SegmentType::GnuEhFrame),
        (0x6474_E551, SegmentType::GnuStack),
        (0x6474_E552, SegmentType::GnuRelro),
        (0x6474_E553, SegmentType::GnuProperty),
    ];
    for (raw, ty) in known {
        assert_eq!(SegmentType::try_from(raw), Ok(ty));
        assert_eq!(ty.code(), raw);
    }
}

#[test]
fn segment_type_refuses_unknown_values() {
    for raw in [9u32, 0x6474_E54F, 0x6474_E554, 0x7000_0000, u32::MAX] {
        assert_eq!(SegmentType::try_from(raw), Err("invalid segment type".to_string()));
    }
}

#[test]
fn codes_decode_to_their_own_variant() {
    for class in [ElfClass::Unspecified, ElfClass::Class32, ElfClass::Class64] {
        assert_eq!(ElfClass::try_from(class.code()), Ok(class));
    }
    for data in [Encoding::Unspecified, Encoding::LSB2, Encoding::MSB2] {
        assert_eq!(Encoding::try_from(data.code()), Ok(data));
    }
    for version in [ElfVersion::Unspecified, ElfVersion::Current] {
        assert_eq!(ElfVersion::try_from(version.code()), Ok(version));
    }
    for osabi in [OsAbi::SysV, OsAbi::HpUx, OsAbi::Standalone] {
        assert_eq!(OsAbi::try_from(osabi.code()), Ok(osabi));
    }
    for raw in 0..=u16::MAX {
        if let Ok(ty) = ObjectFileType::try_from(raw) {
            assert_eq!(ty.code(), raw);
        }
        if let Ok(machine) = Machine::try_from(raw) {
            assert_eq!(machine.code(), raw);
        }
    }
}

#[test]
fn defaults_of_the_coded_fields() {
    assert_eq!(ElfClass::default(), ElfClass::Unspecified);
    assert_eq!(Encoding::default(), Encoding::Unspecified);
    assert_eq!(ElfVersion::default(), ElfVersion::Current);
    assert_eq!(OsAbi::default(), OsAbi::SysV);
    assert_eq!(ObjectFileType::default(), ObjectFileType::Unspecified);
    assert_eq!(Machine::default(), Machine::Unspecified);
}

#[test]
fn section_flag_values() {
    assert_eq!(SectionFlag64::WRITE, 0x1);
    assert_eq!(SectionFlag64::ALLOC, 0x2);
    assert_eq!(SectionFlag64::EXECINSTR, 0x4);
    assert_eq!(SectionFlag64::MERGE, 1 << 4);
    assert_eq!(SectionFlag64::STRINGS, 1 << 5);
    assert_eq!(SectionFlag64::INFO_LINK, 1 << 6);
    assert_eq!(SectionFlag64::LINK_ORDER, 1 << 7);
    assert_eq!(SectionFlag64::OS_NONCONFORMING, 1 << 8);
    assert_eq!(SectionFlag64::GROUP, 1 << 9);
    assert_eq!(SectionFlag64::TLS, 1 << 10);
    assert_eq!(SectionFlag64::COMPRESSED, 1 << 11);
    assert_eq!(SectionFlag64::PROCESSOR_SPECIFIC, 0xF000_0000);
    assert_eq!(SectionFlag64::ENVIRONMENT_SPECIFIC, 0x0F00_0000);
    assert_eq!(SectionFlag64::KNOWN, 0xFF00_0FF7);
    assert_eq!(SectionFlag64::all().bits(), 0xFF00_0FF7);
    assert_eq!(SectionFlag64::empty().bits(), 0);
}

#[test]
fn section_flags_take_named_bits() {
    let flags = SectionFlag64::from_bits(0x7).unwrap();
    assert_eq!(flags.bits(), 0x7);
    assert!(flags.contains(SectionFlag64::WRITE));
    assert!(flags.contains(SectionFlag64::ALLOC | SectionFlag64::EXECINSTR));
    assert!(!flags.contains(SectionFlag64::MERGE));
    assert!(flags.intersects(SectionFlag64::WRITE | SectionFlag64::TLS));
    assert!(!flags.intersects(SectionFlag64::TLS));
    assert!(!flags.is_empty());
}

#[test]
fn section_flags_take_reserved_bits() {
    for raw in [0xF000_0000u64, 0x0F00_0000, 0x1000_0000, 0x0100_0000, 0xFF00_0FF7] {
        assert_eq!(SectionFlag64::from_bits(raw).map(|flags| flags.bits()), Some(raw));
    }
}

#[test]
fn section_flags_refuse_unknown_bits() {
    for raw in [0x8u64, 0x1000, 0x0080_0000, 1 << 32, u64::MAX, 0x9] {
        assert!(SectionFlag64::from_bits(raw).is_none());
    }
}

#[test]
fn section_flags_truncate_and_retain() {
    assert_eq!(SectionFlag64::from_bits_truncate(u64::MAX).bits(), 0xFF00_0FF7);
    assert_eq!(SectionFlag64::from_bits_truncate(0x9).bits(), 0x1);
    assert_eq!(SectionFlag64::from_bits_retain(0x9).bits(), 0x9);
    assert!(SectionFlag64::from_bits_truncate(0x8).is_empty());
}

#[test]
fn segment_flag_values() {
    assert_eq!(SegmentFlag::X, 0x1);
    assert_eq!(SegmentFlag::W, 0x2);
    assert_eq!(SegmentFlag::R, 0x4);
    assert_eq!(SegmentFlag::PROCESSOR_SPECIFIC, 0xF000_0000);
    assert_eq!(SegmentFlag::KNOWN, 0xF000_0007);
    assert_eq!(SegmentFlag::all().bits(), 0xF000_0007);
    assert_eq!(SegmentFlag::empty().bits(), 0);
}

#[test]
fn segment_flags_take_known_bits() {
    let flags = SegmentFlag::from_bits(0x5).unwrap();
    assert_eq!(flags, SegmentFlag(0x5));
    assert!(flags.contains(SegmentFlag::R | SegmentFlag::X));
    assert!(!flags.contains(SegmentFlag::W));
    assert!(flags.intersects(SegmentFlag::W | SegmentFlag::X));
    assert_eq!(SegmentFlag::from_bits(0xF000_0007), Some(SegmentFlag(0xF000_0007)));
    assert_eq!(SegmentFlag::from_bits(0), Some(SegmentFlag::empty()));
}

#[test]
fn segment_flags_refuse_unknown_bits() {
    assert_eq!(SegmentFlag::from_bits(0x8), None);
    assert_eq!(SegmentFlag::from_bits(0x0800_0000), None);
    assert_eq!(SegmentFlag::from_bits(u32::MAX), None);
    assert_eq!(SegmentFlag::from_bits_truncate(u32::MAX), SegmentFlag(0xF000_0007));
    assert_eq!(SegmentFlag::from_bits_retain(0x8), SegmentFlag(0x8));
    assert!(SegmentFlag::from_bits_truncate(0x8).is_empty());
}

#[test]
fn new_ident_is_blank() {
    let ident = ElfIdent::new();
    assert_eq!(ident.magic, [0x7F, b'E', b'L', b'F']);
    assert_eq!(ident.class, ElfClass::Unspecified);
    assert_eq!(ident.data, Encoding::Unspecified);
    assert_eq!(ident.version, ElfVersion::Current);
    assert_eq!(ident.osabi, OsAbi::SysV);
    assert_eq!(ident.abi_version, 0);
    assert_eq!(ident.pad, [0; 7]);
    let ident = ElfIdent::default();
    assert_eq!(ident.magic, *b"\x7FELF");
    assert_eq!(ident.class, ElfClass::Unspecified);
}

#[test]
fn ident_decodes_field_by_field() {
    let mut bytes = ident_bytes();
    bytes[7] = 255;
    bytes[8] = 9;
    bytes[9..16].copy_from_slice(&[1, 2, 3, 4, 5, 6, 7]);
    let ident = ElfIdent::from_bytes(bytes).unwrap();
    assert_eq!(ident.magic, [0x7F, 0x45, 0x4C, 0x46]);
    assert_eq!(ident.class, ElfClass::Class64);
    assert_eq!(ident.data, Encoding::LSB2);
    assert_eq!(ident.version, ElfVersion::Current);
    assert_eq!(ident.osabi, OsAbi::Standalone);
    assert_eq!(ident.abi_version, 9);
    assert_eq!(ident.pad, [1, 2, 3, 4, 5, 6, 7]);
}

#[test]
fn ident_takes_every_known_class_and_encoding() {
    let mut bytes = ident_bytes();
    bytes[4] = 1;
    bytes[5] = 2;
    bytes[7] = 1;
    let ident = ElfIdent::from_bytes(bytes).unwrap();
    assert_eq!(ident.class, ElfClass::Class32);
    assert_eq!(ident.data, Encoding::MSB2);
    assert_eq!(ident.osabi, OsAbi::HpUx);
    bytes[4] = 0;
    bytes[5] = 0;
    let ident = ElfIdent::from_bytes(bytes).unwrap();
    assert_eq!(ident.class, ElfClass::Unspecified);
    assert_eq!(ident.data, Encoding::Unspecified);
}

#[test]
fn ident_refuses_wrong_magic() {
    for at in 0..4 {
        let mut bytes = ident_bytes();
        bytes[at] ^= 0x20;
        assert_eq!(ElfIdent::from_bytes(bytes).unwrap_err(), "magic is not for ELF");
    }
    assert_eq!(ElfIdent::from_bytes([0; 16]).unwrap_err(), "magic is not for ELF");
}

#[test]
fn ident_checks_come_in_file_order() {
    let mut bytes = ident_bytes();
    bytes[0] = 0;
    bytes[4] = 9;
    bytes[5] = 9;
    bytes[6] = 9;
    bytes[7] = 9;
    assert_eq!(ElfIdent::from_bytes(bytes).unwrap_err(), "magic is not for ELF");
    bytes[0] = 0x7F;
    assert_eq!(ElfIdent::from_bytes(bytes).unwrap_err(), "invalid ELF class");
    bytes[4] = 2;
    assert_eq!(ElfIdent::from_bytes(bytes).unwrap_err(), "invaild encoding");
    bytes[5] = 1;
    assert_eq!(ElfIdent::from_bytes(bytes).unwrap_err(), "not supported ELF version");
    bytes[6] = 0;
    assert_eq!(ElfIdent::from_bytes(bytes).unwrap_err(), "invaild ELF version");
    bytes[6] = 1;
    assert_eq!(ElfIdent::from_bytes(bytes).unwrap_err(), "not supported OS or ABI");
    bytes[7] = 0;
    assert!(ElfIdent::from_bytes(bytes).is_ok());
}

#[test]
fn header_decodes_fields_in_file_order() {
    let ident = ElfIdent::from_bytes(ident_bytes()).unwrap();
    let header = Elf64Header::from_bytes(ident, header_rest()).unwrap();
    assert_eq!(header.ident.class, ElfClass::Class64);
    assert_eq!(header.ident.data, Encoding::LSB2);
    assert_eq!(header.ty, ObjectFileType::Dyn);
    assert_eq!(header.machine, Machine::X86_64);
    assert_eq!(header.version, 1);
    assert_eq!(header.entry, 0x40_1000);
    assert_eq!(header.phoff, 64);
    assert_eq!(header.shoff, 0x1122_3344_5566_7788);
    assert_eq!(header.flags, 0xA1B2_C3D4);
    assert_eq!(header.ehsize, 64);
    assert_eq!(header.phentsize, 56);
    assert_eq!(header.phnum, 13);
    assert_eq!(header.shentsize, 64);
    assert_eq!(header.shnum, 31);
    assert_eq!(header.shstrndx, 30);
}

#[test]
fn header_keeps_the_ident_it_is_given() {
    let mut ident = ElfIdent::new();
    ident.abi_version = 77;
    ident.pad = [9; 7];
    let header = Elf64Header::from_bytes(ident, header_rest()).unwrap();
    assert_eq!(header.ident.class, ElfClass::Unspecified);
    assert_eq!(header.ident.abi_version, 77);
    assert_eq!(header.ident.pad, [9; 7]);
}

#[test]
fn header_refuses_unknown_type() {
    let mut left = header_rest();
    left[0] = 5;
    left[2] = 6;
    left[4] = 0;
    let message = Elf64Header::from_bytes(ElfIdent::new(), left).unwrap_err();
    assert_eq!(message, "invalid object file type");
}

#[test]
fn header_refuses_unknown_machine() {
    let mut left = header_rest();
    left[2] = 6;
    left[4] = 0;
    let message = Elf64Header::from_bytes(ElfIdent::new(), left).unwrap_err();
    assert_eq!(message, "invalid machine");
}

#[test]
fn header_refuses_other_versions() {
    for version in [0u32, 2, 0x0100, u32::MAX] {
        let mut left = header_rest();
        left[4..8].copy_from_slice(&version.to_le_bytes());
        let message = Elf64Header::from_bytes(ElfIdent::new(), left).unwrap_err();
        assert_eq!(message, "invalid ELF version");
    }
}

#[test]
fn default_header_is_blank() {
    let header = Elf64Header::default();
    assert_eq!(header.ident.magic, *b"\x7FELF");
    assert_eq!(header.ident.version, ElfVersion::Current);
    assert_eq!(header.ty, ObjectFileType::Unspecified);
    assert_eq!(header.machine, Machine::Unspecified);
    assert_eq!(header.version, 0);
    assert_eq!(header.entry, 0);
    assert_eq!(header.phoff, 0);
    assert_eq!(header.shoff, 0);
    assert_eq!(header.flags, 0);
    assert_eq!(header.ehsize, 0);
    assert_eq!(header.phentsize, 0);
    assert_eq!(header.phnum, 0);
    assert_eq!(header.shentsize, 0);
    assert_eq!(header.shnum, 0);
    assert_eq!(header.shstrndx, 0);
}
