//! The typed model of ELF-64 structures and the decoders of their coded fields.

use crate::text::{digits, digits_text, outcome};
use crate::util::{field, lemma_fields_of_window, pull, FromBytes};
use vstd::prelude::*;
use vstd::string::StringExecFns;

verus! {

/// The class, or capacity, of an object file (`EI_CLASS`).
#[derive(Debug, Clone, Copy, PartialEq, Eq, Hash, Structural)]
pub enum ElfClass {
    /// `ELFCLASSNONE`: invalid class.
    Unspecified,
    /// `ELFCLASS32`: 32-bit objects.
    Class32,
    /// `ELFCLASS64`: 64-bit objects.
    Class64,
}

impl ElfClass {
    /// The number that stands for this class in a file.
    pub open spec fn spec_code(self) -> u8 {
        match self {
            ElfClass::Unspecified => 0,
            ElfClass::Class32 => 1,
            ElfClass::Class64 => 2,
        }
    }

    /// The number that stands for this class in a file.
    #[verifier::when_used_as_spec(spec_code)]
    pub fn code(self) -> (raw: u8)
        ensures
            raw == self.spec_code(),
    {
        match self {
            ElfClass::Unspecified => 0,
            ElfClass::Class32 => 1,
            ElfClass::Class64 => 2,
        }
    }

    /// The class that `raw` stands for, if it stands for any.
    pub open spec fn of_code(raw: u8) -> Option<ElfClass> {
        if raw == 0 {
            Some(ElfClass::Unspecified)
        } else if raw == 1 {
            Some(ElfClass::Class32)
        } else if raw == 2 {
            Some(ElfClass::Class64)
        } else {
            None
        }
    }

    /// What decoding `raw` gives: the class it stands for, or the message that it stands
    /// for none.
    pub open spec fn decode(raw: u8) -> Result<ElfClass, Seq<char>> {
        match ElfClass::of_code(raw) {
            Some(known) => Ok(known),
            None => Err("invalid ELF class"@),
        }
    }

    /// Decodes `raw`; a number outside the defined set is refused.
    pub fn try_from(raw: u8) -> (decoded: Result<ElfClass, String>)
        ensures
            outcome(decoded) == ElfClass::decode(raw),
    {
        match raw {
            0 => Ok(ElfClass::Unspecified),
            1 => Ok(ElfClass::Class32),
            2 => Ok(ElfClass::Class64),
            _ => Err("invalid ELF class".to_string()),
        }
    }

    /// Every class is what its own number decodes to.
    pub proof fn lemma_code_decodes(known: ElfClass)
        ensures
            ElfClass::of_code(known.code()) == Some(known),
    {
    }

    /// A number decodes only to the class that it is the number of.
    pub proof fn lemma_decoded_has_code(raw: u8)
        ensures
            ElfClass::of_code(raw) matches Some(known) ==> known.code() == raw,
    {
    }
}

impl Default for ElfClass {
    fn default() -> (value: ElfClass)
        ensures
            value == ElfClass::Unspecified,
    {
        ElfClass::Unspecified
    }
}

/// The data encoding of the processor-specific data in an object file (`EI_DATA`).
#[derive(Debug, Clone, Copy, PartialEq, Eq, Hash, Structural)]
pub enum Encoding {
    /// `ELFDATANONE`: invalid data encoding.
    Unspecified,
    /// `ELFDATA2LSB`: two's complement, least significant byte at the lowest address.
    LSB2,
    /// `ELFDATA2MSB`: two's complement, most significant byte at the lowest address.
    MSB2,
}

impl Encoding {
    /// The number that stands for this encoding in a file.
    pub open spec fn spec_code(self) -> u8 {
        match self {
            Encoding::Unspecified => 0,
            Encoding::LSB2 => 1,
            Encoding::MSB2 => 2,
        }
    }

    /// The number that stands for this encoding in a file.
    #[verifier::when_used_as_spec(spec_code)]
    pub fn code(self) -> (raw: u8)
        ensures
            raw == self.spec_code(),
    {
        match self {
            Encoding::Unspecified => 0,
            Encoding::LSB2 => 1,
            Encoding::MSB2 => 2,
        }
    }

    /// The encoding that `raw` stands for, if it stands for any.
    pub open spec fn of_code(raw: u8) -> Option<Encoding> {
        if raw == 0 {
            Some(Encoding::Unspecified)
        } else if raw == 1 {
            Some(Encoding::LSB2)
        } else if raw == 2 {
            Some(Encoding::MSB2)
        } else {
            None
        }
    }

    /// What decoding `raw` gives: the encoding it stands for, or the message that it stands
    /// for none.
    pub open spec fn decode(raw: u8) -> Result<Encoding, Seq<char>> {
        match Encoding::of_code(raw) {
            Some(known) => Ok(known),
            None => Err("invaild encoding"@),
        }
    }

    /// Decodes `raw`; a number outside the defined set is refused.
    pub fn try_from(raw: u8) -> (decoded: Result<Encoding, String>)
        ensures
            outcome(decoded) == Encoding::decode(raw),
    {
        match raw {
            0 => Ok(Encoding::Unspecified),
            1 => Ok(Encoding::LSB2),
            2 => Ok(Encoding::MSB2),
            _ => Err("invaild encoding".to_string()),
        }
    }

    /// Every encoding is what its own number decodes to.
    pub proof fn lemma_code_decodes(known: Encoding)
        ensures
            Encoding::of_code(known.code()) == Some(known),
    {
    }

    /// A number decodes only to the encoding that it is the number of.
    pub proof fn lemma_decoded_has_code(raw: u8)
        ensures
            Encoding::of_code(raw) matches Some(known) ==> known.code() == raw,
    {
    }
}

impl Default for Encoding {
    fn default() -> (value: Encoding)
        ensures
            value == Encoding::Unspecified,
    {
        Encoding::Unspecified
    }
}

/// The version of the ELF format (`EI_VERSION`, `e_version`).
#[derive(Debug, Clone, Copy, PartialEq, Eq, Hash, Structural)]
pub enum ElfVersion {
    /// `EV_NONE`: invalid version.
    Unspecified,
    /// `EV_CURRENT`: current version.
    Current,
}

impl ElfVersion {
    /// The number that stands for this version in a file.
    pub open spec fn spec_code(self) -> u8 {
        match self {
            ElfVersion::Unspecified => 0,
            ElfVersion::Current => 1,
        }
    }

    /// The number that stands for this version in a file.
    #[verifier::when_used_as_spec(spec_code)]
    pub fn code(self) -> (raw: u8)
        ensures
            raw == self.spec_code(),
    {
        match self {
            ElfVersion::Unspecified => 0,
            ElfVersion::Current => 1,
        }
    }

    /// The version that `raw` stands for, if it stands for any.
    pub open spec fn of_code(raw: u8) -> Option<ElfVersion> {
        if raw == 0 {
            Some(ElfVersion::Unspecified)
        } else if raw == 1 {
            Some(ElfVersion::Current)
        } else {
            None
        }
    }

    /// What decoding `raw` gives: the version it stands for, or the message that it stands
    /// for none.
    pub open spec fn decode(raw: u8) -> Result<ElfVersion, Seq<char>> {
        match ElfVersion::of_code(raw) {
            Some(known) => Ok(known),
            None => Err("not supported ELF version"@),
        }
    }

    /// Decodes `raw`; a number outside the defined set is refused.
    pub fn try_from(raw: u8) -> (decoded: Result<ElfVersion, String>)
        ensures
            outcome(decoded) == ElfVersion::decode(raw),
    {
        match raw {
            0 => Ok(ElfVersion::Unspecified),
            1 => Ok(ElfVersion::Current),
            _ => Err("not supported ELF version".to_string()),
        }
    }

    /// Every version is what its own number decodes to.
    pub proof fn lemma_code_decodes(known: ElfVersion)
        ensures
            ElfVersion::of_code(known.code()) == Some(known),
    {
    }

    /// A number decodes only to the version that it is the number of.
    pub proof fn lemma_decoded_has_code(raw: u8)
        ensures
            ElfVersion::of_code(raw) matches Some(known) ==> known.code() == raw,
    {
    }
}

impl Default for ElfVersion {
    fn default() -> (value: ElfVersion)
        ensures
            value == ElfVersion::Current,
    {
        ElfVersion::Current
    }
}

/// The operating system and ABI for which an object is prepared (`EI_OSABI`).
#[derive(Debug, Clone, Copy, PartialEq, Eq, Hash, Structural)]
pub enum OsAbi {
    /// `ELFOSABI_SYSV`: System V ABI.
    SysV,
    /// `ELFOSABI_HPUX`: HP-UX operating system.
    HpUx,
    /// `ELFOSABI_STANDALONE`: standalone (embedded) application.
    Standalone,
}

impl OsAbi {
    /// The number that stands for this ABI in a file.
    pub open spec fn spec_code(self) -> u8 {
        match self {
            OsAbi::SysV => 0,
            OsAbi::HpUx => 1,
            OsAbi::Standalone => 255,
        }
    }

    /// The number that stands for this ABI in a file.
    #[verifier::when_used_as_spec(spec_code)]
    pub fn code(self) -> (raw: u8)
        ensures
            raw == self.spec_code(),
    {
        match self {
            OsAbi::SysV => 0,
            OsAbi::HpUx => 1,
            OsAbi::Standalone => 255,
        }
    }

    /// The ABI that `raw` stands for, if it stands for any.
    pub open spec fn of_code(raw: u8) -> Option<OsAbi> {
        if raw == 0 {
            Some(OsAbi::SysV)
        } else if raw == 1 {
            Some(OsAbi::HpUx)
        } else if raw == 255 {
            Some(OsAbi::Standalone)
        } else {
            None
        }
    }

    /// What decoding `raw` gives: the ABI it stands for, or the message that it stands
    /// for none.
    pub open spec fn decode(raw: u8) -> Result<OsAbi, Seq<char>> {
        match OsAbi::of_code(raw) {
            Some(known) => Ok(known),
            None => Err("not supported OS or ABI"@),
        }
    }

    /// Decodes `raw`; a number outside the defined set is refused.
    pub fn try_from(raw: u8) -> (decoded: Result<OsAbi, String>)
        ensures
            outcome(decoded) == OsAbi::decode(raw),
    {
        match raw {
            0 => Ok(OsAbi::SysV),
            1 => Ok(OsAbi::HpUx),
            255 => Ok(OsAbi::Standalone),
            _ => Err("not supported OS or ABI".to_string()),
        }
    }

    /// Every ABI is what its own number decodes to.
    pub proof fn lemma_code_decodes(known: OsAbi)
        ensures
            OsAbi::of_code(known.code()) == Some(known),
    {
    }

    /// A number decodes only to the ABI that it is the number of.
    pub proof fn lemma_decoded_has_code(raw: u8)
        ensures
            OsAbi::of_code(raw) matches Some(known) ==> known.code() == raw,
    {
    }
}

impl Default for OsAbi {
    fn default() -> (value: OsAbi)
        ensures
            value == OsAbi::SysV,
    {
        OsAbi::SysV
    }
}

/// The type of an object file (`e_type`).
#[derive(Debug, Clone, Copy, PartialEq, Eq, Hash, Structural)]
pub enum ObjectFileType {
    /// `ET_NONE`: no file type.
    Unspecified,
    /// `ET_REL`: relocatable file.
    Rel,
    /// `ET_EXEC`: executable file.
    Exec,
    /// `ET_DYN`: shared object file.
    Dyn,
    /// `ET_CORE`: core file.
    Core,
}

impl ObjectFileType {
    /// The number that stands for this type in a file.
    pub open spec fn spec_code(self) -> u16 {
        match self {
            ObjectFileType::Unspecified => 0,
            ObjectFileType::Rel => 1,
            ObjectFileType::Exec => 2,
            ObjectFileType::Dyn => 3,
            ObjectFileType::Core => 4,
        }
    }

    /// The number that stands for this type in a file.
    #[verifier::when_used_as_spec(spec_code)]
    pub fn code(self) -> (raw: u16)
        ensures
            raw == self.spec_code(),
    {
        match self {
            ObjectFileType::Unspecified => 0,
            ObjectFileType::Rel => 1,
            ObjectFileType::Exec => 2,
            ObjectFileType::Dyn => 3,
            ObjectFileType::Core => 4,
        }
    }

    /// The type that `raw` stands for, if it stands for any.
    pub open spec fn of_code(raw: u16) -> Option<ObjectFileType> {
        if raw == 0 {
            Some(ObjectFileType::Unspecified)
        } else if raw == 1 {
            Some(ObjectFileType::Rel)
        } else if raw == 2 {
            Some(ObjectFileType::Exec)
        } else if raw == 3 {
            Some(ObjectFileType::Dyn)
        } else if raw == 4 {
            Some(ObjectFileType::Core)
        } else {
            None
        }
    }

    /// What decoding `raw` gives: the type it stands for, or the message that it stands
    /// for none.
    pub open spec fn decode(raw: u16) -> Result<ObjectFileType, Seq<char>> {
        match ObjectFileType::of_code(raw) {
            Some(known) => Ok(known),
            None => Err("invalid object file type"@),
        }
    }

    /// Decodes `raw`; a number outside the defined set is refused.
    pub fn try_from(raw: u16) -> (decoded: Result<ObjectFileType, String>)
        ensures
            outcome(decoded) == ObjectFileType::decode(raw),
    {
        match raw {
            0 => Ok(ObjectFileType::Unspecified),
            1 => Ok(ObjectFileType::Rel),
            2 => Ok(ObjectFileType::Exec),
            3 => Ok(ObjectFileType::Dyn),
            4 => Ok(ObjectFileType::Core),
            _ => Err("invalid object file type".to_string()),
        }
    }

    /// Every type is what its own number decodes to.
    pub proof fn lemma_code_decodes(known: ObjectFileType)
        ensures
            ObjectFileType::of_code(known.code()) == Some(known),
    {
    }

    /// A number decodes only to the type that it is the number of.
    pub proof fn lemma_decoded_has_code(raw: u16)
        ensures
            ObjectFileType::of_code(raw) matches Some(known) ==> known.code() == raw,
    {
    }
}

impl Default for ObjectFileType {
    fn default() -> (value: ObjectFileType)
        ensures
            value == ObjectFileType::Unspecified,
    {
        ObjectFileType::Unspecified
    }
}

/// The architecture that an object file requires (`e_machine`).
#[derive(Debug, Clone, Copy, PartialEq, Eq, Hash, Structural)]
pub enum Machine {
    /// `EM_NONE`: no machine.
    Unspecified,
    /// `EM_M32`: AT&T WE 32100.
    M32,
    /// `EM_SPARC`: SPARC.
    Sparc,
    /// `EM_386`: Intel 80386.
    I386,
    /// `EM_68K`: Motorola 68000.
    Motorola68K,
    /// `EM_88K`: Motorola 88000.
    Motorola88K,
    /// `EM_860`: Intel 80860.
    I860,
    /// `EM_MIPS`: MIPS RS3000.
    Mips,
    /// `EM_X86_64`: AMD x86-64.
    X86_64,
}

impl Machine {
    /// The number that stands for this machine in a file.
    pub open spec fn spec_code(self) -> u16 {
        match self {
            Machine::Unspecified => 0,
            Machine::M32 => 1,
            Machine::Sparc => 2,
            Machine::I386 => 3,
            Machine::Motorola68K => 4,
            Machine::Motorola88K => 5,
            Machine::I860 => 7,
            Machine::Mips => 8,
            Machine::X86_64 => 62,
        }
    }

    /// The number that stands for this machine in a file.
    #[verifier::when_used_as_spec(spec_code)]
    pub fn code(self) -> (raw: u16)
        ensures
            raw == self.spec_code(),
    {
        match self {
            Machine::Unspecified => 0,
            Machine::M32 => 1,
            Machine::Sparc => 2,
            Machine::I386 => 3,
            Machine::Motorola68K => 4,
            Machine::Motorola88K => 5,
            Machine::I860 => 7,
            Machine::Mips => 8,
            Machine::X86_64 => 62,
        }
    }

    /// The machine that `raw` stands for, if it stands for any.
    pub open spec fn of_code(raw: u16) -> Option<Machine> {
        if raw == 0 {
            Some(Machine::Unspecified)
        } else if raw == 1 {
            Some(Machine::M32)
        } else if raw == 2 {
            Some(Machine::Sparc)
        } else if raw == 3 {
            Some(Machine::I386)
        } else if raw == 4 {
            Some(Machine::Motorola68K)
        } else if raw == 5 {
            Some(Machine::Motorola88K)
        } else if raw == 7 {
            Some(Machine::I860)
        } else if raw == 8 {
            Some(Machine::Mips)
        } else if raw == 62 {
            Some(Machine::X86_64)
        } else {
            None
        }
    }

    /// What decoding `raw` gives: the machine it stands for, or the message that it stands
    /// for none.
    pub open spec fn decode(raw: u16) -> Result<Machine, Seq<char>> {
        match Machine::of_code(raw) {
            Some(known) => Ok(known),
            None => Err("invalid machine"@),
        }
    }

    /// Decodes `raw`; a number outside the defined set is refused.
    pub fn try_from(raw: u16) -> (decoded: Result<Machine, String>)
        ensures
            outcome(decoded) == Machine::decode(raw),
    {
        match raw {
            0 => Ok(Machine::Unspecified),
            1 => Ok(Machine::M32),
            2 => Ok(Machine::Sparc),
            3 => Ok(Machine::I386),
            4 => Ok(Machine::Motorola68K),
            5 => Ok(Machine::Motorola88K),
            7 => Ok(Machine::I860),
            8 => Ok(Machine::Mips),
            62 => Ok(Machine::X86_64),
            _ => Err("invalid machine".to_string()),
        }
    }

    /// Every machine is what its own number decodes to.
    pub proof fn lemma_code_decodes(known: Machine)
        ensures
            Machine::of_code(known.code()) == Some(known),
    {
    }

    /// A number decodes only to the machine that it is the number of.
    pub proof fn lemma_decoded_has_code(raw: u16)
        ensures
            Machine::of_code(raw) matches Some(known) ==> known.code() == raw,
    {
    }
}

impl Default for Machine {
    fn default() -> (value: Machine)
        ensures
            value == Machine::Unspecified,
    {
        Machine::Unspecified
    }
}

/// What a section holds and how to read it (`sh_type`).
#[derive(Debug, Clone, Copy, PartialEq, Eq, Hash, Structural)]
pub enum SectionType {
    /// `SHT_NULL`: the header is inactive and has no section; its other members are undefined.
    Null,
    /// `SHT_PROGBITS`: information whose format and meaning the program alone determines.
    Progbits,
    /// `SHT_SYMTAB`: a symbol table.
    Symtab,
    /// `SHT_STRTAB`: a string table.
    Strtab,
    /// `SHT_RELA`: relocation entries with explicit addends.
    Rela,
    /// `SHT_HASH`: a symbol hash table.
    Hash,
    /// `SHT_DYNAMIC`: information for dynamic linking.
    Dynamic,
    /// `SHT_NOTE`: information that marks the file in some way.
    Note,
    /// `SHT_NOBITS`: like `SHT_PROGBITS`, but the section takes no space in the file.
    Nobits,
    /// `SHT_REL`: relocation entries without explicit addends.
    Rel,
    /// `SHT_SHLIB`: reserved, with unspecified semantics.
    Shlib,
    /// `SHT_DYNSYM`: a symbol table for dynamic linking.
    Dynsym,
    /// `SHT_INIT_ARRAY`: an array of constructors.
    InitArray,
    /// `SHT_FINI_ARRAY`: an array of destructors.
    FiniArray,
    /// `SHT_PREINIT_ARRAY`: an array of pre-constructors.
    PreinitArray,
    /// `SHT_GROUP`: a section group.
    Group,
    /// `SHT_SYMTAB_SHNDX`: extended section indices.
    SymtabShndx,
    /// `SHT_NUM`: the number of defined types.
    Num,
    /// `SHT_LOOS`: the start of the OS-specific range.
    Loos,
    /// `SHT_GNU_ATTRIBUTES`: object attributes.
    GnuAttributes,
    /// `SHT_GNU_HASH`: a GNU-style hash table.
    GnuHash,
    /// `SHT_GNU_LIBLIST`: a prelink library list.
    GnuLiblist,
    /// `SHT_CHECKSUM`: a checksum for DSO content.
    CheckSum,
    /// `SHT_GNU_verdef`: version definitions.
    GnuVerdef,
    /// `SHT_GNU_verneed`: version needs.
    GnuVerneed,
    /// `SHT_GNU_versym`: a version symbol table.
    GnuVersym,
}

impl SectionType {
    /// The number that stands for this type in a file.
    pub open spec fn spec_code(self) -> u32 {
        match self {
            SectionType::Null => 0,
            SectionType::Progbits => 1,
            SectionType::Symtab => 2,
            SectionType::Strtab => 3,
            SectionType::Rela => 4,
            SectionType::Hash => 5,
            SectionType::Dynamic => 6,
            SectionType::Note => 7,
            SectionType::Nobits => 8,
            SectionType::Rel => 9,
            SectionType::Shlib => 10,
            SectionType::Dynsym => 11,
            SectionType::InitArray => 14,
            SectionType::FiniArray => 15,
            SectionType::PreinitArray => 16,
            SectionType::Group => 17,
            SectionType::SymtabShndx => 18,
            SectionType::Num => 19,
            SectionType::Loos => 0x6000_0000,
            SectionType::GnuAttributes => 0x6FFF_FFF5,
            SectionType::GnuHash => 0x6FFF_FFF6,
            SectionType::GnuLiblist => 0x6FFF_FFF7,
            SectionType::CheckSum => 0x6FFF_FFF8,
            SectionType::GnuVerdef => 0x6FFF_FFFD,
            SectionType::GnuVerneed => 0x6FFF_FFFE,
            SectionType::GnuVersym => 0x6FFF_FFFF,
        }
    }

    /// The number that stands for this type in a file.
    #[verifier::when_used_as_spec(spec_code)]
    pub fn code(self) -> (raw: u32)
        ensures
            raw == self.spec_code(),
    {
        match self {
            SectionType::Null => 0,
            SectionType::Progbits => 1,
            SectionType::Symtab => 2,
            SectionType::Strtab => 3,
            SectionType::Rela => 4,
            SectionType::Hash => 5,
            SectionType::Dynamic => 6,
            SectionType::Note => 7,
            SectionType::Nobits => 8,
            SectionType::Rel => 9,
            SectionType::Shlib => 10,
            SectionType::Dynsym => 11,
            SectionType::InitArray => 14,
            SectionType::FiniArray => 15,
            SectionType::PreinitArray => 16,
            SectionType::Group => 17,
            SectionType::SymtabShndx => 18,
            SectionType::Num => 19,
            SectionType::Loos => 0x6000_0000,
            SectionType::GnuAttributes => 0x6FFF_FFF5,
            SectionType::GnuHash => 0x6FFF_FFF6,
            SectionType::GnuLiblist => 0x6FFF_FFF7,
            SectionType::CheckSum => 0x6FFF_FFF8,
            SectionType::GnuVerdef => 0x6FFF_FFFD,
            SectionType::GnuVerneed => 0x6FFF_FFFE,
            SectionType::GnuVersym => 0x6FFF_FFFF,
        }
    }

    /// The type that `raw` stands for, if it stands for any.
    pub open spec fn of_code(raw: u32) -> Option<SectionType> {
        if raw == 0 {
            Some(SectionType::Null)
        } else if raw == 1 {
            Some(SectionType::Progbits)
        } else if raw == 2 {
            Some(SectionType::Symtab)
        } else if raw == 3 {
            Some(SectionType::Strtab)
        } else if raw == 4 {
            Some(SectionType::Rela)
        } else if raw == 5 {
            Some(SectionType::Hash)
        } else if raw == 6 {
            Some(SectionType::Dynamic)
        } else if raw == 7 {
            Some(SectionType::Note)
        } else if raw == 8 {
            Some(SectionType::Nobits)
        } else if raw == 9 {
            Some(SectionType::Rel)
        } else if raw == 10 {
            Some(SectionType::Shlib)
        } else if raw == 11 {
            Some(SectionType::Dynsym)
        } else if raw == 14 {
            Some(SectionType::InitArray)
        } else if raw == 15 {
            Some(SectionType::FiniArray)
        } else if raw == 16 {
            Some(SectionType::PreinitArray)
        } else if raw == 17 {
            Some(SectionType::Group)
        } else if raw == 18 {
            Some(SectionType::SymtabShndx)
        } else if raw == 19 {
            Some(SectionType::Num)
        } else if raw == 0x6000_0000 {
            Some(SectionType::Loos)
        } else if raw == 0x6FFF_FFF5 {
            Some(SectionType::GnuAttributes)
        } else if raw == 0x6FFF_FFF6 {
            Some(SectionType::GnuHash)
        } else if raw == 0x6FFF_FFF7 {
            Some(SectionType::GnuLiblist)
        } else if raw == 0x6FFF_FFF8 {
            Some(SectionType::CheckSum)
        } else if raw == 0x6FFF_FFFD {
            Some(SectionType::GnuVerdef)
        } else if raw == 0x6FFF_FFFE {
            Some(SectionType::GnuVerneed)
        } else if raw == 0x6FFF_FFFF {
            Some(SectionType::GnuVersym)
        } else {
            None
        }
    }

    /// What decoding `raw` gives: the type it stands for, or the message that it stands
    /// for none.
    pub open spec fn decode(raw: u32) -> Result<SectionType, Seq<char>> {
        match SectionType::of_code(raw) {
            Some(known) => Ok(known),
            None => Err("invalid section type"@),
        }
    }

    /// Decodes `raw`; a number outside the defined set is refused.
    pub fn try_from(raw: u32) -> (decoded: Result<SectionType, String>)
        ensures
            outcome(decoded) == SectionType::decode(raw),
    {
        match raw {
            0 => Ok(SectionType::Null),
            1 => Ok(SectionType::Progbits),
            2 => Ok(SectionType::Symtab),
            3 => Ok(SectionType::Strtab),
            4 => Ok(SectionType::Rela),
            5 => Ok(SectionType::Hash),
            6 => Ok(SectionType::Dynamic),
            7 => Ok(SectionType::Note),
            8 => Ok(SectionType::Nobits),
            9 => Ok(SectionType::Rel),
            10 => Ok(SectionType::Shlib),
            11 => Ok(SectionType::Dynsym),
            14 => Ok(SectionType::InitArray),
            15 => Ok(SectionType::FiniArray),
            16 => Ok(SectionType::PreinitArray),
            17 => Ok(SectionType::Group),
            18 => Ok(SectionType::SymtabShndx),
            19 => Ok(SectionType::Num),
            0x6000_0000 => Ok(SectionType::Loos),
            0x6FFF_FFF5 => Ok(SectionType::GnuAttributes),
            0x6FFF_FFF6 => Ok(SectionType::GnuHash),
            0x6FFF_FFF7 => Ok(SectionType::GnuLiblist),
            0x6FFF_FFF8 => Ok(SectionType::CheckSum),
            0x6FFF_FFFD => Ok(SectionType::GnuVerdef),
            0x6FFF_FFFE => Ok(SectionType::GnuVerneed),
            0x6FFF_FFFF => Ok(SectionType::GnuVersym),
            _ => Err("invalid section type".to_string()),
        }
    }

    /// Every type is what its own number decodes to.
    pub proof fn lemma_code_decodes(known: SectionType)
        ensures
            SectionType::of_code(known.code()) == Some(known),
    {
    }

    /// A number decodes only to the type that it is the number of.
    pub proof fn lemma_decoded_has_code(raw: u32)
        ensures
            SectionType::of_code(raw) matches Some(known) ==> known.code() == raw,
    {
    }
}

/// What a segment holds and how to read it (`p_type`).
#[derive(Debug, Clone, Copy, PartialEq, Eq, Hash, Structural)]
pub enum SegmentType {
    /// `PT_NULL`: the entry is unused.
    Null,
    /// `PT_LOAD`: a loadable segment.
    Load,
    /// `PT_DYNAMIC`: dynamic linking information.
    Dynamic,
    /// `PT_INTERP`: the path of the interpreter.
    Interp,
    /// `PT_NOTE`: auxiliary information.
    Note,
    /// `PT_SHLIB`: reserved, with unspecified semantics.
    Shlib,
    /// `PT_PHDR`: the program header table itself.
    Phdr,
    /// `PT_TLS`: the thread-local storage template.
    Tls,
    /// `PT_NUM`: the number of defined types.
    Num,
    /// `PT_GNU_EH_FRAME`: the exception handling frame header.
    GnuEhFrame,
    /// `PT_GNU_STACK`: whether the stack is executable.
    GnuStack,
    /// `PT_GNU_RELRO`: what is read-only after relocation.
    GnuRelro,
    /// `PT_GNU_PROPERTY`: the notes of `.note.gnu.property`.
    GnuProperty,
}

impl SegmentType {
    /// The number that stands for this type in a file.
    pub open spec fn spec_code(self) -> u32 {
        match self {
            SegmentType::Null => 0,
            SegmentType::Load => 1,
            SegmentType::Dynamic => 2,
            SegmentType::Interp => 3,
            SegmentType::Note => 4,
            SegmentType::Shlib => 5,
            SegmentType::Phdr => 6,
            SegmentType::Tls => 7,
            SegmentType::Num => 8,
            SegmentType::GnuEhFrame => 0x6474_E550,
            SegmentType::GnuStack => 0x6474_E551,
            SegmentType::GnuRelro => 0x6474_E552,
            SegmentType::GnuProperty => 0x6474_E553,
        }
    }

    /// The number that stands for this type in a file.
    #[verifier::when_used_as_spec(spec_code)]
    pub fn code(self) -> (raw: u32)
        ensures
            raw == self.spec_code(),
    {
        match self {
            SegmentType::Null => 0,
            SegmentType::Load => 1,
            SegmentType::Dynamic => 2,
            SegmentType::Interp => 3,
            SegmentType::Note => 4,
            SegmentType::Shlib => 5,
            SegmentType::Phdr => 6,
            SegmentType::Tls => 7,
            SegmentType::Num => 8,
            SegmentType::GnuEhFrame => 0x6474_E550,
            SegmentType::GnuStack => 0x6474_E551,
            SegmentType::GnuRelro => 0x6474_E552,
            SegmentType::GnuProperty => 0x6474_E553,
        }
    }

    /// The type that `raw` stands for, if it stands for any.
    pub open spec fn of_code(raw: u32) -> Option<SegmentType> {
        if raw == 0 {
            Some(SegmentType::Null)
        } else if raw == 1 {
            Some(SegmentType::Load)
        } else if raw == 2 {
            Some(SegmentType::Dynamic)
        } else if raw == 3 {
            Some(SegmentType::Interp)
        } else if raw == 4 {
            Some(SegmentType::Note)
        } else if raw == 5 {
            Some(SegmentType::Shlib)
        } else if raw == 6 {
            Some(SegmentType::Phdr)
        } else if raw == 7 {
            Some(SegmentType::Tls)
        } else if raw == 8 {
            Some(SegmentType::Num)
        } else if raw == 0x6474_E550 {
            Some(SegmentType::GnuEhFrame)
        } else if raw == 0x6474_E551 {
            Some(SegmentType::GnuStack)
        } else if raw == 0x6474_E552 {
            Some(SegmentType::GnuRelro)
        } else if raw == 0x6474_E553 {
            Some(SegmentType::GnuProperty)
        } else {
            None
        }
    }

    /// What decoding `raw` gives: the type it stands for, or the message that it stands
    /// for none.
    pub open spec fn decode(raw: u32) -> Result<SegmentType, Seq<char>> {
        match SegmentType::of_code(raw) {
            Some(known) => Ok(known),
            None => Err("invalid segment type"@),
        }
    }

    /// Decodes `raw`; a number outside the defined set is refused.
    pub fn try_from(raw: u32) -> (decoded: Result<SegmentType, String>)
        ensures
            outcome(decoded) == SegmentType::decode(raw),
    {
        match raw {
            0 => Ok(SegmentType::Null),
            1 => Ok(SegmentType::Load),
            2 => Ok(SegmentType::Dynamic),
            3 => Ok(SegmentType::Interp),
            4 => Ok(SegmentType::Note),
            5 => Ok(SegmentType::Shlib),
            6 => Ok(SegmentType::Phdr),
            7 => Ok(SegmentType::Tls),
            8 => Ok(SegmentType::Num),
            0x6474_E550 => Ok(SegmentType::GnuEhFrame),
            0x6474_E551 => Ok(SegmentType::GnuStack),
            0x6474_E552 => Ok(SegmentType::GnuRelro),
            0x6474_E553 => Ok(SegmentType::GnuProperty),
            _ => Err("invalid segment type".to_string()),
        }
    }

    /// Every type is what its own number decodes to.
    pub proof fn lemma_code_decodes(known: SegmentType)
        ensures
            SegmentType::of_code(known.code()) == Some(known),
    {
    }

    /// A number decodes only to the type that it is the number of.
    pub proof fn lemma_decoded_has_code(raw: u32)
        ensures
            SegmentType::of_code(raw) matches Some(known) ==> known.code() == raw,
    {
    }
}

/// A set of section attribute bits (`sh_flags`).
#[derive(Debug, Clone, Copy)]
pub struct SectionFlag64(pub u64);

impl View for SectionFlag64 {
    type V = u64;

    open spec fn view(&self) -> u64 {
        self.0
    }
}

impl SectionFlag64 {
    /// `SHF_WRITE`: the section holds data that is writable while the process runs.
    pub const WRITE: u64 = 0x1;

    /// `SHF_ALLOC`: the section takes up memory while the process runs.
    pub const ALLOC: u64 = 0x2;

    /// `SHF_EXECINSTR`: the section holds executable machine instructions.
    pub const EXECINSTR: u64 = 0x4;

    /// `SHF_MERGE`: the section's data may be merged.
    pub const MERGE: u64 = 0x10;

    /// `SHF_STRINGS`: the section holds nul-terminated strings.
    pub const STRINGS: u64 = 0x20;

    /// `SHF_INFO_LINK`: `info` holds a section header table index.
    pub const INFO_LINK: u64 = 0x40;

    /// `SHF_LINK_ORDER`: the order is to be kept when sections are combined.
    pub const LINK_ORDER: u64 = 0x80;

    /// `SHF_OS_NONCONFORMING`: handling specific to the OS is required.
    pub const OS_NONCONFORMING: u64 = 0x100;

    /// `SHF_GROUP`: the section is a member of a group.
    pub const GROUP: u64 = 0x200;

    /// `SHF_TLS`: the section holds thread-local data.
    pub const TLS: u64 = 0x400;

    /// `SHF_COMPRESSED`: the section holds compressed data.
    pub const COMPRESSED: u64 = 0x800;

    /// Bits reserved for processor-specific meanings: legal in a file, with no name here.
    pub const PROCESSOR_SPECIFIC: u64 = 0xF000_0000;

    /// Bits reserved for environment-specific meanings: legal in a file, with no name here.
    pub const ENVIRONMENT_SPECIFIC: u64 = 0x0F00_0000;

    /// Every bit that may be set: the named flags together with the reserved bits.
    pub const KNOWN: u64 = 0xFF00_0FF7;

    /// Whether `bits` has no bit set outside the known ones.
    pub open spec fn accepts(bits: u64) -> bool {
        bits & Self::KNOWN == bits
    }

    /// The known bits are the named flags and the reserved bits, and nothing else.
    pub proof fn lemma_known_bits()
        ensures
            Self::KNOWN == (
            Self::WRITE | Self::ALLOC | Self::EXECINSTR | Self::MERGE |
                Self::STRINGS | Self::INFO_LINK | Self::LINK_ORDER |
                Self::OS_NONCONFORMING | Self::GROUP | Self::TLS | Self::COMPRESSED
                | Self::PROCESSOR_SPECIFIC | Self::ENVIRONMENT_SPECIFIC
            ),
    {
        assert(0xFF00_0FF7u64 == (
            0x1u64 | 0x2u64 | 0x4u64 | 0x10u64 | 0x20u64 | 0x40u64 | 0x80u64 |
                0x100u64 | 0x200u64 | 0x400u64 | 0x800u64 | 0xF000_0000u64 |
                0x0F00_0000u64
        )) by (bit_vector);
    }

    /// `bits` is accepted exactly when each bit set in it is a known one.
    pub proof fn lemma_accepts_known_only(bits: u64)
        ensures
            Self::accepts(bits) <==> bits & !Self::KNOWN == 0,
    {
        assert((bits & 0xFF00_0FF7u64 == bits) <==> (bits & !0xFF00_0FF7u64 == 0)) by (bit_vector);
    }

    /// The set with no bit.
    pub fn empty() -> (flags: SectionFlag64)
        ensures
            flags@ == 0,
    {
        SectionFlag64(0)
    }

    /// The set with every known bit.
    pub fn all() -> (flags: SectionFlag64)
        ensures
            flags@ == Self::KNOWN,
    {
        SectionFlag64(Self::KNOWN)
    }

    /// The bits of this set, as they stand in a file.
    pub fn bits(&self) -> (bits: u64)
        ensures
            bits == self@,
    {
        self.0
    }

    /// The set made of exactly `bits`; refused where a bit of `bits` is not a known one.
    pub fn from_bits(bits: u64) -> (flags: Option<SectionFlag64>)
        ensures
            flags == if Self::accepts(bits) {
                Some(SectionFlag64(bits))
            } else {
                None
            },
    {
        if bits & Self::KNOWN == bits {
            Some(SectionFlag64(bits))
        } else {
            None
        }
    }

    /// The set made of the known bits of `bits`; the others are dropped.
    pub fn from_bits_truncate(bits: u64) -> (flags: SectionFlag64)
        ensures
            flags@ == bits & Self::KNOWN,
    {
        SectionFlag64(bits & Self::KNOWN)
    }

    /// The set made of exactly `bits`, known or not.
    pub fn from_bits_retain(bits: u64) -> (flags: SectionFlag64)
        ensures
            flags@ == bits,
    {
        SectionFlag64(bits)
    }

    /// Whether no bit is set.
    pub fn is_empty(&self) -> (none: bool)
        ensures
            none == (self@ == 0),
    {
        self.0 == 0
    }

    /// Whether every bit of `mask` is set.
    pub fn contains(&self, mask: u64) -> (every: bool)
        ensures
            every == (self@ & mask == mask),
    {
        self.0 & mask == mask
    }

    /// Whether some bit of `mask` is set.
    pub fn intersects(&self, mask: u64) -> (some: bool)
        ensures
            some == (self@ & mask != 0),
    {
        self.0 & mask != 0
    }
}

/// A set of segment permission bits (`p_flags`).
#[derive(Debug, Clone, Copy, PartialEq, Eq, Hash, Structural)]
pub struct SegmentFlag(pub u32);

impl View for SegmentFlag {
    type V = u32;

    open spec fn view(&self) -> u32 {
        self.0
    }
}

impl SegmentFlag {
    /// `PF_X`: the segment may be executed.
    pub const X: u32 = 0x1;

    /// `PF_W`: the segment may be written.
    pub const W: u32 = 0x2;

    /// `PF_R`: the segment may be read.
    pub const R: u32 = 0x4;

    /// Bits reserved for processor-specific meanings: legal in a file, with no name here.
    pub const PROCESSOR_SPECIFIC: u32 = 0xF000_0000;

    /// Every bit that may be set: the named flags together with the reserved bits.
    pub const KNOWN: u32 = 0xF000_0007;

    /// Whether `bits` has no bit set outside the known ones.
    pub open spec fn accepts(bits: u32) -> bool {
        bits & Self::KNOWN == bits
    }

    /// The known bits are the named flags and the reserved bits, and nothing else.
    pub proof fn lemma_known_bits()
        ensures
            Self::KNOWN == (
            Self::X | Self::W | Self::R | Self::PROCESSOR_SPECIFIC
            ),
    {
        assert(0xF000_0007u32 == (
            0x1u32 | 0x2u32 | 0x4u32 | 0xF000_0000u32
        )) by (bit_vector);
    }

    /// `bits` is accepted exactly when each bit set in it is a known one.
    pub proof fn lemma_accepts_known_only(bits: u32)
        ensures
            Self::accepts(bits) <==> bits & !Self::KNOWN == 0,
    {
        assert((bits & 0xF000_0007u32 == bits) <==> (bits & !0xF000_0007u32 == 0)) by (bit_vector);
    }

    /// The set with no bit.
    pub fn empty() -> (flags: SegmentFlag)
        ensures
            flags@ == 0,
    {
        SegmentFlag(0)
    }

    /// The set with every known bit.
    pub fn all() -> (flags: SegmentFlag)
        ensures
            flags@ == Self::KNOWN,
    {
        SegmentFlag(Self::KNOWN)
    }

    /// The bits of this set, as they stand in a file.
    pub fn bits(&self) -> (bits: u32)
        ensures
            bits == self@,
    {
        self.0
    }

    /// The set made of exactly `bits`; refused where a bit of `bits` is not a known one.
    pub fn from_bits(bits: u32) -> (flags: Option<SegmentFlag>)
        ensures
            flags == if Self::accepts(bits) {
                Some(SegmentFlag(bits))
            } else {
                None
            },
    {
        if bits & Self::KNOWN == bits {
            Some(SegmentFlag(bits))
        } else {
            None
        }
    }

    /// The set made of the known bits of `bits`; the others are dropped.
    pub fn from_bits_truncate(bits: u32) -> (flags: SegmentFlag)
        ensures
            flags@ == bits & Self::KNOWN,
    {
        SegmentFlag(bits & Self::KNOWN)
    }

    /// The set made of exactly `bits`, known or not.
    pub fn from_bits_retain(bits: u32) -> (flags: SegmentFlag)
        ensures
            flags@ == bits,
    {
        SegmentFlag(bits)
    }

    /// Whether no bit is set.
    pub fn is_empty(&self) -> (none: bool)
        ensures
            none == (self@ == 0),
    {
        self.0 == 0
    }

    /// Whether every bit of `mask` is set.
    pub fn contains(&self, mask: u32) -> (every: bool)
        ensures
            every == (self@ & mask == mask),
    {
        self.0 & mask == mask
    }

    /// Whether some bit of `mask` is set.
    pub fn intersects(&self, mask: u32) -> (some: bool)
        ensures
            some == (self@ & mask != 0),
    {
        self.0 & mask != 0
    }
}

/// `SHN_UNDEF`: the section header table index that stands for no section.
pub const SECTION_HEADER_NUMBER_UNDEF: u16 = 0;

/// The number of bytes that the identification block takes at the start of a file.
pub const IDENT_SIZE: usize = 16;

/// The number of bytes that the file header takes, identification block included.
pub const HEADER_SIZE: usize = 64;

/// The number of bytes of one entry of the section header table.
pub const SECTION_HEADER_SIZE: usize = 64;

/// The number of bytes of one entry of the program header table.
pub const PROGRAM_HEADER_SIZE: usize = 56;

/// The first bytes of an ELF file. They say how to read the rest, whatever the processor that
/// reads it.
#[derive(Debug, Clone)]
pub struct ElfIdent {
    /// `EI_MAG0` to `EI_MAG3`: the magic number that marks the file as an ELF object file.
    pub magic: [u8; 4],
    /// `EI_CLASS`: the file's class, or capacity.
    pub class: ElfClass,
    /// `EI_DATA`: the encoding of the processor-specific data in the file.
    pub data: Encoding,
    /// `EI_VERSION`: the version of the ELF header; always [`ElfVersion::Current`] once decoded.
    pub version: ElfVersion,
    /// `EI_OSABI`: the operating system and ABI for which the object is prepared.
    pub osabi: OsAbi,
    /// `EI_ABIVERSION`: the version of that ABI.
    pub abi_version: u8,
    /// `EI_PAD`: unused bytes, kept as they were read.
    pub pad: [u8; 7],
}

impl ElfIdent {
    /// The four bytes that every ELF file starts with: `0x7F`, `E`, `L`, `F`.
    pub open spec fn magic_bytes() -> Seq<u8> {
        seq![0x7Fu8, 0x45u8, 0x4Cu8, 0x46u8]
    }

    /// What decoding the 16 bytes of an identification block gives: the block, field by field,
    /// or the message of the first check that fails. The checks come in file order: the magic
    /// number, the class, the encoding, the version, which must be the current one, and the
    /// ABI. The ABI version and the padding are taken as they are.
    pub open spec fn decode(bytes: Seq<u8>) -> Result<ElfIdent, Seq<char>> {
        if bytes.subrange(0, 4) != ElfIdent::magic_bytes() {
            Err("magic is not for ELF"@)
        } else if ElfClass::of_code(bytes[4]) is None {
            Err("invalid ELF class"@)
        } else if Encoding::of_code(bytes[5]) is None {
            Err("invaild encoding"@)
        } else if ElfVersion::of_code(bytes[6]) is None {
            Err("not supported ELF version"@)
        } else if ElfVersion::of_code(bytes[6]) != Some(ElfVersion::Current) {
            Err("invaild ELF version"@)
        } else if OsAbi::of_code(bytes[7]) is None {
            Err("not supported OS or ABI"@)
        } else {
            Ok(
                ElfIdent {
                    magic: [bytes[0], bytes[1], bytes[2], bytes[3]],
                    class: ElfClass::of_code(bytes[4])->Some_0,
                    data: Encoding::of_code(bytes[5])->Some_0,
                    version: ElfVersion::Current,
                    osabi: OsAbi::of_code(bytes[7])->Some_0,
                    abi_version: bytes[8],
                    pad: [
                        bytes[9],
                        bytes[10],
                        bytes[11],
                        bytes[12],
                        bytes[13],
                        bytes[14],
                        bytes[15],
                    ],
                },
            )
        }
    }

    /// The identification block of a file that has the magic number, the current version and
    /// the System V ABI, and neither class nor encoding yet.
    pub fn new() -> (ident: ElfIdent)
        ensures
            ident.magic@ == ElfIdent::magic_bytes(),
            ident.class == ElfClass::Unspecified,
            ident.data == Encoding::Unspecified,
            ident.version == ElfVersion::Current,
            ident.osabi == OsAbi::SysV,
            ident.abi_version == 0,
            ident.pad@ == Seq::new(7, |i: int| 0u8),
    {
        let ident = ElfIdent {
            magic: [0x7F, 0x45, 0x4C, 0x46],
            class: ElfClass::Unspecified,
            data: Encoding::Unspecified,
            version: ElfVersion::Current,
            osabi: OsAbi::SysV,
            abi_version: 0,
            pad: [0, 0, 0, 0, 0, 0, 0],
        };
        assert(ident.magic@ =~= ElfIdent::magic_bytes());
        assert(ident.pad@ =~= Seq::new(7, |i: int| 0u8));
        ident
    }

    /// Decodes and validates the identification block that stands in `bytes`.
    pub fn from_bytes(bytes: [u8; 16]) -> (decoded: Result<ElfIdent, String>)
        ensures
            outcome(decoded) == ElfIdent::decode(bytes@),
    {
        if bytes[0] != 0x7F || bytes[1] != 0x45 || bytes[2] != 0x4C || bytes[3] != 0x46 {
            assert(bytes@.subrange(0, 4) != ElfIdent::magic_bytes()) by {
                if bytes@.subrange(0, 4) == ElfIdent::magic_bytes() {
                    assert(bytes@.subrange(0, 4)[0] == 0x7F);
                    assert(bytes@.subrange(0, 4)[1] == 0x45);
                    assert(bytes@.subrange(0, 4)[2] == 0x4C);
                    assert(bytes@.subrange(0, 4)[3] == 0x46);
                }
            }
            return Err("magic is not for ELF".to_string());
        }
        assert(bytes@.subrange(0, 4) =~= ElfIdent::magic_bytes());
        let class = match ElfClass::try_from(bytes[4]) {
            Ok(class) => class,
            Err(message) => return Err(message),
        };
        let data = match Encoding::try_from(bytes[5]) {
            Ok(data) => data,
            Err(message) => return Err(message),
        };
        match ElfVersion::try_from(bytes[6]) {
            Ok(ElfVersion::Current) => {},
            Ok(_) => return Err("invaild ELF version".to_string()),
            Err(message) => return Err(message),
        }
        let osabi = match OsAbi::try_from(bytes[7]) {
            Ok(osabi) => osabi,
            Err(message) => return Err(message),
        };
        let ident = ElfIdent {
            magic: [bytes[0], bytes[1], bytes[2], bytes[3]],
            class,
            data,
            version: ElfVersion::Current,
            osabi,
            abi_version: bytes[8],
            pad: [bytes[9], bytes[10], bytes[11], bytes[12], bytes[13], bytes[14], bytes[15]],
        };
        proof {
            let expected = ElfIdent::decode(bytes@)->Ok_0;
            assert(ident.magic =~= expected.magic);
            assert(ident.pad =~= expected.pad);
        }
        Ok(ident)
    }
}

impl Default for ElfIdent {
    fn default() -> (ident: ElfIdent)
        ensures
            ident.magic@ == ElfIdent::magic_bytes(),
            ident.class == ElfClass::Unspecified,
            ident.data == Encoding::Unspecified,
            ident.version == ElfVersion::Current,
            ident.osabi == OsAbi::SysV,
            ident.abi_version == 0,
            ident.pad@ == Seq::new(7, |i: int| 0u8),
    {
        ElfIdent::new()
    }
}

/// The file header of a 64-bit ELF object file.
#[derive(Debug, Clone)]
pub struct Elf64Header {
    /// `e_ident`: marks the file as an object file and says how to read the rest of it.
    pub ident: ElfIdent,
    /// `e_type`: the object file type.
    pub ty: ObjectFileType,
    /// `e_machine`: the architecture that the file requires.
    pub machine: Machine,
    /// `e_version`: the object file version; the current one once decoded.
    pub version: u32,
    /// `e_entry`: the virtual address where the process starts, or zero where the file has no
    /// entry point.
    pub entry: u64,
    /// `e_phoff`: the file offset of the program header table, or zero where the file has none.
    pub phoff: u64,
    /// `e_shoff`: the file offset of the section header table, or zero where the file has none.
    pub shoff: u64,
    /// `e_flags`: processor-specific flags.
    pub flags: u32,
    /// `e_ehsize`: the size of the ELF header in bytes.
    pub ehsize: u16,
    /// `e_phentsize`: the size in bytes of one entry of the program header table.
    pub phentsize: u16,
    /// `e_phnum`: the number of entries of the program header table.
    pub phnum: u16,
    /// `e_shentsize`: the size in bytes of one entry of the section header table.
    pub shentsize: u16,
    /// `e_shnum`: the number of entries of the section header table.
    pub shnum: u16,
    /// `e_shstrndx`: the section header table index of the section name string table, or
    /// [`SECTION_HEADER_NUMBER_UNDEF`] where the file has none.
    pub shstrndx: u16,
}

impl Elf64Header {
    /// What decoding the 48 bytes that follow the identification block gives: the header that
    /// holds `ident` and, in file order, the fields that `left` spells in little-endian order;
    /// or the message of the first check that fails. The object file type is checked first,
    /// then the machine, then the version, which must be the current one.
    pub open spec fn decode(ident: ElfIdent, left: Seq<u8>) -> Result<Elf64Header, Seq<char>> {
        match ObjectFileType::decode(field::<u16>(left, 0)) {
            Err(message) => Err(message),
            Ok(ty) => match Machine::decode(field::<u16>(left, 2)) {
                Err(message) => Err(message),
                Ok(machine) => if field::<u32>(left, 4) != ElfVersion::Current.code() {
                    Err("invalid ELF version"@)
                } else {
                    Ok(
                        Elf64Header {
                            ident,
                            ty,
                            machine,
                            version: field::<u32>(left, 4),
                            entry: field::<u64>(left, 8),
                            phoff: field::<u64>(left, 16),
                            shoff: field::<u64>(left, 24),
                            flags: field::<u32>(left, 32),
                            ehsize: field::<u16>(left, 36),
                            phentsize: field::<u16>(left, 38),
                            phnum: field::<u16>(left, 40),
                            shentsize: field::<u16>(left, 42),
                            shnum: field::<u16>(left, 44),
                            shstrndx: field::<u16>(left, 46),
                        },
                    )
                },
            },
        }
    }

    /// Decodes the rest of the file header, which stands in `left`, behind the identification
    /// block `ident`. The first field that is invalid ends the decoding.
    pub fn from_bytes(ident: ElfIdent, left: [u8; 48]) -> (decoded: Result<Elf64Header, String>)
        ensures
            outcome(decoded) == Elf64Header::decode(ident, left@),
    {
        let ghost whole = left@;
        let mut cursor: &[u8] = left.as_slice();
        assert(cursor@ =~= whole.skip(0));
        let ty = match ObjectFileType::try_from(pull::<u16>(&mut cursor, Ghost(whole), Ghost(0))) {
            Ok(ty) => ty,
            Err(message) => return Err(message),
        };
        let machine = match Machine::try_from(pull::<u16>(&mut cursor, Ghost(whole), Ghost(2))) {
            Ok(machine) => machine,
            Err(message) => return Err(message),
        };
        let version: u32 = pull(&mut cursor, Ghost(whole), Ghost(4));
        if version != ElfVersion::Current.code() as u32 {
            return Err("invalid ELF version".to_string());
        }
        let entry: u64 = pull(&mut cursor, Ghost(whole), Ghost(8));
        let phoff: u64 = pull(&mut cursor, Ghost(whole), Ghost(16));
        let shoff: u64 = pull(&mut cursor, Ghost(whole), Ghost(24));
        let flags: u32 = pull(&mut cursor, Ghost(whole), Ghost(32));
        let ehsize: u16 = pull(&mut cursor, Ghost(whole), Ghost(36));
        let phentsize: u16 = pull(&mut cursor, Ghost(whole), Ghost(38));
        let phnum: u16 = pull(&mut cursor, Ghost(whole), Ghost(40));
        let shentsize: u16 = pull(&mut cursor, Ghost(whole), Ghost(42));
        let shnum: u16 = pull(&mut cursor, Ghost(whole), Ghost(44));
        let shstrndx: u16 = pull(&mut cursor, Ghost(whole), Ghost(46));
        Ok(
            Elf64Header {
                ident,
                ty,
                machine,
                version,
                entry,
                phoff,
                shoff,
                flags,
                ehsize,
                phentsize,
                phnum,
                shentsize,
                shnum,
                shstrndx,
            },
        )
    }
}

impl Default for Elf64Header {
    fn default() -> (header: Elf64Header)
        ensures
            header.ident.magic@ == ElfIdent::magic_bytes(),
            header.ident.class == ElfClass::Unspecified,
            header.ident.data == Encoding::Unspecified,
            header.ident.version == ElfVersion::Current,
            header.ident.osabi == OsAbi::SysV,
            header.ident.abi_version == 0,
            header.ident.pad@ == Seq::new(7, |i: int| 0u8),
            header.ty == ObjectFileType::Unspecified,
            header.machine == Machine::Unspecified,
            header.version == 0,
            header.entry == 0,
            header.phoff == 0,
            header.shoff == 0,
            header.flags == 0,
            header.ehsize == 0,
            header.phentsize == 0,
            header.phnum == 0,
            header.shentsize == 0,
            header.shnum == 0,
            header.shstrndx == 0,
    {
        Elf64Header {
            ident: ElfIdent::new(),
            ty: ObjectFileType::Unspecified,
            machine: Machine::Unspecified,
            version: 0,
            entry: 0,
            phoff: 0,
            shoff: 0,
            flags: 0,
            ehsize: 0,
            phentsize: 0,
            phnum: 0,
            shentsize: 0,
            shnum: 0,
            shstrndx: 0,
        }
    }
}

/// One entry of the section header table.
#[derive(Debug, Clone)]
pub struct Elf64SectionHeader {
    /// `sh_name`: where the section's name starts in the section name string table.
    pub name: u32,
    /// `sh_type`: what the section holds and how to read it.
    pub ty: SectionType,
    /// `sh_flags`: one-bit attributes of the section.
    pub flags: SectionFlag64,
    /// `sh_addr`: the address of the section's first byte in the memory image of a process, where
    /// the section appears there.
    pub addr: u64,
    /// `sh_offset`: the offset of the section's first byte from the start of the file.
    pub offset: u64,
    /// `sh_size`: the section's size in bytes.
    pub size: u64,
    /// `sh_link`: a section header table index, whose meaning depends on the section type.
    pub link: u32,
    /// `sh_info`: extra information, whose meaning depends on the section type.
    pub info: u32,
    /// `sh_addralign`: the alignment of the section's address: zero or a power of two, where
    /// zero and one ask for no alignment.
    pub addralign: u64,
    /// `sh_entsize`: the size in bytes of one entry, where the section holds a table of entries
    /// of one size; zero where it does not.
    pub entsize: u64,
}

impl Elf64SectionHeader {
    /// What decoding the 64 bytes of one entry gives: the section header whose fields `entry`
    /// spells in file order, or the message of the first check that fails. The section type is
    /// checked first, then the flags.
    pub open spec fn decode(entry: Seq<u8>) -> Result<Elf64SectionHeader, Seq<char>> {
        match SectionType::decode(field::<u32>(entry, 4)) {
            Err(message) => Err(message),
            Ok(ty) => if !SectionFlag64::accepts(field::<u64>(entry, 8)) {
                Err("a section has invalid flags: 0x"@ + digits(field::<u64>(entry, 8) as nat, 16))
            } else {
                Ok(
                    Elf64SectionHeader {
                        name: field::<u32>(entry, 0),
                        ty,
                        flags: SectionFlag64(field::<u64>(entry, 8)),
                        addr: field::<u64>(entry, 16),
                        offset: field::<u64>(entry, 24),
                        size: field::<u64>(entry, 32),
                        link: field::<u32>(entry, 40),
                        info: field::<u32>(entry, 44),
                        addralign: field::<u64>(entry, 48),
                        entsize: field::<u64>(entry, 56),
                    },
                )
            },
        }
    }

    /// Decodes the entry that stands in the first 64 bytes of `entry`.
    pub(crate) fn read(entry: &[u8]) -> (decoded: Result<Elf64SectionHeader, String>)
        requires
            entry@.len() >= SECTION_HEADER_SIZE,
        ensures
            outcome(decoded) == Elf64SectionHeader::decode(entry@.take(SECTION_HEADER_SIZE as int)),
    {
        let ghost whole = entry@;
        let mut cursor: &[u8] = entry;
        proof {
            assert(cursor@ =~= whole.skip(0));
            lemma_fields_of_window(whole, 0, SECTION_HEADER_SIZE as int);
        }
        let name: u32 = pull(&mut cursor, Ghost(whole), Ghost(0));
        let ty = match SectionType::try_from(pull::<u32>(&mut cursor, Ghost(whole), Ghost(4))) {
            Ok(ty) => ty,
            Err(message) => return Err(message),
        };
        let raw: u64 = pull(&mut cursor, Ghost(whole), Ghost(8));
        let flags = match SectionFlag64::from_bits(raw) {
            Some(flags) => flags,
            None => {
                let text = digits_text(raw, 16);
                return Err(String::from_str("a section has invalid flags: 0x").concat(text.as_str()));
            },
        };
        let addr: u64 = pull(&mut cursor, Ghost(whole), Ghost(16));
        let offset: u64 = pull(&mut cursor, Ghost(whole), Ghost(24));
        let size: u64 = pull(&mut cursor, Ghost(whole), Ghost(32));
        let link: u32 = pull(&mut cursor, Ghost(whole), Ghost(40));
        let info: u32 = pull(&mut cursor, Ghost(whole), Ghost(44));
        let addralign: u64 = pull(&mut cursor, Ghost(whole), Ghost(48));
        let entsize: u64 = pull(&mut cursor, Ghost(whole), Ghost(56));
        Ok(Elf64SectionHeader { name, ty, flags, addr, offset, size, link, info, addralign, entsize })
    }
}

/// One entry of the program header table.
#[derive(Debug, Clone)]
pub struct Elf64ProgramHeader {
    /// `p_type`: what the segment holds and how to read it.
    pub ty: SegmentType,
    /// `p_flags`: the permissions of the segment.
    pub flags: SegmentFlag,
    /// `p_offset`: the offset of the segment's first byte from the start of the file.
    pub offset: u64,
    /// `p_vaddr`: the virtual address of the segment's first byte in memory.
    pub vaddr: u64,
    /// `p_paddr`: the physical address of the segment, where that matters.
    pub paddr: u64,
    /// `p_filesz`: the number of bytes of the segment in the file.
    pub filesz: u64,
    /// `p_memsz`: the number of bytes of the segment in memory.
    pub memsz: u64,
    /// `p_align`: the alignment of the segment in memory and in the file.
    pub align: u64,
}

impl Elf64ProgramHeader {
    /// What decoding the 56 bytes of one entry gives: the program header whose fields `entry`
    /// spells in file order, or the message of the first check that fails. The segment type is
    /// checked first, then the flags.
    pub open spec fn decode(entry: Seq<u8>) -> Result<Elf64ProgramHeader, Seq<char>> {
        match SegmentType::decode(field::<u32>(entry, 0)) {
            Err(message) => Err(message),
            Ok(ty) => if !SegmentFlag::accepts(field::<u32>(entry, 4)) {
                Err("a section has invalid flags: "@ + digits(field::<u32>(entry, 4) as nat, 16))
            } else {
                Ok(
                    Elf64ProgramHeader {
                        ty,
                        flags: SegmentFlag(field::<u32>(entry, 4)),
                        offset: field::<u64>(entry, 8),
                        vaddr: field::<u64>(entry, 16),
                        paddr: field::<u64>(entry, 24),
                        filesz: field::<u64>(entry, 32),
                        memsz: field::<u64>(entry, 40),
                        align: field::<u64>(entry, 48),
                    },
                )
            },
        }
    }

    /// Decodes the entry that stands in the first 56 bytes of `entry`.
    pub(crate) fn read(entry: &[u8]) -> (decoded: Result<Elf64ProgramHeader, String>)
        requires
            entry@.len() >= PROGRAM_HEADER_SIZE,
        ensures
            outcome(decoded) == Elf64ProgramHeader::decode(entry@.take(PROGRAM_HEADER_SIZE as int)),
    {
        let ghost whole = entry@;
        let mut cursor: &[u8] = entry;
        proof {
            assert(cursor@ =~= whole.skip(0));
            lemma_fields_of_window(whole, 0, PROGRAM_HEADER_SIZE as int);
        }
        let ty = match SegmentType::try_from(pull::<u32>(&mut cursor, Ghost(whole), Ghost(0))) {
            Ok(ty) => ty,
            Err(message) => return Err(message),
        };
        let raw: u32 = pull(&mut cursor, Ghost(whole), Ghost(4));
        let flags = match SegmentFlag::from_bits(raw) {
            Some(flags) => flags,
            None => {
                let text = digits_text(raw as u64, 16);
                return Err(String::from_str("a section has invalid flags: ").concat(text.as_str()));
            },
        };
        let offset: u64 = pull(&mut cursor, Ghost(whole), Ghost(8));
        let vaddr: u64 = pull(&mut cursor, Ghost(whole), Ghost(16));
        let paddr: u64 = pull(&mut cursor, Ghost(whole), Ghost(24));
        let filesz: u64 = pull(&mut cursor, Ghost(whole), Ghost(32));
        let memsz: u64 = pull(&mut cursor, Ghost(whole), Ghost(40));
        let align: u64 = pull(&mut cursor, Ghost(whole), Ghost(48));
        Ok(Elf64ProgramHeader { ty, flags, offset, vaddr, paddr, filesz, memsz, align })
    }
}

} // verus!
