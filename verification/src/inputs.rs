//! Object files as they come in: the decoded file header, the bytes behind it, and the section
//! and program header tables read out of those bytes on request.

use crate::elf::{
    Elf64Header, Elf64ProgramHeader, Elf64SectionHeader, ElfClass, ElfIdent, ElfVersion, Encoding,
    Machine, ObjectFileType, OsAbi, HEADER_SIZE, IDENT_SIZE, PROGRAM_HEADER_SIZE,
    SECTION_HEADER_SIZE,
};
use crate::loader::{lemma_feed_follows_the_source, Loader, Progress, ReadEvent, Request};
use crate::text::digits;
use crate::util::{field, lemma_fields_of_window, FromBytes};
use vstd::prelude::*;
use vstd::slice::{slice_subrange, slice_to_vec};

verus! {

/// An object file: its decoded file header, and every byte of the file that follows the header,
/// in file order.
pub struct ObjectFile {
    /// The file header.
    pub header: Elf64Header,
    /// The bytes of the file from the end of the file header on.
    pub data: Vec<u8>,
}

/// What an object file is to contracts: its header, and the bytes behind it as a sequence.
pub struct ObjectFileView {
    /// The file header.
    pub header: Elf64Header,
    /// The bytes of the file from the end of the file header on.
    pub data: Seq<u8>,
}

impl View for ObjectFile {
    type V = ObjectFileView;

    open spec fn view(&self) -> ObjectFileView {
        ObjectFileView { header: self.header, data: self.data@ }
    }
}

/// What a construction gave, with the object file taken by its view and the message of a
/// failure taken as text.
pub open spec fn loaded(result: Result<ObjectFile, String>) -> Result<ObjectFileView, Seq<char>> {
    match result {
        Ok(file) => Ok(file@),
        Err(message) => Err(message@),
    }
}

/// Whether files with this identification block are taken: 64-bit ones, in little-endian
/// encoding, for the System V ABI.
pub open spec fn supported(ident: ElfIdent) -> bool {
    ident.class == ElfClass::Class64 && ident.data == Encoding::LSB2 && ident.osabi == OsAbi::SysV
}

/// What the first 16 bytes of a file say of it: its identification block, or the message of
/// the check that fails, where one that decodes and is not supported fails last.
pub open spec fn ident_verdict(bytes: Seq<u8>) -> Result<ElfIdent, Seq<char>> {
    match ElfIdent::decode(bytes.subrange(0, IDENT_SIZE as int)) {
        Err(message) => Err(message),
        Ok(ident) => if supported(ident) {
            Ok(ident)
        } else {
            Err("unsupported format"@)
        },
    }
}

/// What the first 64 bytes of a file say of it: its file header, or the message of the first
/// check that fails.
pub open spec fn header_verdict(bytes: Seq<u8>) -> Result<Elf64Header, Seq<char>> {
    match ident_verdict(bytes) {
        Err(message) => Err(message),
        Ok(ident) => Elf64Header::decode(ident, bytes.subrange(IDENT_SIZE as int, HEADER_SIZE as int)),
    }
}

/// Whether the first bytes of a file, as far as `bytes` holds them, already show that the file
/// is refused.
pub open spec fn settled(bytes: Seq<u8>) -> bool {
    ||| bytes.len() >= IDENT_SIZE && ident_verdict(bytes) is Err
    ||| bytes.len() >= HEADER_SIZE && header_verdict(bytes) is Err
}

/// What constructing an object file from a source gives that hands out `bytes` and then ends:
/// the file, made of the header that the first 64 bytes spell and of all bytes behind them; or
/// the message of the first step that fails. The steps are: 16 bytes for the identification
/// block; that block's checks; the check that the file is supported; 48 bytes more; the checks
/// of the rest of the header.
pub open spec fn load(bytes: Seq<u8>) -> Result<ObjectFileView, Seq<char>> {
    if bytes.len() < IDENT_SIZE {
        Err("ident contains "@ + digits(bytes.len(), 10) + " bytes"@)
    } else if ident_verdict(bytes) is Err {
        Err(ident_verdict(bytes)->Err_0)
    } else if bytes.len() < HEADER_SIZE {
        Err("invalid ELF header"@)
    } else {
        match header_verdict(bytes) {
            Err(message) => Err(message),
            Ok(header) => Ok(ObjectFileView { header, data: bytes.skip(HEADER_SIZE as int) }),
        }
    }
}

/// Whether `bytes` start with the file header of a file that is taken here: the magic number;
/// the 64-bit class, the little-endian encoding, the current version and the System V ABI; a
/// known object file type and a known machine; and the current version once more.
pub open spec fn well_formed(bytes: Seq<u8>) -> bool {
    &&& bytes.len() >= HEADER_SIZE
    &&& bytes.subrange(0, 4) == ElfIdent::magic_bytes()
    &&& bytes[4] == ElfClass::Class64.code()
    &&& bytes[5] == Encoding::LSB2.code()
    &&& bytes[6] == ElfVersion::Current.code()
    &&& bytes[7] == OsAbi::SysV.code()
    &&& ObjectFileType::of_code(field::<u16>(bytes, 16)) is Some
    &&& Machine::of_code(field::<u16>(bytes, 18)) is Some
    &&& field::<u32>(bytes, 20) == ElfVersion::Current.code()
}

impl ObjectFile {
    /// Whether a table at file offset `offset` can be read from the bytes behind the header:
    /// there is no table, or it starts behind the header and not behind the end of the file.
    pub open spec fn spec_table_in_reach(&self, offset: u64) -> bool {
        offset == 0 || HEADER_SIZE <= offset <= HEADER_SIZE + self.data@.len()
    }

    /// Whether a table at file offset `offset` can be read from the bytes behind the header:
    /// there is no table, or it starts behind the header and not behind the end of the file.
    #[verifier::when_used_as_spec(spec_table_in_reach)]
    pub fn table_in_reach(&self, offset: u64) -> (reachable: bool)
        ensures
            reachable == self.spec_table_in_reach(offset),
    {
        offset == 0 || (offset >= HEADER_SIZE as u64 && offset - HEADER_SIZE as u64
            <= self.data.len() as u64)
    }

    /// The bytes that a table at file offset `offset` is read from: those behind the header,
    /// from the table's start on; none where the table starts before the end of the header or
    /// behind the end of the file; and all bytes behind the header where the file has no such
    /// table.
    pub open spec fn table_window(&self, offset: u64) -> Seq<u8> {
        if offset == 0 {
            self.data@
        } else if self.table_in_reach(offset) {
            self.data@.skip(offset - HEADER_SIZE)
        } else {
            Seq::empty()
        }
    }

    /// The bytes that a table at file offset `offset` is read from.
    fn window_of(&self, offset: u64) -> (window: &[u8])
        ensures
            window@ == self.table_window(offset),
    {
        let bytes = self.data.as_slice();
        let length = bytes.len();
        if offset == 0 {
            bytes
        } else if self.table_in_reach(offset) {
            let start = (offset - HEADER_SIZE as u64) as usize;
            slice_subrange(bytes, start, length)
        } else {
            let window = slice_subrange(bytes, length, length);
            assert(window@ =~= Seq::<u8>::empty());
            window
        }
    }

    /// What the section header table of this file holds: its entries in file order, or the
    /// first complaint that reading it meets.
    pub open spec fn section_table(&self) -> Result<Seq<Elf64SectionHeader>, Seq<char>> {
        SectionHeaderIter::entries_from(
            self.table_window(self.header.shoff),
            if self.header.shoff != 0 {
                self.header.shnum as nat
            } else {
                0
            },
            0,
        )
    }

    /// What the program header table of this file holds: its entries in file order, or the
    /// first complaint that reading it meets.
    pub open spec fn program_table(&self) -> Result<Seq<Elf64ProgramHeader>, Seq<char>> {
        ProgramHeaderIter::entries_from(
            self.table_window(self.header.phoff),
            if self.header.phoff != 0 {
                self.header.phnum as nat
            } else {
                0
            },
            0,
        )
    }

    /// A cursor over the section header table. Where the header gives no offset for the table,
    /// the cursor yields nothing, whatever number of entries the header declares. Where the
    /// header puts the table outside the bytes of the file, the cursor has no bytes to read
    /// from, and its first pull says so if an entry is declared.
    pub fn section_headers(&self) -> (entries: SectionHeaderIter<'_>)
        ensures
            entries.window() == self.table_window(self.header.shoff),
            entries.declared() == if self.header.shoff != 0 {
                self.header.shnum as nat
            } else {
                0
            },
            entries.position() == 0,
            self.header.shoff == 0 ==> entries.upcoming() is None,
    {
        let head = self.window_of(self.header.shoff);
        if self.header.shoff != 0 {
            SectionHeaderIter { head, len: self.header.shnum, pos: 0 }
        } else {
            SectionHeaderIter { head, len: 0, pos: 0 }
        }
    }

    /// A cursor over the program header table. Where the header gives no offset for the table,
    /// the cursor yields nothing, whatever number of entries the header declares. Where the
    /// header puts the table outside the bytes of the file, the cursor has no bytes to read
    /// from, and its first pull says so if an entry is declared.
    pub fn program_headers(&self) -> (entries: ProgramHeaderIter<'_>)
        ensures
            entries.window() == self.table_window(self.header.phoff),
            entries.declared() == if self.header.phoff != 0 {
                self.header.phnum as nat
            } else {
                0
            },
            entries.position() == 0,
            self.header.phoff == 0 ==> entries.upcoming() is None,
    {
        let head = self.window_of(self.header.phoff);
        if self.header.phoff != 0 {
            ProgramHeaderIter { head, len: self.header.phnum, pos: 0 }
        } else {
            ProgramHeaderIter { head, len: 0, pos: 0 }
        }
    }

    /// Constructs an object file from a byte source that is held in memory: `reader` holds the
    /// whole file, from its first byte on. The construction asks for the bytes as it would ask
    /// any source: what the identification block needs, what the rest of the header needs, and
    /// all that is left.
    pub fn from_reader(reader: &[u8]) -> (constructed: Result<ObjectFile, String>)
        ensures
            loaded(constructed) == load(reader@),
    {
        let length = reader.len();
        let mut loader = Loader::new();
        let mut at: usize = 0;
        assert(reader@.take(0) =~= Seq::<u8>::empty());
        loop
            invariant
                length == reader@.len(),
                at <= length,
                loader.taken() == reader@.take(at as int),
            decreases length - at,
        {
            let ghost taken = loader.taken();
            let until = match loader.request() {
                Request::Fill(most) => if length - at < most {
                    length
                } else {
                    at + most
                },
                Request::Drain => length,
            };
            let chunk = slice_to_vec(slice_subrange(reader, at, until));
            let ghost fed = chunk;
            let progress = loader.feed(ReadEvent::Data(chunk));
            proof {
                assert(taken + fed@ =~= reader@.take(until as int));
                assert(reader@.take(length as int) =~= reader@);
                lemma_feed_follows_the_source(reader@, taken, fed, progress);
            }
            match progress {
                Progress::Done(constructed) => {
                    return constructed;
                },
                Progress::Pending(next) => {
                    loader = next;
                    at = until;
                },
            }
        }
    }
}

/// The construction succeeds on the well-formed byte streams and on no others. The file that
/// it gives then holds, field by field, the numbers that stand in the header's bytes in
/// little-endian order, and behind the header every byte that follows it.
pub proof fn lemma_load_takes_the_well_formed(bytes: Seq<u8>)
    ensures
        load(bytes) is Ok <==> well_formed(bytes),
        load(bytes) matches Ok(file) ==> {
            &&& file.header.entry == field::<u64>(bytes, 24)
            &&& file.header.phoff == field::<u64>(bytes, 32)
            &&& file.header.shoff == field::<u64>(bytes, 40)
            &&& file.header.flags == field::<u32>(bytes, 48)
            &&& file.header.ehsize == field::<u16>(bytes, 52)
            &&& file.header.phentsize == field::<u16>(bytes, 54)
            &&& file.header.phnum == field::<u16>(bytes, 56)
            &&& file.header.shentsize == field::<u16>(bytes, 58)
            &&& file.header.shnum == field::<u16>(bytes, 60)
            &&& file.header.shstrndx == field::<u16>(bytes, 62)
            &&& file.data == bytes.skip(HEADER_SIZE as int)
        },
{
    if bytes.len() >= IDENT_SIZE {
        let ident = bytes.subrange(0, IDENT_SIZE as int);
        assert(ident.subrange(0, 4) =~= bytes.subrange(0, 4));
        if bytes.len() >= HEADER_SIZE {
            lemma_fields_of_window(bytes, IDENT_SIZE as int, HEADER_SIZE as int);
        }
    }
}

/// Bytes that do not start with the magic number are refused for that, whatever follows the
/// first four of them.
pub proof fn lemma_load_refuses_wrong_magic(bytes: Seq<u8>)
    requires
        bytes.len() >= IDENT_SIZE,
        bytes.subrange(0, 4) != ElfIdent::magic_bytes(),
    ensures
        load(bytes) == Err::<ObjectFileView, Seq<char>>("magic is not for ELF"@),
{
    assert(bytes.subrange(0, IDENT_SIZE as int).subrange(0, 4) =~= bytes.subrange(0, 4));
}

/// A file of a known class other than the 64-bit one is refused as unsupported, where its
/// identification block is in order otherwise, whatever the rest of the header holds.
pub proof fn lemma_load_refuses_other_classes(bytes: Seq<u8>)
    requires
        bytes.len() >= IDENT_SIZE,
        bytes.subrange(0, 4) == ElfIdent::magic_bytes(),
        ElfClass::of_code(bytes[4]) is Some,
        bytes[4] != ElfClass::Class64.code(),
        Encoding::of_code(bytes[5]) is Some,
        bytes[6] == ElfVersion::Current.code(),
        OsAbi::of_code(bytes[7]) is Some,
    ensures
        load(bytes) == Err::<ObjectFileView, Seq<char>>("unsupported format"@),
{
    assert(bytes.subrange(0, IDENT_SIZE as int).subrange(0, 4) =~= bytes.subrange(0, 4));
}

/// A file whose header gives no offset for a table has none, whatever number of entries the
/// header declares.
pub proof fn lemma_no_offset_no_table(file: ObjectFile)
    ensures
        file.header.shoff == 0 ==> file.section_table() == Ok::<
            Seq<Elf64SectionHeader>,
            Seq<char>,
        >(Seq::empty()),
        file.header.phoff == 0 ==> file.program_table() == Ok::<
            Seq<Elf64ProgramHeader>,
            Seq<char>,
        >(Seq::empty()),
{
}

/// A table that the header puts outside the bytes of the file, with at least one entry
/// declared, is refused at its first entry, which is found cut short.
pub proof fn lemma_table_out_of_reach_is_refused(file: ObjectFile)
    ensures
        file.header.shoff != 0 && !file.table_in_reach(file.header.shoff) && file.header.shnum > 0
            ==> file.section_table() == Err::<Seq<Elf64SectionHeader>, Seq<char>>(
            "the size of a section header is invalid"@,
        ),
        file.header.phoff != 0 && !file.table_in_reach(file.header.phoff) && file.header.phnum > 0
            ==> file.program_table() == Err::<Seq<Elf64ProgramHeader>, Seq<char>>(
            "the size of a program header is invalid"@,
        ),
{
}

/// Two constructions from the same bytes give the same: the same failure, or files with the
/// same header, the same bytes behind it, and so the same tables.
pub proof fn lemma_construction_is_deterministic(
    bytes: Seq<u8>,
    first: Result<ObjectFile, String>,
    second: Result<ObjectFile, String>,
)
    requires
        loaded(first) == load(bytes),
        loaded(second) == load(bytes),
    ensures
        loaded(first) == loaded(second),
        first is Ok ==> {
            let one = first->Ok_0;
            let other = second->Ok_0;
            &&& second is Ok
            &&& one.header == other.header
            &&& one.data@ == other.data@
            &&& one.section_table() == other.section_table()
            &&& one.program_table() == other.program_table()
        },
{
}

/// What a pull yielded, with the message of a complaint taken as text.
pub open spec fn pulled<T>(item: Option<Result<T, String>>) -> Option<Result<T, Seq<char>>> {
    match item {
        None => None,
        Some(Ok(entry)) => Some(Ok(entry)),
        Some(Err(message)) => Some(Err(message@)),
    }
}

/// What a collection gave, with its entries as a sequence and the message of a complaint taken
/// as text.
pub open spec fn collected<T>(all: Result<Vec<T>, String>) -> Result<Seq<T>, Seq<char>> {
    match all {
        Ok(entries) => Ok(entries@),
        Err(message) => Err(message@),
    }
}

/// What a collection gives that holds `front` already and goes on as `rest` says.
pub open spec fn after<T>(front: Seq<T>, rest: Result<Seq<T>, Seq<char>>) -> Result<
    Seq<T>,
    Seq<char>,
> {
    match rest {
        Ok(entries) => Ok(front + entries),
        Err(message) => Err(message),
    }
}

/// A cursor over the section header table of an object file. It decodes one entry at each pull and
/// holds no copy of the bytes that it reads.
pub struct SectionHeaderIter<'a> {
    head: &'a [u8],
    len: u16,
    pos: usize,
}

impl<'a> SectionHeaderIter<'a> {
    #[verifier::type_invariant]
    closed spec fn within_window(self) -> bool {
        self.pos <= self.head@.len()
    }

    /// The bytes that the table is read from: the table starts at their first byte.
    pub closed spec fn window(&self) -> Seq<u8> {
        self.head@
    }

    /// The number of entries that the table is taken to have: what the file header declares,
    /// and none once an entry was found to be cut short.
    pub closed spec fn declared(&self) -> nat {
        self.len as nat
    }

    /// The offset in the window of the entry that the next pull decodes.
    pub closed spec fn position(&self) -> nat {
        self.pos as nat
    }

    /// What a pull yields at offset `position` of a table of `declared` entries that is read
    /// from `window`: nothing once the declared entries are behind; the complaint that an entry
    /// is cut short where fewer than 64 bytes are left; else the entry decoded, or the
    /// complaint of the field that is invalid.
    pub open spec fn entry_at(window: Seq<u8>, declared: nat, position: nat) -> Option<
        Result<Elf64SectionHeader, Seq<char>>,
    > {
        if position >= 64 * declared {
            None
        } else if window.len() - position < 64 {
            Some(Err("the size of a section header is invalid"@))
        } else {
            Some(Elf64SectionHeader::decode(window.subrange(position as int, position as int + 64)))
        }
    }

    /// What the next pull yields.
    pub open spec fn upcoming(&self) -> Option<Result<Elf64SectionHeader, Seq<char>>> {
        Self::entry_at(self.window(), self.declared(), self.position())
    }

    /// Whether an entry is declared at offset `position` and fewer than 64 bytes are left
    /// for it.
    pub open spec fn cut_short(window: Seq<u8>, declared: nat, position: nat) -> bool {
        position < 64 * declared && window.len() - position < 64
    }

    /// Where the cursor stands after a pull at `position`: one entry further where the pull
    /// yields an entry, and unmoved where it yields nothing or a complaint.
    pub open spec fn position_after(window: Seq<u8>, declared: nat, position: nat) -> nat {
        if Self::entry_at(window, declared, position) matches Some(Ok(_)) {
            position + 64
        } else {
            position
        }
    }

    /// How many entries the table is taken to have after a pull at `position`: none where the
    /// pull finds the entry cut short, which ends the table; as many as before otherwise.
    pub open spec fn declared_after(window: Seq<u8>, declared: nat, position: nat) -> nat {
        if Self::cut_short(window, declared, position) {
            0
        } else {
            declared
        }
    }

    /// What pulling until the table ends collects, from offset `position` on: the entries in
    /// file order, or the first complaint.
    pub open spec fn entries_from(window: Seq<u8>, declared: nat, position: nat) -> Result<
        Seq<Elf64SectionHeader>,
        Seq<char>,
    >
        decreases 64 * declared + 64 - position,
    {
        if position >= 64 * declared {
            Ok(Seq::empty())
        } else {
            match Self::entry_at(window, declared, position) {
                Some(Ok(entry)) => match Self::entries_from(
                    window,
                    declared,
                    (position + 64) as nat,
                ) {
                    Ok(rest) => Ok(seq![entry] + rest),
                    Err(message) => Err(message),
                },
                Some(Err(message)) => Err(message),
                None => Ok(Seq::empty()),
            }
        }
    }

    /// Decodes the next entry of the table, if one is left. The cursor moves on only where an
    /// entry is yielded. The complaint that an entry is cut short comes once and ends the
    /// table: every later pull yields nothing. The complaint of an invalid field leaves the
    /// cursor on the entry.
    pub fn next(&mut self) -> (item: Option<Result<Elf64SectionHeader, String>>)
        ensures
            pulled(item) == old(self).upcoming(),
            final(self).window() == old(self).window(),
            final(self).declared() == Self::declared_after(
                old(self).window(),
                old(self).declared(),
                old(self).position(),
            ),
            final(self).position() == Self::position_after(
                old(self).window(),
                old(self).declared(),
                old(self).position(),
            ),
            Self::cut_short(old(self).window(), old(self).declared(), old(self).position())
                ==> final(self).upcoming() is None,
    {
        proof {
            use_type_invariant(&*self);
        }
        if self.pos >= SECTION_HEADER_SIZE * (self.len as usize) {
            return None;
        }
        if self.head.len() - self.pos < SECTION_HEADER_SIZE {
            self.len = 0;
            return Some(Err("the size of a section header is invalid".to_string()));
        }
        let entry = slice_subrange(self.head, self.pos, self.pos + SECTION_HEADER_SIZE);
        proof {
            assert(entry@.take(64) =~= self.head@.subrange(
                self.pos as int,
                self.pos + 64,
            ));
        }
        match Elf64SectionHeader::read(entry) {
            Ok(decoded) => {
                self.pos = self.pos + SECTION_HEADER_SIZE;
                Some(Ok(decoded))
            },
            Err(message) => Some(Err(message)),
        }
    }

    /// A table of no entries yields nothing, whatever stands in the window.
    pub proof fn lemma_empty_table_yields_nothing(window: Seq<u8>, position: nat)
        ensures
            Self::entry_at(window, 0, position) is None,
            Self::position_after(window, 0, position) == position,
            Self::entries_from(window, 0, position) == Ok::<Seq<Elf64SectionHeader>, Seq<char>>(
                Seq::empty(),
            ),
    {
    }

    /// Where an entry is declared and fewer than 64 bytes are left for it, the pull yields
    /// the complaint that the entry is cut short. That ends the table: the pull after it
    /// yields nothing.
    pub proof fn lemma_short_entry_is_refused(window: Seq<u8>, declared: nat, position: nat)
        requires
            position < 64 * declared,
            window.len() < position + 64,
        ensures
            Self::entry_at(window, declared, position) == Some(
                Err::<Elf64SectionHeader, Seq<char>>("the size of a section header is invalid"@),
            ),
            Self::entry_at(
                window,
                Self::declared_after(window, declared, position),
                Self::position_after(window, declared, position),
            ) is None,
            Self::entries_from(window, declared, position) == Err::<Seq<Elf64SectionHeader>, Seq<char>>(
                "the size of a section header is invalid"@,
            ),
    {
    }

    /// A window that is too short for the declared entries never gives a whole table: reading
    /// it ends in a complaint.
    pub proof fn lemma_short_table_is_refused(window: Seq<u8>, declared: nat, position: nat)
        requires
            position <= window.len() < 64 * declared,
        ensures
            Self::entries_from(window, declared, position) is Err,
        decreases window.len() - position,
    {
        if window.len() - position >= 64 {
            Self::lemma_short_table_is_refused(window, declared, position + 64);
        }
    }

    /// A table that is read without complaint has as many entries as are declared.
    pub proof fn lemma_whole_table_has_declared_length(window: Seq<u8>, declared: nat, done: nat)
        requires
            done <= declared,
            Self::entries_from(window, declared, 64 * done) is Ok,
        ensures
            Self::entries_from(window, declared, 64 * done)->Ok_0.len() == declared - done,
        decreases declared - done,
    {
        if done < declared {
            Self::lemma_whole_table_has_declared_length(window, declared, done + 1);
        }
    }

    /// Pulls until the table ends: all entries that are left, in file order, or the first
    /// complaint.
    pub fn collect(self) -> (all: Result<Vec<Elf64SectionHeader>, String>)
        ensures
            collected(all) == Self::entries_from(self.window(), self.declared(), self.position()),
    {
        let ghost window = self.window();
        let ghost declared = self.declared();
        let ghost start = self.position();
        let mut cursor = self;
        let mut entries: Vec<Elf64SectionHeader> = Vec::new();
        loop
            invariant
                window == self.window(),
                declared == self.declared(),
                start == self.position(),
                cursor.window() == window,
                cursor.declared() == declared,
                Self::entries_from(window, declared, start) == after(
                    entries@,
                    Self::entries_from(window, declared, cursor.position()),
                ),
            decreases 64 * declared + 64 - cursor.position(),
        {
            let ghost position = cursor.position();
            match cursor.next() {
                None => {
                    assert(entries@ + Seq::<Elf64SectionHeader>::empty() =~= entries@);
                    return Ok(entries);
                },
                Some(Err(message)) => {
                    return Err(message);
                },
                Some(Ok(entry)) => {
                    let ghost before = entries@;
                    entries.push(entry);
                    proof {
                        let rest = Self::entries_from(
                            window,
                            declared,
                            (position + 64) as nat,
                        );
                        if rest is Ok {
                            assert(before + (seq![entry] + rest->Ok_0) =~= entries@ + rest->Ok_0);
                        }
                    }
                },
            }
        }
    }
}

/// A cursor over the program header table of an object file. It decodes one entry at each pull and
/// holds no copy of the bytes that it reads.
pub struct ProgramHeaderIter<'a> {
    head: &'a [u8],
    len: u16,
    pos: usize,
}

impl<'a> ProgramHeaderIter<'a> {
    #[verifier::type_invariant]
    closed spec fn within_window(self) -> bool {
        self.pos <= self.head@.len()
    }

    /// The bytes that the table is read from: the table starts at their first byte.
    pub closed spec fn window(&self) -> Seq<u8> {
        self.head@
    }

    /// The number of entries that the table is taken to have: what the file header declares,
    /// and none once an entry was found to be cut short.
    pub closed spec fn declared(&self) -> nat {
        self.len as nat
    }

    /// The offset in the window of the entry that the next pull decodes.
    pub closed spec fn position(&self) -> nat {
        self.pos as nat
    }

    /// What a pull yields at offset `position` of a table of `declared` entries that is read
    /// from `window`: nothing once the declared entries are behind; the complaint that an entry
    /// is cut short where fewer than 56 bytes are left; else the entry decoded, or the
    /// complaint of the field that is invalid.
    pub open spec fn entry_at(window: Seq<u8>, declared: nat, position: nat) -> Option<
        Result<Elf64ProgramHeader, Seq<char>>,
    > {
        if position >= 56 * declared {
            None
        } else if window.len() - position < 56 {
            Some(Err("the size of a program header is invalid"@))
        } else {
            Some(Elf64ProgramHeader::decode(window.subrange(position as int, position as int + 56)))
        }
    }

    /// What the next pull yields.
    pub open spec fn upcoming(&self) -> Option<Result<Elf64ProgramHeader, Seq<char>>> {
        Self::entry_at(self.window(), self.declared(), self.position())
    }

    /// Whether an entry is declared at offset `position` and fewer than 56 bytes are left
    /// for it.
    pub open spec fn cut_short(window: Seq<u8>, declared: nat, position: nat) -> bool {
        position < 56 * declared && window.len() - position < 56
    }

    /// Where the cursor stands after a pull at `position`: one entry further where the pull
    /// yields an entry, and unmoved where it yields nothing or a complaint.
    pub open spec fn position_after(window: Seq<u8>, declared: nat, position: nat) -> nat {
        if Self::entry_at(window, declared, position) matches Some(Ok(_)) {
            position + 56
        } else {
            position
        }
    }

    /// How many entries the table is taken to have after a pull at `position`: none where the
    /// pull finds the entry cut short, which ends the table; as many as before otherwise.
    pub open spec fn declared_after(window: Seq<u8>, declared: nat, position: nat) -> nat {
        if Self::cut_short(window, declared, position) {
            0
        } else {
            declared
        }
    }

    /// What pulling until the table ends collects, from offset `position` on: the entries in
    /// file order, or the first complaint.
    pub open spec fn entries_from(window: Seq<u8>, declared: nat, position: nat) -> Result<
        Seq<Elf64ProgramHeader>,
        Seq<char>,
    >
        decreases 56 * declared + 56 - position,
    {
        if position >= 56 * declared {
            Ok(Seq::empty())
        } else {
            match Self::entry_at(window, declared, position) {
                Some(Ok(entry)) => match Self::entries_from(
                    window,
                    declared,
                    (position + 56) as nat,
                ) {
                    Ok(rest) => Ok(seq![entry] + rest),
                    Err(message) => Err(message),
                },
                Some(Err(message)) => Err(message),
                None => Ok(Seq::empty()),
            }
        }
    }

    /// Decodes the next entry of the table, if one is left. The cursor moves on only where an
    /// entry is yielded. The complaint that an entry is cut short comes once and ends the
    /// table: every later pull yields nothing. The complaint of an invalid field leaves the
    /// cursor on the entry.
    pub fn next(&mut self) -> (item: Option<Result<Elf64ProgramHeader, String>>)
        ensures
            pulled(item) == old(self).upcoming(),
            final(self).window() == old(self).window(),
            final(self).declared() == Self::declared_after(
                old(self).window(),
                old(self).declared(),
                old(self).position(),
            ),
            final(self).position() == Self::position_after(
                old(self).window(),
                old(self).declared(),
                old(self).position(),
            ),
            Self::cut_short(old(self).window(), old(self).declared(), old(self).position())
                ==> final(self).upcoming() is None,
    {
        proof {
            use_type_invariant(&*self);
        }
        if self.pos >= PROGRAM_HEADER_SIZE * (self.len as usize) {
            return None;
        }
        if self.head.len() - self.pos < PROGRAM_HEADER_SIZE {
            self.len = 0;
            return Some(Err("the size of a program header is invalid".to_string()));
        }
        let entry = slice_subrange(self.head, self.pos, self.pos + PROGRAM_HEADER_SIZE);
        proof {
            assert(entry@.take(56) =~= self.head@.subrange(
                self.pos as int,
                self.pos + 56,
            ));
        }
        match Elf64ProgramHeader::read(entry) {
            Ok(decoded) => {
                self.pos = self.pos + PROGRAM_HEADER_SIZE;
                Some(Ok(decoded))
            },
            Err(message) => Some(Err(message)),
        }
    }

    /// A table of no entries yields nothing, whatever stands in the window.
    pub proof fn lemma_empty_table_yields_nothing(window: Seq<u8>, position: nat)
        ensures
            Self::entry_at(window, 0, position) is None,
            Self::position_after(window, 0, position) == position,
            Self::entries_from(window, 0, position) == Ok::<Seq<Elf64ProgramHeader>, Seq<char>>(
                Seq::empty(),
            ),
    {
    }

    /// Where an entry is declared and fewer than 56 bytes are left for it, the pull yields
    /// the complaint that the entry is cut short. That ends the table: the pull after it
    /// yields nothing.
    pub proof fn lemma_short_entry_is_refused(window: Seq<u8>, declared: nat, position: nat)
        requires
            position < 56 * declared,
            window.len() < position + 56,
        ensures
            Self::entry_at(window, declared, position) == Some(
                Err::<Elf64ProgramHeader, Seq<char>>("the size of a program header is invalid"@),
            ),
            Self::entry_at(
                window,
                Self::declared_after(window, declared, position),
                Self::position_after(window, declared, position),
            ) is None,
            Self::entries_from(window, declared, position) == Err::<Seq<Elf64ProgramHeader>, Seq<char>>(
                "the size of a program header is invalid"@,
            ),
    {
    }

    /// A window that is too short for the declared entries never gives a whole table: reading
    /// it ends in a complaint.
    pub proof fn lemma_short_table_is_refused(window: Seq<u8>, declared: nat, position: nat)
        requires
            position <= window.len() < 56 * declared,
        ensures
            Self::entries_from(window, declared, position) is Err,
        decreases window.len() - position,
    {
        if window.len() - position >= 56 {
            Self::lemma_short_table_is_refused(window, declared, position + 56);
        }
    }

    /// A table that is read without complaint has as many entries as are declared.
    pub proof fn lemma_whole_table_has_declared_length(window: Seq<u8>, declared: nat, done: nat)
        requires
            done <= declared,
            Self::entries_from(window, declared, 56 * done) is Ok,
        ensures
            Self::entries_from(window, declared, 56 * done)->Ok_0.len() == declared - done,
        decreases declared - done,
    {
        if done < declared {
            Self::lemma_whole_table_has_declared_length(window, declared, done + 1);
        }
    }

    /// Pulls until the table ends: all entries that are left, in file order, or the first
    /// complaint.
    pub fn collect(self) -> (all: Result<Vec<Elf64ProgramHeader>, String>)
        ensures
            collected(all) == Self::entries_from(self.window(), self.declared(), self.position()),
    {
        let ghost window = self.window();
        let ghost declared = self.declared();
        let ghost start = self.position();
        let mut cursor = self;
        let mut entries: Vec<Elf64ProgramHeader> = Vec::new();
        loop
            invariant
                window == self.window(),
                declared == self.declared(),
                start == self.position(),
                cursor.window() == window,
                cursor.declared() == declared,
                Self::entries_from(window, declared, start) == after(
                    entries@,
                    Self::entries_from(window, declared, cursor.position()),
                ),
            decreases 56 * declared + 56 - cursor.position(),
        {
            let ghost position = cursor.position();
            match cursor.next() {
                None => {
                    assert(entries@ + Seq::<Elf64ProgramHeader>::empty() =~= entries@);
                    return Ok(entries);
                },
                Some(Err(message)) => {
                    return Err(message);
                },
                Some(Ok(entry)) => {
                    let ghost before = entries@;
                    entries.push(entry);
                    proof {
                        let rest = Self::entries_from(
                            window,
                            declared,
                            (position + 56) as nat,
                        );
                        if rest is Ok {
                            assert(before + (seq![entry] + rest->Ok_0) =~= entries@ + rest->Ok_0);
                        }
                    }
                },
            }
        }
    }
}

} // verus!
