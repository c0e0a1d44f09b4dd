//! The construction of an object file, step by step: what to ask of a byte source, and what
//! to make of its answer. Nothing here reads; whoever holds the source does, and reports.

use crate::elf::{Elf64Header, ElfClass, ElfIdent, Encoding, OsAbi, HEADER_SIZE, IDENT_SIZE};
use crate::inputs::{header_verdict, ident_verdict, load, loaded, settled, ObjectFile};
use crate::text::digits_text;
use vstd::prelude::*;
use vstd::string::StringExecFns;

verus! {

/// What a construction asks of its byte source next.
#[derive(Debug, Clone, Copy, PartialEq, Eq, Structural)]
pub enum Request {
    /// Some bytes, at least one and at most this many.
    Fill(usize),
    /// All bytes that are left.
    Drain,
}

/// What a byte source answered to a request.
#[derive(Debug)]
pub enum ReadEvent {
    /// The bytes that it handed out, in order. None at all: the source is at its end.
    Data(Vec<u8>),
    /// It failed, with this description.
    Failed(String),
}

/// Where a construction stands after an answer of its byte source.
pub enum Progress {
    /// It goes on, and asks again.
    Pending(Loader),
    /// It has ended, with the object file or with the message of what failed.
    Done(Result<ObjectFile, String>),
}

/// A construction of an object file under way: it says what to ask of the byte source, takes
/// the answer, and decides how to go on. It reads nothing by itself.
pub struct Loader {
    got: Vec<u8>,
    ident: Option<ElfIdent>,
    header: Option<Elf64Header>,
}

/// Copies the `N` bytes of `bytes` from offset `at` on.
fn block<const N: usize>(bytes: &[u8], at: usize) -> (copy: [u8; N])
    requires
        at + N <= bytes@.len(),
    ensures
        copy@ == bytes@.subrange(at as int, at + N),
{
    let length = bytes.len();
    let mut copy = [0u8; N];
    let mut next: usize = 0;
    while next < N
        invariant
            next <= N,
            at + N <= length,
            length == bytes@.len(),
            forall|i: int| 0 <= i < next ==> copy@[i] == bytes@[at + i],
        decreases N - next,
    {
        copy[next] = bytes[at + next];
        next = next + 1;
    }
    assert(copy@ =~= bytes@.subrange(at as int, at + N));
    copy
}

impl Loader {
    #[verifier::type_invariant]
    closed spec fn coherent(self) -> bool {
        &&& self.got@.len() <= HEADER_SIZE
        &&& !settled(self.got@)
        &&& self.ident == if IDENT_SIZE <= self.got@.len() < HEADER_SIZE {
            Some(ident_verdict(self.got@)->Ok_0)
        } else {
            None
        }
        &&& self.header == if self.got@.len() == HEADER_SIZE {
            Some(header_verdict(self.got@)->Ok_0)
        } else {
            None
        }
    }

    /// The bytes of the file that this construction has taken so far.
    pub closed spec fn taken(&self) -> Seq<u8> {
        self.got@
    }

    /// What is asked of the byte source after `taken` bytes of the file header: what the
    /// identification block lacks; then what the rest of the header lacks; then all that is
    /// left.
    pub open spec fn request_after(taken: nat) -> Request {
        if taken < IDENT_SIZE {
            Request::Fill((IDENT_SIZE - taken) as usize)
        } else if taken < HEADER_SIZE {
            Request::Fill((HEADER_SIZE - taken) as usize)
        } else {
            Request::Drain
        }
    }

    /// A construction that has taken nothing yet.
    pub fn new() -> (fresh: Loader)
        ensures
            fresh.taken() == Seq::<u8>::empty(),
    {
        Loader { got: Vec::new(), ident: None, header: None }
    }

    /// What to ask of the byte source next.
    pub fn request(&self) -> (wanted: Request)
        ensures
            wanted == Self::request_after(self.taken().len()),
            self.taken().len() <= HEADER_SIZE,
            !settled(self.taken()),
    {
        proof {
            use_type_invariant(self);
        }
        if self.got.len() < IDENT_SIZE {
            Request::Fill(IDENT_SIZE - self.got.len())
        } else if self.got.len() < HEADER_SIZE {
            Request::Fill(HEADER_SIZE - self.got.len())
        } else {
            Request::Drain
        }
    }

    /// What an answer of the byte source leads to after `taken`: `progress`. A failure of the
    /// source ends the construction with the description that the source gave. The end of the
    /// source before the header is complete ends it with what `load` says of the bytes taken.
    /// Bytes that complete the file, or that show it to be refused, end it with what `load` says
    /// of all bytes taken. Other bytes are taken, and the construction goes on.
    pub open spec fn leads_to(taken: Seq<u8>, event: ReadEvent, progress: Progress) -> bool {
        match event {
            ReadEvent::Failed(description) => progress matches Progress::Done(Err(message))
                && message@ == description@,
            ReadEvent::Data(chunk) => if taken.len() < HEADER_SIZE && chunk@.len() == 0 {
                progress matches Progress::Done(result) && loaded(result) == load(taken)
            } else if taken.len() >= HEADER_SIZE || settled(taken + chunk@) {
                progress matches Progress::Done(result) && loaded(result) == load(taken + chunk@)
            } else {
                progress matches Progress::Pending(next) && next.taken() == taken + chunk@
            },
        }
    }

    /// Takes the answer of the byte source to the last request and decides how to go on.
    pub fn feed(self, event: ReadEvent) -> (progress: Progress)
        requires
            event matches ReadEvent::Data(chunk) ==> (Self::request_after(
                self.taken().len(),
            ) matches Request::Fill(most) ==> chunk@.len() <= most),
        ensures
            Self::leads_to(self.taken(), event, progress),
    {
        proof {
            use_type_invariant(&self);
        }
        let ghost taken = self.got@;
        let Loader { got, ident, header } = self;
        let mut got = got;
        let mut chunk = match event {
            ReadEvent::Failed(description) => {
                return Progress::Done(Err(description));
            },
            ReadEvent::Data(chunk) => chunk,
        };
        let ghost all = taken + chunk@;
        if let Some(header) = header {
            proof {
                assert(all.subrange(0, IDENT_SIZE as int) =~= taken.subrange(0, IDENT_SIZE as int));
                assert(all.subrange(IDENT_SIZE as int, HEADER_SIZE as int) =~= taken.subrange(
                    IDENT_SIZE as int,
                    HEADER_SIZE as int,
                ));
                assert(all.skip(HEADER_SIZE as int) =~= chunk@);
            }
            return Progress::Done(Ok(ObjectFile { header, data: chunk }));
        }
        if chunk.len() == 0 {
            if got.len() < IDENT_SIZE {
                let count = digits_text(got.len() as u64, 10);
                let message = String::from_str("ident contains ").concat(count.as_str()).concat(
                    " bytes",
                );
                return Progress::Done(Err(message));
            } else {
                return Progress::Done(Err("invalid ELF header".to_string()));
            }
        }
        got.append(&mut chunk);
        assert(got@ == all);
        match ident {
            None => {
                if got.len() < IDENT_SIZE {
                    return Progress::Pending(Loader { got, ident: None, header: None });
                }
                let ident = match ElfIdent::from_bytes(block::<16>(got.as_slice(), 0)) {
                    Ok(ident) => ident,
                    Err(message) => {
                        return Progress::Done(Err(message));
                    },
                };
                if ident.class != ElfClass::Class64 || ident.data != Encoding::LSB2 || ident.osabi
                    != OsAbi::SysV {
                    return Progress::Done(Err("unsupported format".to_string()));
                }
                Progress::Pending(Loader { got, ident: Some(ident), header: None })
            },
            Some(ident) => {
                proof {
                    assert(all.subrange(0, IDENT_SIZE as int) =~= taken.subrange(
                        0,
                        IDENT_SIZE as int,
                    ));
                }
                if got.len() < HEADER_SIZE {
                    return Progress::Pending(Loader { got, ident: Some(ident), header: None });
                }
                match Elf64Header::from_bytes(ident, block::<48>(got.as_slice(), IDENT_SIZE)) {
                    Ok(header) => Progress::Pending(
                        Loader { got, ident: None, header: Some(header) },
                    ),
                    Err(message) => Progress::Done(Err(message)),
                }
            },
        }
    }
}

/// Bytes that show a file to be refused settle what its construction gives: whatever follows
/// them, the construction fails as it does on those bytes alone.
pub proof fn lemma_settled_for_good(bytes: Seq<u8>, length: int)
    requires
        0 <= length <= bytes.len(),
        settled(bytes.take(length)),
    ensures
        load(bytes) == load(bytes.take(length)),
{
    let front = bytes.take(length);
    assert(front.subrange(0, IDENT_SIZE as int) =~= bytes.subrange(0, IDENT_SIZE as int));
    if length >= HEADER_SIZE {
        assert(front.subrange(IDENT_SIZE as int, HEADER_SIZE as int) =~= bytes.subrange(
            IDENT_SIZE as int,
            HEADER_SIZE as int,
        ));
    }
}

/// A construction that is fed the bytes of a source in order, in pieces of any size, ends with
/// what `load` says of all the bytes of the source. One step of it: after `taken`, the source
/// hands out `chunk`, which follows `taken` in `bytes`; it hands out nothing only at its end,
/// and all that is left once the header is complete. Then the construction goes on with a
/// longer part of `bytes`, or ends with what `load` says of `bytes`.
pub proof fn lemma_feed_follows_the_source(
    bytes: Seq<u8>,
    taken: Seq<u8>,
    chunk: Vec<u8>,
    progress: Progress,
)
    requires
        Loader::leads_to(taken, ReadEvent::Data(chunk), progress),
        taken.len() + chunk@.len() <= bytes.len(),
        taken + chunk@ == bytes.take((taken + chunk@).len() as int),
        chunk@.len() == 0 || taken.len() >= HEADER_SIZE ==> taken + chunk@ == bytes,
    ensures
        match progress {
            Progress::Done(result) => loaded(result) == load(bytes),
            Progress::Pending(next) => next.taken() == bytes.take((taken + chunk@).len() as int),
        },
{
    if chunk@.len() == 0 {
        assert(taken + chunk@ =~= taken);
    } else if taken.len() < HEADER_SIZE && settled(taken + chunk@) {
        lemma_settled_for_good(bytes, (taken + chunk@).len() as int);
    }
}

} // verus!
