//! Little-endian integers read from the front of a byte cursor.

use vstd::prelude::*;
use vstd::slice::slice_subrange;

verus! {

/// The number that the bytes of `bytes` from index `from` on spell in little-endian order:
/// the byte at `from` counts once, the next one 256 times, and so on.
pub open spec fn le_value(bytes: Seq<u8>, from: int) -> nat
    decreases bytes.len() - from,
{
    if 0 <= from < bytes.len() {
        bytes[from] as nat + 256 * le_value(bytes, from + 1)
    } else {
        0
    }
}

/// The bytes of `bytes` read as one two's-complement number in little-endian order: the
/// unsigned reading, less 256 to the number of bytes where the top bit is set.
pub open spec fn le_signed(bytes: Seq<u8>) -> int {
    let raw = le_value(bytes, 0) as int;
    let span = pow256(bytes.len()) as int;
    if 2 * raw >= span {
        raw - span
    } else {
        raw
    }
}

/// 256 to the power `n`.
pub open spec fn pow256(n: nat) -> nat
    decreases n,
{
    if n == 0 {
        1
    } else {
        256 * pow256((n - 1) as nat)
    }
}

/// A little-endian number of `n` bytes is below 256 to the `n`.
pub proof fn lemma_le_value_bound(bytes: Seq<u8>, from: int)
    requires
        0 <= from <= bytes.len(),
    ensures
        le_value(bytes, from) < pow256((bytes.len() - from) as nat),
    decreases bytes.len() - from,
{
    if from < bytes.len() {
        lemma_le_value_bound(bytes, from + 1);
    }
}

/// Reads the first `width` bytes of `bytes` as one little-endian number.
fn le_prefix(bytes: &[u8], width: usize) -> (value: u128)
    requires
        width <= 16,
        width <= bytes@.len(),
    ensures
        value == le_value(bytes@.take(width as int), 0),
        value < pow256(width as nat),
{
    let ghost window = bytes@.take(width as int);
    let mut value: u128 = 0;
    let mut at: usize = width;
    proof {
        reveal_with_fuel(pow256, 17);
        assert(pow256(16) == 0x1_0000_0000_0000_0000_0000_0000_0000_0000);
    }
    while at > 0
        invariant
            at <= width <= 16,
            width <= bytes@.len(),
            window == bytes@.take(width as int),
            value == le_value(window, at as int),
            pow256(16) == 0x1_0000_0000_0000_0000_0000_0000_0000_0000,
        decreases at,
    {
        at = at - 1;
        proof {
            lemma_le_value_bound(window, at as int);
            lemma_pow256_monotonic((width - at) as nat, 16);
        }
        value = value * 256 + bytes[at] as u128;
    }
    proof {
        lemma_le_value_bound(window, 0);
    }
    value
}

/// `pow256` grows with its argument.
pub proof fn lemma_pow256_monotonic(low: nat, high: nat)
    requires
        low <= high,
    ensures
        pow256(low) <= pow256(high),
        pow256(low) >= 1,
    decreases high,
{
    if low < high {
        lemma_pow256_monotonic(low, (high - 1) as nat);
    } else if low > 0 {
        lemma_pow256_monotonic((low - 1) as nat, (high - 1) as nat);
    }
}

/// An integer that can be read off the front of a byte cursor in little-endian order.
pub trait FromBytes: Sized {
    /// How many bytes one value takes.
    spec fn width() -> nat;

    /// The value that `bytes`, exactly `width()` of them, spell.
    spec fn decode(bytes: Seq<u8>) -> Self;

    /// Takes `width()` bytes off the front of `input` and returns the value they spell; the
    /// cursor is left on the byte after them.
    fn read_le_bytes(input: &mut &[u8]) -> (value: Self)
        requires
            old(input)@.len() >= Self::width(),
        ensures
            value == Self::decode(old(input)@.take(Self::width() as int)),
            final(input)@ == old(input)@.skip(Self::width() as int),
    ;
}

/// The value of type `T` that stands in `bytes` at offset `at`.
pub open spec fn field<T: FromBytes>(bytes: Seq<u8>, at: int) -> T {
    T::decode(bytes.subrange(at, at + T::width()))
}

/// A field of a window of `bytes` is the field of `bytes` at the place where the window puts
/// it.
pub proof fn lemma_fields_of_window(bytes: Seq<u8>, from: int, to: int)
    requires
        0 <= from <= to <= bytes.len(),
    ensures
        forall|at: int, width: int|
            0 <= at && 0 <= width && at + width <= to - from ==> #[trigger] bytes.subrange(
                from,
                to,
            ).subrange(at, at + width) == bytes.subrange(from + at, from + at + width),
{
    assert forall|at: int, width: int| 0 <= at && 0 <= width && at + width <= to - from implies (
    #[trigger] bytes.subrange(from, to).subrange(at, at + width)) == bytes.subrange(
        from + at,
        from + at + width,
    ) by {
        assert(bytes.subrange(from, to).subrange(at, at + width) =~= bytes.subrange(
            from + at,
            from + at + width,
        ));
    }
}

/// Reads the next value of type `T` through `cursor`, which stands at offset `at` of `whole`.
pub(crate) fn pull<T: FromBytes>(cursor: &mut &[u8], Ghost(whole): Ghost<Seq<u8>>, Ghost(at): Ghost<int>) -> (value: T)
    requires
        0 <= at,
        at + T::width() <= whole.len(),
        old(cursor)@ == whole.skip(at),
    ensures
        value == field::<T>(whole, at),
        final(cursor)@ == whole.skip(at + T::width()),
{
    proof {
        assert(whole.skip(at).take(T::width() as int) =~= whole.subrange(at, at + T::width()));
        assert(whole.skip(at).skip(T::width() as int) =~= whole.skip(at + T::width()));
    }
    T::read_le_bytes(cursor)
}

impl FromBytes for i8 {
    open spec fn width() -> nat {
        1
    }

    open spec fn decode(bytes: Seq<u8>) -> i8 {
        le_signed(bytes) as i8
    }

    fn read_le_bytes(input: &mut &[u8]) -> (value: i8) {
        let bytes: &[u8] = *input;
        let raw = le_prefix(bytes, 1);
        proof {
            reveal_with_fuel(pow256, 2);
            assert(bytes@.take(1).len() == 1);
        }
        *input = slice_subrange(bytes, 1, bytes.len());
        if raw < 0x80 {
            raw as i8
        } else {
            (raw - 0x80) as i8 + i8::MIN
        }
    }
}

impl FromBytes for i16 {
    open spec fn width() -> nat {
        2
    }

    open spec fn decode(bytes: Seq<u8>) -> i16 {
        le_signed(bytes) as i16
    }

    fn read_le_bytes(input: &mut &[u8]) -> (value: i16) {
        let bytes: &[u8] = *input;
        let raw = le_prefix(bytes, 2);
        proof {
            reveal_with_fuel(pow256, 3);
            assert(bytes@.take(2).len() == 2);
        }
        *input = slice_subrange(bytes, 2, bytes.len());
        if raw < 0x8000 {
            raw as i16
        } else {
            (raw - 0x8000) as i16 + i16::MIN
        }
    }
}

impl FromBytes for i32 {
    open spec fn width() -> nat {
        4
    }

    open spec fn decode(bytes: Seq<u8>) -> i32 {
        le_signed(bytes) as i32
    }

    fn read_le_bytes(input: &mut &[u8]) -> (value: i32) {
        let bytes: &[u8] = *input;
        let raw = le_prefix(bytes, 4);
        proof {
            reveal_with_fuel(pow256, 5);
            assert(bytes@.take(4).len() == 4);
        }
        *input = slice_subrange(bytes, 4, bytes.len());
        if raw < 0x8000_0000 {
            raw as i32
        } else {
            (raw - 0x8000_0000) as i32 + i32::MIN
        }
    }
}

impl FromBytes for i64 {
    open spec fn width() -> nat {
        8
    }

    open spec fn decode(bytes: Seq<u8>) -> i64 {
        le_signed(bytes) as i64
    }

    fn read_le_bytes(input: &mut &[u8]) -> (value: i64) {
        let bytes: &[u8] = *input;
        let raw = le_prefix(bytes, 8);
        proof {
            reveal_with_fuel(pow256, 9);
            assert(bytes@.take(8).len() == 8);
        }
        *input = slice_subrange(bytes, 8, bytes.len());
        if raw < 0x8000_0000_0000_0000 {
            raw as i64
        } else {
            (raw - 0x8000_0000_0000_0000) as i64 + i64::MIN
        }
    }
}

impl FromBytes for i128 {
    open spec fn width() -> nat {
        16
    }

    open spec fn decode(bytes: Seq<u8>) -> i128 {
        le_signed(bytes) as i128
    }

    fn read_le_bytes(input: &mut &[u8]) -> (value: i128) {
        let bytes: &[u8] = *input;
        let raw = le_prefix(bytes, 16);
        proof {
            reveal_with_fuel(pow256, 17);
            assert(bytes@.take(16).len() == 16);
        }
        *input = slice_subrange(bytes, 16, bytes.len());
        if raw < 0x8000_0000_0000_0000_0000_0000_0000_0000 {
            raw as i128
        } else {
            (raw - 0x8000_0000_0000_0000_0000_0000_0000_0000) as i128 + i128::MIN
        }
    }
}

impl FromBytes for u8 {
    open spec fn width() -> nat {
        1
    }

    open spec fn decode(bytes: Seq<u8>) -> u8 {
        le_value(bytes, 0) as u8
    }

    fn read_le_bytes(input: &mut &[u8]) -> (value: u8) {
        let bytes: &[u8] = *input;
        let raw = le_prefix(bytes, 1);
        proof {
            reveal_with_fuel(pow256, 2);
        }
        *input = slice_subrange(bytes, 1, bytes.len());
        raw as u8
    }
}

impl FromBytes for u16 {
    open spec fn width() -> nat {
        2
    }

    open spec fn decode(bytes: Seq<u8>) -> u16 {
        le_value(bytes, 0) as u16
    }

    fn read_le_bytes(input: &mut &[u8]) -> (value: u16) {
        let bytes: &[u8] = *input;
        let raw = le_prefix(bytes, 2);
        proof {
            reveal_with_fuel(pow256, 3);
        }
        *input = slice_subrange(bytes, 2, bytes.len());
        raw as u16
    }
}

impl FromBytes for u32 {
    open spec fn width() -> nat {
        4
    }

    open spec fn decode(bytes: Seq<u8>) -> u32 {
        le_value(bytes, 0) as u32
    }

    fn read_le_bytes(input: &mut &[u8]) -> (value: u32) {
        let bytes: &[u8] = *input;
        let raw = le_prefix(bytes, 4);
        proof {
            reveal_with_fuel(pow256, 5);
        }
        *input = slice_subrange(bytes, 4, bytes.len());
        raw as u32
    }
}

impl FromBytes for u64 {
    open spec fn width() -> nat {
        8
    }

    open spec fn decode(bytes: Seq<u8>) -> u64 {
        le_value(bytes, 0) as u64
    }

    fn read_le_bytes(input: &mut &[u8]) -> (value: u64) {
        let bytes: &[u8] = *input;
        let raw = le_prefix(bytes, 8);
        proof {
            reveal_with_fuel(pow256, 9);
        }
        *input = slice_subrange(bytes, 8, bytes.len());
        raw as u64
    }
}

impl FromBytes for u128 {
    open spec fn width() -> nat {
        16
    }

    open spec fn decode(bytes: Seq<u8>) -> u128 {
        le_value(bytes, 0) as u128
    }

    fn read_le_bytes(input: &mut &[u8]) -> (value: u128) {
        let bytes: &[u8] = *input;
        let raw = le_prefix(bytes, 16);
        proof {
            reveal_with_fuel(pow256, 17);
        }
        *input = slice_subrange(bytes, 16, bytes.len());
        raw as u128
    }
}

impl FromBytes for usize {
    open spec fn width() -> nat {
        vstd::layout::size_of::<usize>()
    }

    open spec fn decode(bytes: Seq<u8>) -> usize {
        le_value(bytes, 0) as usize
    }

    fn read_le_bytes(input: &mut &[u8]) -> (value: usize) {
        broadcast use vstd::layout::layout_of_primitives;
        let bytes: &[u8] = *input;
        let width = core::mem::size_of::<usize>();
        assert(width == 4 || width == 8);
        let raw = le_prefix(bytes, width);
        proof {
            reveal_with_fuel(pow256, 9);
        }
        *input = slice_subrange(bytes, width, bytes.len());
        raw as usize
    }
}

impl FromBytes for isize {
    open spec fn width() -> nat {
        vstd::layout::size_of::<isize>()
    }

    open spec fn decode(bytes: Seq<u8>) -> isize {
        le_signed(bytes) as isize
    }

    fn read_le_bytes(input: &mut &[u8]) -> (value: isize) {
        broadcast use vstd::layout::layout_of_primitives;
        let bytes: &[u8] = *input;
        let width = core::mem::size_of::<isize>();
        assert(width == 4 || width == 8);
        let raw = le_prefix(bytes, width);
        proof {
            reveal_with_fuel(pow256, 9);
            assert(bytes@.take(width as int).len() == width);
        }
        *input = slice_subrange(bytes, width, bytes.len());
        let half: u128 = if width == 4 {
            0x8000_0000
        } else {
            0x8000_0000_0000_0000
        };
        if raw < half {
            raw as isize
        } else {
            (raw - half) as isize + isize::MIN
        }
    }
}

} // verus!
