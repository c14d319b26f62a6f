//! Unsigned integers as byte strings of a fixed width, least significant
//! byte first.

use crate::buffer::Buffer;
use crate::err::DeError;
use vstd::prelude::*;

verus! {

/// The number of values that `width` bytes can tell apart: 256 to the power `width`.
pub open spec fn capacity(width: nat) -> nat
    decreases width,
{
    if width == 0 {
        1
    } else {
        256 * capacity((width - 1) as nat)
    }
}

/// The `width` least significant bytes of `value`, least significant first.
pub open spec fn le_bytes(value: nat, width: nat) -> Seq<u8>
    decreases width,
{
    if width == 0 {
        Seq::empty()
    } else {
        seq![(value % 256) as u8] + le_bytes(value / 256, (width - 1) as nat)
    }
}

/// The number that `bytes` spell, least significant byte first.
pub open spec fn le_value(bytes: Seq<u8>) -> nat
    decreases bytes.len(),
{
    if bytes.len() == 0 {
        0
    } else {
        bytes[0] as nat + 256 * le_value(bytes.drop_first())
    }
}

/// What a whole buffer spells as an integer of exactly `width` bytes: the
/// buffer may be neither shorter nor longer than the integer.
pub open spec fn le_decoded(bytes: Seq<u8>, width: nat) -> Result<nat, DeError> {
    if bytes.len() < width {
        Err(DeError::UnexpectedEOB)
    } else if bytes.len() > width {
        Err(DeError::BufferNotParsed)
    } else {
        Ok(le_value(bytes))
    }
}

/// One, two, four and eight bytes hold exactly the values of `u8`, `u16`,
/// `u32` and `u64`.
pub proof fn lemma_capacity_of_integers()
    ensures
        capacity(1) == 0x100,
        capacity(2) == 0x1_0000,
        capacity(4) == 0x1_0000_0000,
        capacity(8) == 0x1_0000_0000_0000_0000,
{
    reveal_with_fuel(capacity, 9);
}

/// More bytes never tell fewer values apart.
pub proof fn lemma_capacity_grows(narrow: nat, wide: nat)
    requires
        narrow <= wide,
    ensures
        0 < capacity(narrow) <= capacity(wide),
    decreases wide,
{
    if narrow < wide {
        lemma_capacity_grows(narrow, (wide - 1) as nat);
    } else if wide > 0 {
        lemma_capacity_grows((narrow - 1) as nat, (wide - 1) as nat);
    }
}

/// An encoding is as long as the width asked for.
pub proof fn lemma_le_bytes_len(value: nat, width: nat)
    ensures
        le_bytes(value, width).len() == width,
    decreases width,
{
    if width > 0 {
        lemma_le_bytes_len(value / 256, (width - 1) as nat);
    }
}

/// What a byte string spells fits in as many bytes as the string has.
pub proof fn lemma_le_value_bound(bytes: Seq<u8>)
    ensures
        le_value(bytes) < capacity(bytes.len()),
    decreases bytes.len(),
{
    if bytes.len() > 0 {
        lemma_le_value_bound(bytes.drop_first());
    }
}

/// Reading back the encoding of a value that fits gives the value.
pub proof fn lemma_le_value_of_bytes(value: nat, width: nat)
    requires
        value < capacity(width),
    ensures
        le_value(le_bytes(value, width)) == value,
    decreases width,
{
    if width > 0 {
        let rest = le_bytes(value / 256, (width - 1) as nat);
        lemma_le_bytes_len(value, width);
        lemma_le_value_of_bytes(value / 256, (width - 1) as nat);
        assert(le_bytes(value, width).drop_first() =~= rest);
    }
}

/// Appends the `width` least significant bytes of `value` to `mem`, least
/// significant first.
pub fn write_le(value: u64, width: usize, mem: &mut Buffer)
    ensures
        final(mem)@ == old(mem)@ + le_bytes(value as nat, width as nat),
{
    let mut rest: u64 = value;
    let mut done: usize = 0;
    while done < width
        invariant
            done <= width,
            mem@ + le_bytes(rest as nat, (width - done) as nat) == old(mem)@ + le_bytes(
                value as nat,
                width as nat,
            ),
        decreases width - done,
    {
        let ghost before = mem@;
        let ghost tail = le_bytes((rest / 256) as nat, (width - done - 1) as nat);
        let byte: u8 = (rest % 256) as u8;
        mem.push(byte);
        assert(mem@ + tail =~= before + (seq![byte] + tail));
        rest = rest / 256;
        done = done + 1;
    }
    assert(mem@ + Seq::<u8>::empty() =~= mem@);
}

/// The number that `mem` spells, least significant byte first. `mem` holds
/// at most eight bytes, so that the number fits.
pub fn read_le(mem: &[u8]) -> (value: u64)
    requires
        mem@.len() <= 8,
    ensures
        value == le_value(mem@),
{
    let len: usize = mem.len();
    let mut value: u64 = 0;
    let mut at: usize = len;
    assert(mem@.subrange(len as int, len as int) =~= Seq::<u8>::empty());
    while at > 0
        invariant
            at <= len,
            len == mem@.len(),
            len <= 8,
            value == le_value(mem@.subrange(at as int, len as int)),
        decreases at,
    {
        let ghost high = mem@.subrange(at as int, len as int);
        at = at - 1;
        let ghost all = mem@.subrange(at as int, len as int);
        proof {
            assert(all.drop_first() =~= high);
            lemma_le_value_bound(high);
            lemma_le_value_bound(all);
            lemma_capacity_grows(all.len(), 8);
            lemma_capacity_of_integers();
        }
        value = value * 256 + mem[at] as u64;
    }
    assert(mem@.subrange(0, len as int) =~= mem@);
    value
}

/// Reads the whole of `mem` as an integer of exactly `width` bytes, where
/// `width` is at most eight.
pub fn decode_le(mem: &[u8], width: usize) -> (r: Result<u64, DeError>)
    requires
        width <= 8,
    ensures
        match le_decoded(mem@, width as nat) {
            Ok(value) => r == Ok::<u64, DeError>(value as u64) && value <= u64::MAX,
            Err(e) => r == Err::<u64, DeError>(e),
        },
{
    if mem.len() < width {
        Err(DeError::UnexpectedEOB)
    } else if mem.len() > width {
        Err(DeError::BufferNotParsed)
    } else {
        Ok(read_le(mem))
    }
}

} // verus!
