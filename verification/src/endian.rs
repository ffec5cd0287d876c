//! Fixed-width little-endian integers, as the wire format writes them.

use vstd::prelude::*;

verus! {

/// 256 to the power `width`: one more than the largest value that
/// `width` bytes can hold.
pub open spec fn radix(width: nat) -> nat
    decreases width,
{
    if width == 0 {
        1
    } else {
        256 * radix((width - 1) as nat)
    }
}

/// The `width` low-order bytes of `value`, least significant first.
pub open spec fn le_bytes(value: nat, width: nat) -> Seq<u8>
    decreases width,
{
    if width == 0 {
        Seq::empty()
    } else {
        seq![(value % 256) as u8] + le_bytes(value / 256, (width - 1) as nat)
    }
}

/// The number that `bytes` spell, least significant byte first.
pub open spec fn le_value(bytes: Seq<u8>) -> nat
    decreases bytes.len(),
{
    if bytes.len() == 0 {
        0
    } else {
        bytes[0] as nat + 256 * le_value(bytes.skip(1))
    }
}

/// An encoding has exactly the width asked for.
pub proof fn le_bytes_len(value: nat, width: nat)
    ensures
        le_bytes(value, width).len() == width,
    decreases width,
{
    if width > 0 {
        le_bytes_len(value / 256, (width - 1) as nat);
    }
}

/// The bytes of a value spell that value again, as long as it fits the width.
pub proof fn le_value_of_le_bytes(value: nat, width: nat)
    requires
        value < radix(width),
    ensures
        le_value(le_bytes(value, width)) == value,
    decreases width,
{
    if width > 0 {
        let rest = le_bytes(value / 256, (width - 1) as nat);
        let all = le_bytes(value, width);
        le_bytes_len(value / 256, (width - 1) as nat);
        assert(all.skip(1) == rest);
        assert(all[0] == (value % 256) as u8);
        le_value_of_le_bytes(value / 256, (width - 1) as nat);
    }
}

/// What bytes spell fits their width.
pub proof fn le_value_bound(bytes: Seq<u8>)
    ensures
        le_value(bytes) < radix(bytes.len()),
    decreases bytes.len(),
{
    if bytes.len() > 0 {
        le_value_bound(bytes.skip(1));
    }
}

/// Bytes are the encoding of what they spell.
pub proof fn le_bytes_of_le_value(bytes: Seq<u8>)
    ensures
        le_bytes(le_value(bytes), bytes.len()) == bytes,
    decreases bytes.len(),
{
    if bytes.len() > 0 {
        let rest = bytes.skip(1);
        le_bytes_of_le_value(rest);
        let value = le_value(bytes);
        assert(value % 256 == bytes[0] as nat);
        assert(value / 256 == le_value(rest));
        assert(le_bytes(value, bytes.len()) == seq![bytes[0]] + rest);
        assert(seq![bytes[0]] + rest == bytes);
    }
}

/// A wider field holds at least as much.
pub proof fn radix_is_monotonic(a: nat, b: nat)
    requires
        a <= b,
    ensures
        radix(a) <= radix(b),
    decreases b,
{
    if a < b {
        radix_is_monotonic(a, (b - 1) as nat);
    }
}

/// Four bytes hold exactly the 32-bit values, eight bytes the 64-bit values.
pub proof fn radix_of_machine_widths()
    ensures
        radix(4) == 0x1_0000_0000,
        radix(8) == 0x1_0000_0000_0000_0000,
{
    reveal_with_fuel(radix, 9);
}

/// Appends the `width` low-order bytes of `value` to `out`, least
/// significant first.
pub(crate) fn put_le(out: &mut Vec<u8>, value: u64, width: usize)
    requires
        width <= 8,
    ensures
        final(out)@ == old(out)@ + le_bytes(value as nat, width as nat),
{
    let mut rest: u64 = value;
    let mut written: usize = 0;
    while written < width
        invariant
            written <= width,
            out@ + le_bytes(rest as nat, (width - written) as nat) == old(out)@ + le_bytes(
                value as nat,
                width as nat,
            ),
        decreases width - written,
    {
        let ghost before = out@;
        let ghost tail = le_bytes((rest / 256) as nat, (width - written - 1) as nat);
        out.push((rest % 256) as u8);
        proof {
            assert(le_bytes(rest as nat, (width - written) as nat) == seq![(rest % 256) as u8]
                + tail);
            assert(out@ + tail == before + (seq![(rest % 256) as u8] + tail));
        }
        rest = rest / 256;
        written += 1;
    }
    assert(out@ + Seq::<u8>::empty() == out@);
}

/// Reads the number that the `width` bytes of `bytes` from position `at`
/// spell, least significant byte first.
pub(crate) fn get_le(bytes: &[u8], at: usize, width: usize) -> (r: u64)
    requires
        width <= 8,
        at + width <= bytes@.len(),
    ensures
        r == le_value(bytes@.subrange(at as int, at + width)),
{
    let ghost field = bytes@.subrange(at as int, at + width);
    let len: usize = bytes.len();
    let mut acc: u64 = 0;
    let mut left: usize = width;
    while left > 0
        invariant
            left <= width <= 8,
            at + width <= bytes@.len() == len,
            field == bytes@.subrange(at as int, at + width),
            acc == le_value(field.skip(left as int)),
        decreases left,
    {
        left -= 1;
        proof {
            let suffix = field.skip(left as int);
            assert(suffix.skip(1) == field.skip(left + 1));
            assert(suffix[0] == bytes@[at + left]);
            le_value_bound(suffix.skip(1));
            le_value_bound(suffix);
            reveal_with_fuel(radix, 9);
            assert(radix(suffix.len()) <= radix(8)) by {
                radix_is_monotonic(suffix.len(), 8);
            }
        }
        acc = acc * 256 + bytes[at + left] as u64;
    }
    assert(field.skip(0) == field);
    acc
}

} // verus!
