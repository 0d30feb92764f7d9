//! Integers on the wire: unsigned, most significant byte first.

use vstd::prelude::*;

verus! {

/// The number that the bytes of `s` spell, most significant byte first.
pub open spec fn be_value(s: Seq<u8>) -> nat
    decreases s.len(),
{
    if s.len() == 0 {
        0
    } else {
        be_value(s.drop_last()) * 256 + s.last() as nat
    }
}

/// The last `width` bytes of `n`, most significant byte first.
pub open spec fn be_bytes(n: nat, width: nat) -> Seq<u8>
    decreases width,
{
    if width == 0 {
        Seq::empty()
    } else {
        be_bytes(n / 256, (width - 1) as nat).push((n % 256) as u8)
    }
}

/// The number of values that `width` bytes can spell.
pub open spec fn byte_range(width: nat) -> nat
    decreases width,
{
    if width == 0 {
        1
    } else {
        byte_range((width - 1) as nat) * 256
    }
}

/// An integer takes as many bytes as its field is wide.
pub proof fn be_bytes_len(n: nat, width: nat)
    ensures
        be_bytes(n, width).len() == width,
    decreases width,
{
    if width > 0 {
        be_bytes_len(n / 256, (width - 1) as nat);
    }
}

/// Reading back an integer gives the integer that was written, if its field can hold it.
pub proof fn be_round_trip(n: nat, width: nat)
    requires
        n < byte_range(width),
    ensures
        be_value(be_bytes(n, width)) == n,
    decreases width,
{
    if width > 0 {
        let front = be_bytes(n / 256, (width - 1) as nat);
        be_round_trip(n / 256, (width - 1) as nat);
        assert(be_bytes(n, width).drop_last() =~= front);
    }
}

/// The bytes of a field spell a number that the field can hold.
pub proof fn be_value_bound(s: Seq<u8>)
    ensures
        be_value(s) < byte_range(s.len()),
    decreases s.len(),
{
    if s.len() > 0 {
        be_value_bound(s.drop_last());
    }
}

/// The ranges of the two field widths in use.
pub proof fn byte_ranges()
    ensures
        byte_range(4) == 0x1_0000_0000,
        byte_range(8) == 0x1_0000_0000_0000_0000,
{
    reveal_with_fuel(byte_range, 9);
}

/// Appends the last `width` bytes of `n`.
pub fn push_be(out: &mut Vec<u8>, n: u64, width: u8)
    ensures
        final(out)@ == old(out)@ + be_bytes(n as nat, width as nat),
    decreases width,
{
    if width > 0 {
        push_be(out, n / 256, width - 1);
        out.push((n % 256) as u8);
    }
}

/// The number in the field of `width` bytes that starts at `at`.
pub fn read_be(buf: &[u8], at: usize, width: usize) -> (r: u64)
    requires
        width <= 8,
        at + width <= buf@.len(),
    ensures
        r == be_value(buf@.subrange(at as int, at + width)),
{
    let len: usize = buf.len();
    let mut value: u64 = 0;
    let mut i: usize = 0;
    assert(buf@.subrange(at as int, at as int) =~= Seq::<u8>::empty());
    while i < width
        invariant
            width <= 8,
            i <= width,
            at + width <= len == buf@.len(),
            value == be_value(buf@.subrange(at as int, at + i)),
        decreases width - i,
    {
        let ghost field = buf@.subrange(at as int, at + i + 1);
        assert(field.drop_last() =~= buf@.subrange(at as int, at + i));
        proof {
            be_value_bound(field);
            reveal_with_fuel(byte_range, 9);
        }
        value = value * 256 + buf[at + i] as u64;
        i += 1;
    }
    value
}

/// A byte behind a number makes 256 times the number and the byte: the first byte counts most.
pub proof fn first_byte_counts_most(front: Seq<u8>, last: u8)
    ensures
        be_value(Seq::<u8>::empty()) == 0,
        be_value(front.push(last)) == be_value(front) * 256 + last,
        byte_range(0) == 1,
        byte_range(front.len() + 1) == byte_range(front.len()) * 256,
{
    assert(front.push(last).drop_last() =~= front);
}

/// Writing the number that a field spells gives the bytes of the field.
pub proof fn be_field_round_trip(s: Seq<u8>)
    ensures
        be_bytes(be_value(s), s.len()) == s,
    decreases s.len(),
{
    if s.len() > 0 {
        be_field_round_trip(s.drop_last());
        let n = be_value(s);
        assert(n / 256 == be_value(s.drop_last()) && n % 256 == s.last());
        assert(s.drop_last().push(s.last()) =~= s);
    } else {
        assert(be_bytes(be_value(s), 0) =~= s);
    }
}

} // verus!
