//! Numbers as bytes in memory order, least significant byte first, which is
//! how the processor and the boot loader lay out every structure this
//! library reads or writes.

use vstd::prelude::*;

verus! {

/// 256 to the power `index`, for the eight byte positions of a `u64`.
pub open spec fn byte_weight(index: int) -> int {
    if index == 0 {
        0x1
    } else if index == 1 {
        0x100
    } else if index == 2 {
        0x1_0000
    } else if index == 3 {
        0x100_0000
    } else if index == 4 {
        0x1_0000_0000
    } else if index == 5 {
        0x100_0000_0000
    } else if index == 6 {
        0x1_0000_0000_0000
    } else {
        0x100_0000_0000_0000
    }
}

/// Byte `index` of `value`, counting from the least significant.
pub open spec fn byte_of(value: int, index: int) -> u8 {
    ((value / byte_weight(index)) % 256) as u8
}

/// The `count` low bytes of `value` in memory order, least significant first.
pub open spec fn le_bytes(value: int, count: nat) -> Seq<u8> {
    Seq::new(count, |i: int| byte_of(value, i))
}

/// The number whose `count` bytes, least significant first, start at `at` in `bytes`.
pub open spec fn le_value(bytes: Seq<u8>, at: int, count: int) -> int
    decreases count,
{
    if count <= 0 {
        0
    } else {
        le_value(bytes, at, count - 1) + bytes[at + count - 1] as int * byte_weight(count - 1)
    }
}

/// 256 to the power `index`.
fn weight(index: usize) -> (w: u64)
    requires
        index < 8,
    ensures
        w == byte_weight(index as int),
{
    if index == 0 {
        0x1
    } else if index == 1 {
        0x100
    } else if index == 2 {
        0x1_0000
    } else if index == 3 {
        0x100_0000
    } else if index == 4 {
        0x1_0000_0000
    } else if index == 5 {
        0x100_0000_0000
    } else if index == 6 {
        0x1_0000_0000_0000
    } else {
        0x100_0000_0000_0000
    }
}

/// Appends the `count` low bytes of `value` to `out`, least significant first.
pub(crate) fn push_le(out: &mut Vec<u8>, value: u64, count: usize)
    requires
        count <= 8,
    ensures
        final(out)@ == old(out)@ + le_bytes(value as int, count as nat),
{
    let mut i: usize = 0;
    while i < count
        invariant
            i <= count <= 8,
            out@ == old(out)@ + le_bytes(value as int, i as nat),
        decreases count - i,
    {
        let b: u8 = ((value / weight(i)) % 256) as u8;
        out.push(b);
        i = i + 1;
        assert(out@ =~= old(out)@ + le_bytes(value as int, i as nat));
    }
}

/// Reads the number whose `count` bytes, least significant first, start at `at`.
pub(crate) fn read_le(bytes: &[u8], at: usize, count: usize) -> (value: u64)
    requires
        count <= 8,
        at + count <= bytes@.len(),
    ensures
        value == le_value(bytes@, at as int, count as int),
{
    let n: usize = bytes.len();
    let mut value: u64 = 0;
    let mut i: usize = 0;
    while i < count
        invariant
            i <= count <= 8,
            n == bytes@.len(),
            at + count <= n,
            value == le_value(bytes@, at as int, i as int),
            value < byte_weight(i as int) || i == 8,
        decreases count - i,
    {
        let b: u64 = bytes[at + i] as u64;
        let w: u64 = weight(i);
        assert(b * w <= 255 * w) by (nonlinear_arith)
            requires
                b <= 255,
                w >= 0,
        ;
        value = value + b * w;
        i = i + 1;
    }
    value
}

/// A number read from `count` bytes is below 256 to the power `count`.
pub proof fn lemma_le_value_bound(bytes: Seq<u8>, at: int, count: int)
    requires
        0 <= count <= 8,
    ensures
        0 <= le_value(bytes, at, count),
        count < 8 ==> le_value(bytes, at, count) < byte_weight(count),
        count == 8 ==> le_value(bytes, at, count) <= u64::MAX,
    decreases count,
{
    if count > 0 {
        lemma_le_value_bound(bytes, at, count - 1);
        let b = bytes[at + count - 1] as int;
        let w = byte_weight(count - 1);
        assert(0 <= b * w <= 255 * w) by (nonlinear_arith)
            requires
                0 <= b <= 255,
                w >= 0,
        ;
    }
}

/// Reading back the bytes of a number gives the number: the `count` low
/// bytes of `value`, placed at `at`, spell `value` when it fits in them.
pub proof fn lemma_le_round_trip(bytes: Seq<u8>, at: int, value: int, count: int)
    requires
        0 <= count <= 8,
        0 <= at,
        at + count <= bytes.len(),
        0 <= value,
        forall|i: int| 0 <= i < count ==> bytes[at + i] == byte_of(value, i),
    ensures
        count < 8 ==> le_value(bytes, at, count) == value % byte_weight(count),
        count == 8 ==> le_value(bytes, at, count) == value % 0x1_0000_0000_0000_0000,
    decreases count,
{
    if count > 0 {
        lemma_le_round_trip(bytes, at, value, count - 1);
        let w = byte_weight(count - 1);
        let q = value / w;
        assert(bytes[at + count - 1] == byte_of(value, count - 1));
        vstd::arithmetic::div_mod::lemma_mod_breakdown(value, w, 256);
        assert(w * (q % 256) == (q % 256) * w) by (nonlinear_arith);
        assert(w * 256 == if count == 8 {
            0x1_0000_0000_0000_0000
        } else {
            byte_weight(count)
        });
    }
}

} // verus!
