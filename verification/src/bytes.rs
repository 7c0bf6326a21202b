//! Little-endian integers, as they stand on the wire.
use vstd::prelude::*;

verus! {

/// The `n` low bytes of `x`, least significant first.
pub open spec fn le(x: nat, n: nat) -> Seq<u8>
    decreases n,
{
    if n == 0 {
        Seq::<u8>::empty()
    } else {
        seq![(x % 256) as u8] + le(x / 256, (n - 1) as nat)
    }
}

/// The number that a little-endian byte string stands for.
pub open spec fn le_value(s: Seq<u8>) -> nat
    decreases s.len(),
{
    if s.len() == 0 {
        0
    } else {
        s[0] as nat + 256 * le_value(s.skip(1))
    }
}

/// The number of values that `n` bytes can take.
pub open spec fn byte_range(n: nat) -> nat
    decreases n,
{
    if n == 0 {
        1
    } else {
        256 * byte_range((n - 1) as nat)
    }
}

/// The unsigned 32-bit pattern of a signed number in two's complement.
pub open spec fn twos32(x: int) -> nat {
    if x >= 0 {
        x as nat
    } else {
        (x + 0x1_0000_0000) as nat
    }
}

/// The signed number whose two's complement pattern is `u`.
pub open spec fn signed32(u: nat) -> int {
    if u < 0x8000_0000 {
        u as int
    } else {
        u - 0x1_0000_0000
    }
}

pub proof fn lemma_le_len(x: nat, n: nat)
    ensures
        le(x, n).len() == n,
    decreases n,
{
    if n > 0 {
        lemma_le_len(x / 256, (n - 1) as nat);
    }
}

/// Reading back what was written gives the number, as long as it fits.
pub proof fn law_le_roundtrip(x: nat, n: nat)
    requires
        x < byte_range(n),
    ensures
        le(x, n).len() == n,
        le_value(le(x, n)) == x,
    decreases n,
{
    lemma_le_len(x, n);
    if n > 0 {
        let m = (n - 1) as nat;
        law_le_roundtrip(x / 256, m);
        assert(le(x, n).skip(1) =~= le(x / 256, m));
    }
}

/// Writing the number that was read gives the bytes back.
pub proof fn law_le_value_roundtrip(s: Seq<u8>)
    ensures
        le_value(s) < byte_range(s.len()),
        le(le_value(s), s.len()) == s,
    decreases s.len(),
{
    if s.len() > 0 {
        let t = s.skip(1);
        law_le_value_roundtrip(t);
        let v = le_value(s);
        assert(v % 256 == s[0] && v / 256 == le_value(t));
        assert(le(v, s.len()) =~= s);
    } else {
        assert(le(le_value(s), 0) =~= s);
    }
}

pub proof fn lemma_byte_ranges()
    ensures
        byte_range(1) == 0x100,
        byte_range(2) == 0x1_0000,
        byte_range(4) == 0x1_0000_0000,
        byte_range(8) == 0x1_0000_0000_0000_0000,
{
    reveal_with_fuel(byte_range, 9);
}

/// The two bytes of a 16-bit number.
pub fn le16(x: u16) -> (r: [u8; 2])
    ensures
        r@ == le(x as nat, 2),
{
    let r: [u8; 2] = [(x % 256) as u8, (x / 256) as u8];
    proof {
        reveal_with_fuel(le, 3);
        assert(r@ =~= le(x as nat, 2));
    }
    r
}

/// The four bytes of a 32-bit number.
pub fn le32(x: u32) -> (r: [u8; 4])
    ensures
        r@ == le(x as nat, 4),
{
    let r: [u8; 4] = [
        (x % 256) as u8,
        (x / 256 % 256) as u8,
        (x / 256 / 256 % 256) as u8,
        (x / 256 / 256 / 256) as u8,
    ];
    proof {
        reveal_with_fuel(le, 5);
        assert(r@ =~= le(x as nat, 4));
    }
    r
}

/// The eight bytes of a 64-bit number.
pub fn le64(x: u64) -> (r: [u8; 8])
    ensures
        r@ == le(x as nat, 8),
{
    let low = le32((x % 0x1_0000_0000) as u32);
    let high = le32((x / 0x1_0000_0000) as u32);
    let r: [u8; 8] = [low[0], low[1], low[2], low[3], high[0], high[1], high[2], high[3]];
    proof {
        lemma_byte_ranges();
        lemma_le_value_split(r@, 4);
        assert(r@.take(4) =~= low@ && r@.skip(4) =~= high@);
        law_le_roundtrip(x as nat % 0x1_0000_0000, 4);
        law_le_roundtrip(x as nat / 0x1_0000_0000, 4);
        law_le_value_roundtrip(r@);
    }
    r
}

/// The 16-bit number that two bytes stand for.
pub fn read16(b0: u8, b1: u8) -> (r: u16)
    ensures
        r as nat == le_value(seq![b0, b1]),
{
    proof {
        reveal_with_fuel(le_value, 3);
        assert(seq![b0, b1].skip(1) =~= seq![b1]);
        assert(seq![b1].skip(1) =~= Seq::<u8>::empty());
    }
    b0 as u16 + 256 * (b1 as u16)
}

/// The 32-bit number that stands at position `at`.
pub fn read32(b: &[u8], at: usize) -> (r: u32)
    requires
        at + 4 <= b.len(),
    ensures
        r as nat == le_value(b@.subrange(at as int, at + 4)),
{
    let low = read16(b[at], b[at + 1]);
    let high = read16(b[at + 2], b[at + 3]);
    proof {
        let s = b@.subrange(at as int, at + 4);
        reveal_with_fuel(le_value, 5);
        assert(s.skip(1).skip(1).skip(1).skip(1) =~= Seq::<u8>::empty());
        assert(seq![s[0], s[1]].skip(1) =~= seq![s[1]]);
        assert(seq![s[2], s[3]].skip(1) =~= seq![s[3]]);
        assert(seq![s[1]].skip(1) =~= Seq::<u8>::empty());
        assert(seq![s[3]].skip(1) =~= Seq::<u8>::empty());
    }
    low as u32 + 0x1_0000 * (high as u32)
}

/// The 64-bit number that stands at position `at`.
pub fn read64(b: &[u8], at: usize) -> (r: u64)
    requires
        at + 8 <= b.len(),
    ensures
        r as nat == le_value(b@.subrange(at as int, at + 8)),
{
    let low = read32(b, at);
    let high = read32(b, at + 4);
    proof {
        lemma_le_value_split(b@.subrange(at as int, at + 8), 4);
        lemma_byte_ranges();
        assert(b@.subrange(at as int, at + 8).take(4) =~= b@.subrange(at as int, at + 4));
        assert(b@.subrange(at as int, at + 8).skip(4) =~= b@.subrange(at + 4, at + 8));
    }
    low as u64 + 0x1_0000_0000 * (high as u64)
}

/// A number's low and high bytes can be read apart.
pub proof fn lemma_le_value_split(s: Seq<u8>, k: nat)
    requires
        k <= s.len(),
    ensures
        le_value(s) == le_value(s.take(k as int)) + byte_range(k) * le_value(s.skip(k as int)),
    decreases k,
{
    if k == 0 {
        assert(s.skip(0) =~= s);
        assert(s.take(0) =~= Seq::<u8>::empty());
        assert(byte_range(0) * le_value(s) == le_value(s)) by (nonlinear_arith)
            requires
                byte_range(0) == 1,
        ;
    } else {
        let j = (k - 1) as nat;
        lemma_le_value_split(s.skip(1), j);
        assert(s.take(k as int).skip(1) =~= s.skip(1).take(j as int));
        assert(s.skip(1).skip(j as int) =~= s.skip(k as int));
        let high = le_value(s.skip(k as int));
        assert(s.take(k as int)[0] == s[0]);
        assert(256 * (byte_range(j) * high) == (256 * byte_range(j)) * high) by (nonlinear_arith);
    }
}

/// The two's complement pattern of `x`.
pub fn to_twos32(x: i32) -> (r: u32)
    ensures
        r as nat == twos32(x as int),
{
    if x >= 0 {
        x as u32
    } else {
        (x as i64 + 0x1_0000_0000) as u32
    }
}

/// The number whose two's complement pattern is `u`.
pub fn from_twos32(u: u32) -> (r: i32)
    ensures
        r as int == signed32(u as nat),
{
    if u < 0x8000_0000 {
        u as i32
    } else {
        (u as i64 - 0x1_0000_0000) as i32
    }
}

/// Each byte weighs 256 times the one before it: what two, four and eight bytes stand for.
pub proof fn law_bytes_weigh_in_order(s: Seq<u8>)
    ensures
        s.len() == 2 ==> le_value(s) == s[0] + 0x100 * s[1],
        s.len() == 4 ==> le_value(s) == s[0] + 0x100 * s[1] + 0x1_0000 * s[2] + 0x100_0000 * s[3],
        s.len() == 8 ==> le_value(s) == s[0] + 0x100 * s[1] + 0x1_0000 * s[2] + 0x100_0000 * s[3]
            + 0x1_0000_0000 * s[4] + 0x100_0000_0000 * s[5] + 0x1_0000_0000_0000 * s[6]
            + 0x100_0000_0000_0000 * s[7],
    decreases s.len(),
{
    lemma_byte_ranges();
    if s.len() == 2 {
        reveal_with_fuel(le_value, 3);
        assert(s.skip(1).skip(1) =~= Seq::<u8>::empty());
    } else if s.len() == 4 {
        let (low, high) = (s.take(2), s.skip(2));
        law_bytes_weigh_in_order(low);
        law_bytes_weigh_in_order(high);
        lemma_le_value_split(s, 2);
        assert(byte_range(2) * le_value(high) == 0x1_0000 * le_value(high));
    } else if s.len() == 8 {
        let (low, high) = (s.take(4), s.skip(4));
        law_bytes_weigh_in_order(low);
        law_bytes_weigh_in_order(high);
        lemma_le_value_split(s, 4);
        assert(byte_range(4) * le_value(high) == 0x1_0000_0000 * le_value(high));
    }
}

/// The number grows from its low byte up: the first byte written is what is left of the number
/// by 256, and the others are those of the number divided by 256.
pub proof fn law_low_byte_first(x: nat, n: nat)
    requires
        n > 0,
    ensures
        le(x, n).len() == n,
        le(x, n)[0] == x % 256,
        le(x, n).skip(1) == le(x / 256, (n - 1) as nat),
{
    lemma_le_len(x, n);
    assert(le(x, n).skip(1) =~= le(x / 256, (n - 1) as nat));
}

/// A signed number and its pattern differ by nothing or by 2^32, each fits its 32 bits, and each
/// gives the other back.
pub proof fn law_twos_complement(x: int, u: nat)
    requires
        -0x8000_0000 <= x < 0x8000_0000,
        u < 0x1_0000_0000,
    ensures
        twos32(x) < 0x1_0000_0000,
        twos32(x) == x || twos32(x) == x + 0x1_0000_0000,
        -0x8000_0000 <= signed32(u) < 0x8000_0000,
        signed32(u) == u || signed32(u) == u - 0x1_0000_0000,
        signed32(twos32(x)) == x,
        twos32(signed32(u)) == u,
{
}

/// Two bytes of a string taken as a number, the low one first.
pub open spec fn word16(s: Seq<u8>, at: int) -> int {
    s[at] + 0x100 * s[at + 1]
}

/// Four bytes of a string taken as a number, the low one first.
pub open spec fn word32(s: Seq<u8>, at: int) -> int {
    s[at] + 0x100 * s[at + 1] + 0x1_0000 * s[at + 2] + 0x100_0000 * s[at + 3]
}

/// What stands in a string at a place, read as a number, is what its bytes weigh.
pub proof fn lemma_words(s: Seq<u8>, at: int)
    ensures
        0 <= at && at + 2 <= s.len() ==> le_value(s.subrange(at, at + 2)) == word16(s, at),
        0 <= at && at + 4 <= s.len() ==> le_value(s.subrange(at, at + 4)) == word32(s, at),
        0 <= at && at + 8 <= s.len() ==> le_value(s.subrange(at, at + 8)) == word32(s, at)
            + 0x1_0000_0000 * word32(s, at + 4),
{
    if 0 <= at && at + 2 <= s.len() {
        law_bytes_weigh_in_order(s.subrange(at, at + 2));
    }
    if 0 <= at && at + 4 <= s.len() {
        law_bytes_weigh_in_order(s.subrange(at, at + 4));
    }
    if 0 <= at && at + 8 <= s.len() {
        law_bytes_weigh_in_order(s.subrange(at, at + 8));
    }
}

} // verus!
