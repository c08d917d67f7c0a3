//! The bytes of the integers as the driver reads and writes them: the lowest
//! byte first.
use vstd::prelude::*;

verus! {

/// The two bytes of a 16-bit word, the low byte first.
pub open spec fn le16(x: u16) -> Seq<u8> {
    seq![(x & 0xff) as u8, ((x >> 8) & 0xff) as u8]
}

/// The 16-bit word that two bytes stand for, the low byte first.
pub open spec fn from_le16(b: Seq<u8>) -> u16 {
    (b[0] as u16) | ((b[1] as u16) << 8)
}

/// The four bytes of a 32-bit word, the lowest byte first.
pub open spec fn le32(x: u32) -> Seq<u8> {
    seq![
        (x & 0xff) as u8,
        ((x >> 8) & 0xff) as u8,
        ((x >> 16) & 0xff) as u8,
        ((x >> 24) & 0xff) as u8,
    ]
}

/// The 32-bit word that four bytes stand for, the lowest byte first.
pub open spec fn from_le32(b: Seq<u8>) -> u32 {
    (b[0] as u32) | ((b[1] as u32) << 8) | ((b[2] as u32) << 16) | ((b[3] as u32) << 24)
}

/// The number that 32 bits stand for when they are read as a signed integer
/// in two's complement.
pub open spec fn signed_of(x: u32) -> int {
    if x < 0x8000_0000 {
        x as int
    } else {
        x - 0x1_0000_0000
    }
}

/// The number that the 32 bits of a signed integer stand for when they are
/// read as an unsigned integer.
pub open spec fn unsigned_of(x: i32) -> int {
    if x >= 0 {
        x as int
    } else {
        x + 0x1_0000_0000
    }
}

/// The four bytes of a signed 32-bit integer in two's complement, the lowest
/// byte first.
pub open spec fn le32_signed(x: i32) -> Seq<u8> {
    le32(x as u32)
}

/// The signed 32-bit integer that four bytes stand for.
pub open spec fn from_le32_signed(b: Seq<u8>) -> i32 {
    from_le32(b) as i32
}

/// The number of bytes of an address on the machine that runs the driver:
/// four or eight.
pub open spec fn address_size() -> nat {
    (usize::BITS / 8) as nat
}

/// The bytes of an address, the lowest byte first: four bytes, and four more
/// where an address has eight.
pub open spec fn le_address(x: usize) -> Seq<u8> {
    if usize::BITS == 64 {
        le32((x as u64 & 0xffff_ffff) as u32) + le32((x as u64 >> 32) as u32)
    } else {
        le32(x as u32)
    }
}

/// What stands where after `last` is appended to `head`: `last` stands
/// behind `head`, and every stretch of `head` stands where it stood.
pub proof fn lemma_append(head: Seq<u8>, last: Seq<u8>)
    ensures
        (head + last).len() == head.len() + last.len(),
        (head + last).subrange(head.len() as int, (head.len() + last.len()) as int) == last,
        forall|lo: int, hi: int|
            0 <= lo <= hi <= head.len() ==> #[trigger] (head + last).subrange(lo, hi)
                == head.subrange(lo, hi),
{
    assert((head + last).subrange(head.len() as int, (head.len() + last.len()) as int) =~= last);
    assert forall|lo: int, hi: int| 0 <= lo <= hi <= head.len() implies #[trigger] (head
        + last).subrange(lo, hi) == head.subrange(lo, hi) by {
        assert((head + last).subrange(lo, hi) =~= head.subrange(lo, hi));
    }
}

/// `n` zero bytes.
pub open spec fn zeros(n: nat) -> Seq<u8> {
    Seq::new(n, |i: int| 0u8)
}

/// Zeros behind zeros are zeros.
pub proof fn lemma_zeros_append(n: nat, m: nat)
    ensures
        zeros(n) + zeros(m) == zeros(n + m),
{
    assert(zeros(n) + zeros(m) =~= zeros(n + m));
}

/// The bytes of zero are zeros.
pub proof fn lemma_le32_of_zero()
    ensures
        le32(0) == zeros(4),
        le32_signed(0) == zeros(4),
        le16(0) == zeros(2),
{
    assert((0u32 & 0xff) as u8 == 0 && ((0u32 >> 8) & 0xff) as u8 == 0 && ((0u32 >> 16) & 0xff) as u8
        == 0 && ((0u32 >> 24) & 0xff) as u8 == 0 && (0i32 as u32) == 0 && (0u16 & 0xff) as u8 == 0
        && ((0u16 >> 8) & 0xff) as u8 == 0) by (bit_vector);
    assert(le32(0) =~= zeros(4));
    assert(le16(0) =~= zeros(2));
}

/// The bytes of the address zero are zeros.
pub proof fn lemma_le_address_of_zero()
    ensures
        le_address(0) == zeros(address_size()),
{
    lemma_le32_of_zero();
    lemma_zeros_append(4, 4);
    assert((0u64 & 0xffff_ffff) as u32 == 0 && (0u64 >> 32) as u32 == 0) by (bit_vector);
}

/// A 16-bit word is read back from its two bytes.
pub proof fn lemma_le16_round_trip(x: u16)
    ensures
        le16(x).len() == 2,
        from_le16(le16(x)) == x,
{
    assert((((x & 0xff) as u8) as u16) | (((((x >> 8) & 0xff) as u8) as u16) << 8) == x)
        by (bit_vector);
}

/// Two bytes are the bytes of the 16-bit word that they stand for.
pub proof fn lemma_from_le16_round_trip(b: Seq<u8>)
    requires
        b.len() == 2,
    ensures
        le16(from_le16(b)) == b,
{
    let b0: u8 = b[0];
    let b1: u8 = b[1];
    let x: u16 = (b0 as u16) | ((b1 as u16) << 8);
    assert((x & 0xff) as u8 == b0 && ((x >> 8) & 0xff) as u8 == b1) by (bit_vector)
        requires
            x == (b0 as u16) | ((b1 as u16) << 8),
    ;
    assert(le16(from_le16(b)) =~= b);
}

/// A 32-bit word is read back from its four bytes.
pub proof fn lemma_le32_round_trip(x: u32)
    ensures
        le32(x).len() == 4,
        from_le32(le32(x)) == x,
{
    assert((((x & 0xff) as u8) as u32) | (((((x >> 8) & 0xff) as u8) as u32) << 8) | (((((x >> 16)
        & 0xff) as u8) as u32) << 16) | (((((x >> 24) & 0xff) as u8) as u32) << 24) == x)
        by (bit_vector);
}

/// Four bytes are the bytes of the 32-bit word that they stand for.
pub proof fn lemma_from_le32_round_trip(b: Seq<u8>)
    requires
        b.len() == 4,
    ensures
        le32(from_le32(b)) == b,
{
    let b0: u8 = b[0];
    let b1: u8 = b[1];
    let b2: u8 = b[2];
    let b3: u8 = b[3];
    let x: u32 = (b0 as u32) | ((b1 as u32) << 8) | ((b2 as u32) << 16) | ((b3 as u32) << 24);
    assert((x & 0xff) as u8 == b0 && ((x >> 8) & 0xff) as u8 == b1 && ((x >> 16) & 0xff) as u8
        == b2 && ((x >> 24) & 0xff) as u8 == b3) by (bit_vector)
        requires
            x == (b0 as u32) | ((b1 as u32) << 8) | ((b2 as u32) << 16) | ((b3 as u32) << 24),
    ;
    assert(le32(from_le32(b)) =~= b);
}

/// The four bytes of a 32-bit word are its two 16-bit halves, the low half first.
pub proof fn lemma_le32_is_two_halves(x: u32)
    ensures
        (x & 0xffff) <= 0xffff,
        (x >> 16) <= 0xffff,
        le32(x) == le16((x & 0xffff) as u16) + le16((x >> 16) as u16),
{
    let low: u16 = (x & 0xffff) as u16;
    let high: u16 = (x >> 16) as u16;
    assert((x & 0xffff) <= 0xffff && (x >> 16) <= 0xffff && (low & 0xff) as u8 == (x & 0xff) as u8
        && ((low >> 8) & 0xff) as u8 == ((x >> 8) & 0xff) as u8 && (high & 0xff) as u8 == ((x
        >> 16) & 0xff) as u8 && ((high >> 8) & 0xff) as u8 == ((x >> 24) & 0xff) as u8)
        by (bit_vector)
        requires
            low == (x & 0xffff) as u16,
            high == (x >> 16) as u16,
    ;
    assert(le32(x) =~= le16(low) + le16(high));
}

/// A signed 32-bit integer is read back from its four bytes.
pub proof fn lemma_le32_signed_round_trip(x: i32)
    ensures
        le32_signed(x).len() == 4,
        from_le32_signed(le32_signed(x)) == x,
{
    lemma_le32_round_trip(x as u32);
    assert((x as u32) as i32 == x) by (bit_vector);
}

/// Four bytes are the bytes of the signed 32-bit integer that they stand for.
pub proof fn lemma_from_le32_signed_round_trip(b: Seq<u8>)
    requires
        b.len() == 4,
    ensures
        le32_signed(from_le32_signed(b)) == b,
{
    lemma_from_le32_round_trip(b);
    let x: u32 = from_le32(b);
    assert((x as i32) as u32 == x) by (bit_vector);
}

/// Two addresses with the same bytes are the same address.
pub proof fn lemma_le_address_injective(x: usize, y: usize)
    requires
        le_address(x) == le_address(y),
    ensures
        x == y,
{
    if usize::BITS == 64 {
        let a: u64 = x as u64;
        let b: u64 = y as u64;
        let a_low: u32 = (a & 0xffff_ffff) as u32;
        let a_high: u32 = (a >> 32) as u32;
        let b_low: u32 = (b & 0xffff_ffff) as u32;
        let b_high: u32 = (b >> 32) as u32;
        lemma_le32_round_trip(a_low);
        lemma_le32_round_trip(a_high);
        lemma_le32_round_trip(b_low);
        lemma_le32_round_trip(b_high);
        assert(le_address(x).subrange(0, 4) =~= le32(a_low));
        assert(le_address(y).subrange(0, 4) =~= le32(b_low));
        assert(le_address(x).subrange(4, 8) =~= le32(a_high));
        assert(le_address(y).subrange(4, 8) =~= le32(b_high));
        assert(a == b) by (bit_vector)
            requires
                (a & 0xffff_ffff) as u32 == (b & 0xffff_ffff) as u32,
                (a >> 32) as u32 == (b >> 32) as u32,
        ;
    } else {
        lemma_le32_round_trip(x as u32);
        lemma_le32_round_trip(y as u32);
    }
}

/// The number of bytes of an address on this machine.
pub fn address_bytes() -> (n: usize)
    ensures
        n == address_size(),
        n == 4 || n == 8,
{
    if usize::BITS == 64 {
        8
    } else {
        4
    }
}

/// Appends the bytes of the address `x` to `out`.
pub fn push_address(out: &mut Vec<u8>, x: usize)
    ensures
        final(out)@ == old(out)@ + le_address(x),
        le_address(x).len() == address_size(),
{
    let wide: u64 = x as u64;
    if usize::BITS == 64 {
        let ghost before = out@;
        assert((wide & 0xffff_ffff) <= 0xffff_ffff && (wide >> 32) <= 0xffff_ffff) by (bit_vector);
        push_u32(out, (wide & 0xffff_ffff) as u32);
        push_u32(out, (wide >> 32) as u32);
        assert(out@ =~= before + le_address(x));
    } else {
        push_u32(out, x as u32);
    }
}

/// The address whose bytes stand at `at` in `bytes`.
pub fn read_address(bytes: &[u8], at: usize) -> (x: usize)
    requires
        at + address_size() <= bytes.len(),
    ensures
        le_address(x) == bytes@.subrange(at as int, at + address_size()),
{
    let low: u32 = read_u32(bytes, at);
    proof {
        lemma_from_le32_round_trip(bytes@.subrange(at as int, at + 4));
    }
    if usize::BITS == 64 {
        let high: u32 = read_u32(bytes, at + 4);
        let wide: u64 = (low as u64) | ((high as u64) << 32);
        proof {
            lemma_from_le32_round_trip(bytes@.subrange(at + 4, at + 8));
            assert((wide & 0xffff_ffff) as u32 == low && (wide >> 32) as u32 == high)
                by (bit_vector)
                requires
                    wide == (low as u64) | ((high as u64) << 32),
            ;
        }
        let x: usize = wide as usize;
        assert(le_address(x) =~= bytes@.subrange(at as int, at + 8));
        x
    } else {
        low as usize
    }
}

/// The 32 bits of `x`, read as a signed integer in two's complement.
pub fn reinterpret_signed(x: u32) -> (r: i32)
    ensures
        r == signed_of(x),
        r == x as i32,
        r as u32 == x,
{
    assert((x as i32) as u32 == x && (x < 0x8000_0000 ==> (x as i32) == x) && (x >= 0x8000_0000
        ==> (x as i32) == x - 0x1_0000_0000)) by (bit_vector);
    x as i32
}

/// The 32 bits of `x`, read as an unsigned integer.
pub fn reinterpret_unsigned(x: i32) -> (r: u32)
    ensures
        r == unsigned_of(x),
        r == x as u32,
        r as i32 == x,
{
    assert((x as u32) as i32 == x && (x >= 0 ==> (x as u32) == x) && (x < 0 ==> (x as u32) == x
        + 0x1_0000_0000)) by (bit_vector);
    x as u32
}

/// Appends the two bytes of `x` to `out`.
pub fn push_u16(out: &mut Vec<u8>, x: u16)
    ensures
        final(out)@ == old(out)@ + le16(x),
{
    let ghost before = out@;
    assert((x & 0xff) < 256 && ((x >> 8) & 0xff) < 256) by (bit_vector);
    out.push((x & 0xff) as u8);
    out.push(((x >> 8) & 0xff) as u8);
    assert(out@ =~= before + le16(x));
}

/// Appends the four bytes of `x` to `out`.
pub fn push_u32(out: &mut Vec<u8>, x: u32)
    ensures
        final(out)@ == old(out)@ + le32(x),
{
    let ghost before = out@;
    assert((x & 0xff) < 256 && ((x >> 8) & 0xff) < 256 && ((x >> 16) & 0xff) < 256 && ((x >> 24)
        & 0xff) < 256) by (bit_vector);
    out.push((x & 0xff) as u8);
    out.push(((x >> 8) & 0xff) as u8);
    out.push(((x >> 16) & 0xff) as u8);
    out.push(((x >> 24) & 0xff) as u8);
    assert(out@ =~= before + le32(x));
}

/// Appends the four bytes of the signed integer `x` to `out`.
pub fn push_i32(out: &mut Vec<u8>, x: i32)
    ensures
        final(out)@ == old(out)@ + le32_signed(x),
{
    push_u32(out, reinterpret_unsigned(x));
}

/// The 16-bit word that stands at `at` in `bytes`.
pub fn read_u16(bytes: &[u8], at: usize) -> (x: u16)
    requires
        at + 2 <= bytes.len(),
    ensures
        x == from_le16(bytes@.subrange(at as int, at + 2)),
{
    (bytes[at] as u16) | ((bytes[at + 1] as u16) << 8)
}

/// The 32-bit word that stands at `at` in `bytes`.
pub fn read_u32(bytes: &[u8], at: usize) -> (x: u32)
    requires
        at + 4 <= bytes.len(),
    ensures
        x == from_le32(bytes@.subrange(at as int, at + 4)),
{
    (bytes[at] as u32) | ((bytes[at + 1] as u32) << 8) | ((bytes[at + 2] as u32) << 16) | ((
    bytes[at + 3] as u32) << 24)
}

/// The signed 32-bit integer that stands at `at` in `bytes`.
pub fn read_i32(bytes: &[u8], at: usize) -> (x: i32)
    requires
        at + 4 <= bytes.len(),
    ensures
        x == from_le32_signed(bytes@.subrange(at as int, at + 4)),
{
    reinterpret_signed(read_u32(bytes, at))
}

} // verus!
