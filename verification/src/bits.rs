//! Bit positions of a 32-bit word, seen as a set.
//!
//! Every flag set of the tablet interface is backed by one 32-bit word. Its
//! mathematical model is the set of the positions (0 for the lowest bit, 31
//! for the highest) at which that word has a one. The lemmas here carry the
//! bitwise operators over to the operations on sets.
use vstd::prelude::*;

verus! {

/// True when bit number `i` of `x` is one. No word has a bit from 32 on.
pub open spec fn has_bit(x: u32, i: nat) -> bool {
    i < 32 && (x >> (i as u32)) & 1u32 == 1u32
}

/// The positions at which `x` has a one.
pub open spec fn positions(x: u32) -> Set<nat> {
    Set::new(|i: nat| has_bit(x, i))
}

/// The positions below `n`.
pub open spec fn below(n: nat) -> Set<nat> {
    Set::new(|i: nat| i < n)
}

proof fn lemma_bit_of_or(a: u32, b: u32, i: u32)
    by (bit_vector)
    requires
        i < 32,
    ensures
        (((a | b) >> i) & 1u32 == 1u32) <==> ((a >> i) & 1u32 == 1u32 || (b >> i) & 1u32 == 1u32),
{
}

proof fn lemma_bit_of_and(a: u32, b: u32, i: u32)
    by (bit_vector)
    requires
        i < 32,
    ensures
        (((a & b) >> i) & 1u32 == 1u32) <==> ((a >> i) & 1u32 == 1u32 && (b >> i) & 1u32 == 1u32),
{
}

proof fn lemma_bit_of_and_not(a: u32, b: u32, i: u32)
    by (bit_vector)
    requires
        i < 32,
    ensures
        (((a & !b) >> i) & 1u32 == 1u32) <==> ((a >> i) & 1u32 == 1u32 && !((b >> i) & 1u32
            == 1u32)),
{
}

proof fn lemma_bit_of_zero(i: u32)
    by (bit_vector)
    requires
        i < 32,
    ensures
        !((0u32 >> i) & 1u32 == 1u32),
{
}

proof fn lemma_bit_of_shifted_one(k: u32, i: u32)
    by (bit_vector)
    requires
        k < 32,
        i < 32,
    ensures
        (((1u32 << k) >> i) & 1u32 == 1u32) <==> i == k,
{
}

proof fn lemma_bit_of_low_mask(n: u32, i: u32)
    by (bit_vector)
    requires
        n < 32,
        i < 32,
    ensures
        ((((1u32 << n) - 1) as u32 >> i) & 1u32 == 1u32) <==> i < n,
{
}

/// A word is its lowest bit beside the rest, so two words whose bits agree
/// from position `k` on agree once shifted right by `k`.
proof fn lemma_agree_from(a: u32, b: u32, k: u32)
    requires
        k <= 32,
        forall|i: nat| k <= i < 32 ==> has_bit(a, i) == has_bit(b, i),
    ensures
        a >> k == b >> k,
    decreases 32 - k,
{
    if k == 32 {
        assert(a >> 32u32 == 0u32) by (bit_vector);
        assert(b >> 32u32 == 0u32) by (bit_vector);
    } else {
        let k1: u32 = (k + 1) as u32;
        lemma_agree_from(a, b, k1);
        assert(has_bit(a, k as nat) == has_bit(b, k as nat));
        assert(a >> k == b >> k) by (bit_vector)
            requires
                k < 32,
                k1 == k + 1,
                a >> k1 == b >> k1,
                ((a >> k) & 1u32 == 1u32) <==> ((b >> k) & 1u32 == 1u32),
        ;
    }
}

/// No position holds a one in the word zero.
pub proof fn lemma_positions_of_zero()
    ensures
        positions(0) == Set::<nat>::empty(),
{
    assert forall|i: nat| !has_bit(0, i) by {
        if i < 32 {
            lemma_bit_of_zero(i as u32);
        }
    }
    assert(positions(0) =~= Set::<nat>::empty());
}

/// Bitwise or is the union of the positions.
pub proof fn lemma_positions_of_or(a: u32, b: u32)
    ensures
        positions(a | b) == positions(a).union(positions(b)),
{
    assert forall|i: nat| has_bit(a | b, i) == (has_bit(a, i) || has_bit(b, i)) by {
        if i < 32 {
            lemma_bit_of_or(a, b, i as u32);
        }
    }
    assert(positions(a | b) =~= positions(a).union(positions(b)));
}

/// Bitwise and is the intersection of the positions.
pub proof fn lemma_positions_of_and(a: u32, b: u32)
    ensures
        positions(a & b) == positions(a).intersect(positions(b)),
{
    assert forall|i: nat| has_bit(a & b, i) == (has_bit(a, i) && has_bit(b, i)) by {
        if i < 32 {
            lemma_bit_of_and(a, b, i as u32);
        }
    }
    assert(positions(a & b) =~= positions(a).intersect(positions(b)));
}

/// Masking out `b` removes its positions.
pub proof fn lemma_positions_of_and_not(a: u32, b: u32)
    ensures
        positions(a & !b) == positions(a).difference(positions(b)),
{
    assert forall|i: nat| has_bit(a & !b, i) == (has_bit(a, i) && !has_bit(b, i)) by {
        if i < 32 {
            lemma_bit_of_and_not(a, b, i as u32);
        }
    }
    assert(positions(a & !b) =~= positions(a).difference(positions(b)));
}

/// The word with a single one at position `k` stands for the set that holds `k` alone.
pub proof fn lemma_positions_of_single(k: nat)
    requires
        k < 32,
    ensures
        positions(1u32 << (k as u32)) == set![k],
{
    let x: u32 = 1u32 << (k as u32);
    assert forall|i: nat| has_bit(x, i) == (i == k) by {
        if i < 32 {
            lemma_bit_of_shifted_one(k as u32, i as u32);
        }
    }
    assert(positions(x) =~= set![k]);
}

/// The word with ones at the `n` lowest positions stands for the positions below `n`.
pub proof fn lemma_positions_of_low_mask(n: nat)
    requires
        n < 32,
    ensures
        positions(((1u32 << (n as u32)) - 1) as u32) == below(n),
{
    let x: u32 = ((1u32 << (n as u32)) - 1) as u32;
    assert forall|i: nat| has_bit(x, i) == (i < n) by {
        if i < 32 {
            lemma_bit_of_low_mask(n as u32, i as u32);
        }
    }
    assert(positions(x) =~= below(n));
}

/// Two words with the same positions are the same word.
pub proof fn lemma_positions_injective(a: u32, b: u32)
    requires
        positions(a) == positions(b),
    ensures
        a == b,
{
    assert forall|i: nat| has_bit(a, i) == has_bit(b, i) by {
        assert(positions(a).contains(i) == has_bit(a, i));
        assert(positions(b).contains(i) == has_bit(b, i));
    }
    lemma_agree_from(a, b, 0);
    assert(a >> 0u32 == a) by (bit_vector);
    assert(b >> 0u32 == b) by (bit_vector);
}

/// `a & b == b` says that every position of `b` is one of `a`.
pub proof fn lemma_positions_subset(a: u32, b: u32)
    ensures
        (a & b == b) <==> positions(b).subset_of(positions(a)),
{
    lemma_positions_of_and(a, b);
    if a & b == b {
        assert(positions(b).subset_of(positions(a)));
    }
    if positions(b).subset_of(positions(a)) {
        assert(positions(a & b) =~= positions(b));
        lemma_positions_injective(a & b, b);
    }
}

/// A word is zero exactly when it has no position.
pub proof fn lemma_positions_empty_iff_zero(a: u32)
    ensures
        (a == 0) <==> positions(a) == Set::<nat>::empty(),
{
    lemma_positions_of_zero();
    if positions(a) == Set::<nat>::empty() {
        lemma_positions_injective(a, 0);
    }
}

/// The positions of a word all lie below 32.
pub proof fn lemma_positions_bounded(a: u32)
    ensures
        positions(a).subset_of(below(32)),
{
}

/// `bits` has no one outside `mask` exactly when its positions are among those of `mask`.
pub proof fn lemma_positions_within(bits: u32, mask: u32)
    ensures
        (bits & !mask == 0) <==> positions(bits).subset_of(positions(mask)),
{
    lemma_positions_of_and_not(bits, mask);
    lemma_positions_empty_iff_zero(bits & !mask);
    if positions(bits).subset_of(positions(mask)) {
        assert(positions(bits).difference(positions(mask)) =~= Set::<nat>::empty());
    }
    if bits & !mask == 0 {
        assert forall|i: nat| positions(bits).contains(i) implies positions(mask).contains(i) by {
            assert(!positions(bits).difference(positions(mask)).contains(i));
        }
    }
}

/// Two words share a one exactly when their positions are not disjoint.
pub proof fn lemma_positions_overlap(a: u32, b: u32)
    ensures
        (a & b != 0) <==> !positions(a).disjoint(positions(b)),
{
    lemma_positions_of_and(a, b);
    lemma_positions_empty_iff_zero(a & b);
    if positions(a).disjoint(positions(b)) {
        assert(positions(a).intersect(positions(b)) =~= Set::<nat>::empty());
    }
    if a & b == 0 {
        assert forall|i: nat| positions(a).contains(i) implies !positions(b).contains(i) by {
            assert(!positions(a).intersect(positions(b)).contains(i));
        }
    }
}

/// The value of each word that has a single one.
proof fn lemma_single_bits()
    by (bit_vector)
    ensures
        1u32 << 0 == 0x1,
        1u32 << 1 == 0x2,
        1u32 << 2 == 0x4,
        1u32 << 3 == 0x8,
        1u32 << 4 == 0x10,
        1u32 << 5 == 0x20,
        1u32 << 6 == 0x40,
        1u32 << 7 == 0x80,
        1u32 << 8 == 0x100,
        1u32 << 9 == 0x200,
        1u32 << 10 == 0x400,
        1u32 << 11 == 0x800,
        1u32 << 12 == 0x1000,
        1u32 << 13 == 0x2000,
        1u32 << 14 == 0x4000,
        1u32 << 15 == 0x8000,
        1u32 << 16 == 0x10000,
        1u32 << 17 == 0x20000,
        1u32 << 18 == 0x40000,
        1u32 << 19 == 0x80000,
        1u32 << 20 == 0x100000,
        1u32 << 21 == 0x200000,
        1u32 << 22 == 0x400000,
        1u32 << 23 == 0x800000,
        1u32 << 24 == 0x1000000,
        1u32 << 25 == 0x2000000,
        1u32 << 26 == 0x4000000,
        1u32 << 27 == 0x8000000,
        1u32 << 28 == 0x10000000,
        1u32 << 29 == 0x20000000,
        1u32 << 30 == 0x40000000,
        1u32 << 31 == 0x80000000,
{
}

/// Each word with a single one stands for the set that holds its position alone.
pub proof fn lemma_positions_of_flags()
    ensures
        positions(0x1) == set![0nat],
        positions(0x2) == set![1nat],
        positions(0x4) == set![2nat],
        positions(0x8) == set![3nat],
        positions(0x10) == set![4nat],
        positions(0x20) == set![5nat],
        positions(0x40) == set![6nat],
        positions(0x80) == set![7nat],
        positions(0x100) == set![8nat],
        positions(0x200) == set![9nat],
        positions(0x400) == set![10nat],
        positions(0x800) == set![11nat],
        positions(0x1000) == set![12nat],
        positions(0x2000) == set![13nat],
        positions(0x4000) == set![14nat],
        positions(0x8000) == set![15nat],
        positions(0x10000) == set![16nat],
        positions(0x20000) == set![17nat],
        positions(0x40000) == set![18nat],
        positions(0x80000) == set![19nat],
        positions(0x100000) == set![20nat],
        positions(0x200000) == set![21nat],
        positions(0x400000) == set![22nat],
        positions(0x800000) == set![23nat],
        positions(0x1000000) == set![24nat],
        positions(0x2000000) == set![25nat],
        positions(0x4000000) == set![26nat],
        positions(0x8000000) == set![27nat],
        positions(0x10000000) == set![28nat],
        positions(0x20000000) == set![29nat],
        positions(0x40000000) == set![30nat],
        positions(0x80000000) == set![31nat],
{
    lemma_single_bits();
    lemma_positions_of_single(0);
    lemma_positions_of_single(1);
    lemma_positions_of_single(2);
    lemma_positions_of_single(3);
    lemma_positions_of_single(4);
    lemma_positions_of_single(5);
    lemma_positions_of_single(6);
    lemma_positions_of_single(7);
    lemma_positions_of_single(8);
    lemma_positions_of_single(9);
    lemma_positions_of_single(10);
    lemma_positions_of_single(11);
    lemma_positions_of_single(12);
    lemma_positions_of_single(13);
    lemma_positions_of_single(14);
    lemma_positions_of_single(15);
    lemma_positions_of_single(16);
    lemma_positions_of_single(17);
    lemma_positions_of_single(18);
    lemma_positions_of_single(19);
    lemma_positions_of_single(20);
    lemma_positions_of_single(21);
    lemma_positions_of_single(22);
    lemma_positions_of_single(23);
    lemma_positions_of_single(24);
    lemma_positions_of_single(25);
    lemma_positions_of_single(26);
    lemma_positions_of_single(27);
    lemma_positions_of_single(28);
    lemma_positions_of_single(29);
    lemma_positions_of_single(30);
    lemma_positions_of_single(31);
}

/// A set that holds exactly one position: what a single flag stands for.
pub open spec fn is_single(s: Set<nat>) -> bool {
    exists|k: nat| s == set![k]
}

/// A single flag lies in a union exactly when it lies in one of the two sets.
pub proof fn lemma_single_in_union(a: Set<nat>, b: Set<nat>, f: Set<nat>)
    requires
        is_single(f),
    ensures
        f.subset_of(a.union(b)) <==> (f.subset_of(a) || f.subset_of(b)),
{
    let k = choose|k: nat| f == set![k];
    assert(f.contains(k));
    if a.union(b).contains(k) {
        if a.contains(k) {
            assert(f.subset_of(a));
        } else {
            assert(f.subset_of(b));
        }
    }
}

/// No single flag lies in the empty set.
pub proof fn lemma_single_not_in_empty(f: Set<nat>)
    requires
        is_single(f),
    ensures
        !f.subset_of(Set::<nat>::empty()),
{
    let k = choose|k: nat| f == set![k];
    assert(f.contains(k));
}

} // verus!
