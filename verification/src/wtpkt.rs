//! The set of the data items that an event packet can hold.
use crate::bits::{
    below, is_single, lemma_positions_empty_iff_zero, lemma_positions_injective,
    lemma_positions_of_and, lemma_positions_of_and_not, lemma_positions_of_flags,
    lemma_positions_of_low_mask, lemma_positions_of_or, lemma_positions_of_zero,
    lemma_positions_overlap, lemma_positions_subset, lemma_positions_within,
    lemma_single_in_union, lemma_single_not_in_empty, positions,
};
use vstd::prelude::*;

verus! {

/// The data items of an event packet, as a set: which of them a context asks
/// for, which it reports relative to the packet before, which have changed. A
/// set may also hold items of an extension, which have no name here.
#[derive(Clone, Copy, Debug, PartialEq, Eq, Structural)]
pub struct WTPKT {
    bits: u32,
}

impl View for WTPKT {
    type V = Set<nat>;

    /// The positions of the bits that are one.
    open spec fn view(&self) -> Set<nat> {
        positions(self.spec_bits())
    }
}

impl WTPKT {
    /// The word that backs the set.
    pub closed spec fn spec_bits(&self) -> u32 {
        self.bits
    }

    /// The positions of the data items that have a name.
    pub open spec fn defined() -> Set<nat> {
        below(14)
    }

    /// The word with a one for each named flag stands for the named positions.
    proof fn lemma_all_bits()
        ensures
            positions(0x3FFF) == Self::defined(),
    {
        lemma_positions_of_low_mask(14);
        assert(((1u32 << 14u32) - 1) as u32 == 0x3FFF) by (bit_vector);
    }

    /// Two sets with the same positions are the same set.
    pub proof fn lemma_same_view(a: WTPKT, b: WTPKT)
        requires
            a@ == b@,
        ensures
            a == b,
    {
        lemma_positions_injective(a.bits, b.bits);
    }

    /// Two sets backed by the same word are the same set.
    pub proof fn lemma_same_bits(a: WTPKT, b: WTPKT)
        requires
            a.bits() == b.bits(),
        ensures
            a == b,
    {
    }

    /// A single flag lies in the union of two sets exactly when it lies in
    /// one of them, and it never lies in the empty set.
    pub proof fn lemma_single_flag(a: WTPKT, b: WTPKT, f: WTPKT)
        requires
            is_single(f@),
        ensures
            f@.subset_of(a@.union(b@)) <==> (f@.subset_of(a@) || f@.subset_of(b@)),
            !f@.subset_of(Set::<nat>::empty()),
    {
        lemma_single_in_union(a@, b@, f@);
        lemma_single_not_in_empty(f@);
    }

    /// The set without any flag.
    pub fn empty() -> (r: WTPKT)
        ensures
            r.bits() == 0,
            r@ == Set::<nat>::empty(),
    {
        proof {
            lemma_positions_of_zero();
        }
        WTPKT { bits: 0 }
    }

    /// The set of every named flag, and of nothing else.
    pub fn all() -> (r: WTPKT)
        ensures
            r.bits() == 0x3FFF,
            r@ == Self::defined(),
    {
        proof {
            Self::lemma_all_bits();
        }
        WTPKT { bits: 0x3FFF }
    }

    /// The word that backs the set, as it is handed to the driver.
    #[verifier::when_used_as_spec(spec_bits)]
    pub fn bits(&self) -> (r: u32)
        ensures
            r == self.bits(),
    {
        self.bits
    }

    /// The set that `bits` stands for, unless `bits` has a one where no flag
    /// has a name.
    pub fn from_bits(bits: u32) -> (r: Option<WTPKT>)
        ensures
            r is Some <==> positions(bits).subset_of(Self::defined()),
            r matches Some(set) ==> set.bits() == bits,
    {
        proof {
            Self::lemma_all_bits();
            lemma_positions_within(bits, 0x3FFF);
        }
        if bits & !0x3FFF == 0 {
            Some(WTPKT { bits })
        } else {
            None
        }
    }

    /// The named flags among the ones of `bits`; the other ones are dropped.
    pub fn from_bits_truncate(bits: u32) -> (r: WTPKT)
        ensures
            r.bits() == bits & 0x3FFF,
            r@ == positions(bits).intersect(Self::defined()),
    {
        proof {
            Self::lemma_all_bits();
            lemma_positions_of_and(bits, 0x3FFF);
        }
        WTPKT { bits: bits & 0x3FFF }
    }

    /// The set that `bits` stands for, with every one kept, named or not.
    pub fn from_bits_retain(bits: u32) -> (r: WTPKT)
        ensures
            r.bits() == bits,
    {
        WTPKT { bits }
    }

    /// True when the set holds nothing.
    pub fn is_empty(&self) -> (r: bool)
        ensures
            r == (self@ == Set::<nat>::empty()),
            r == (self.bits() == 0),
    {
        proof {
            lemma_positions_empty_iff_zero(self.bits);
        }
        self.bits == 0
    }

    /// True when the set holds every named flag.
    pub fn is_all(&self) -> (r: bool)
        ensures
            r == Self::defined().subset_of(self@),
    {
        proof {
            Self::lemma_all_bits();
            lemma_positions_subset(self.bits, 0x3FFF);
        }
        self.bits & 0x3FFF == 0x3FFF
    }

    /// True when the set holds everything that `other` holds.
    pub fn contains(&self, other: WTPKT) -> (r: bool)
        ensures
            r == other@.subset_of(self@),
    {
        proof {
            lemma_positions_subset(self.bits, other.bits);
        }
        self.bits & other.bits == other.bits
    }

    /// True when the set and `other` have something in common.
    pub fn intersects(&self, other: WTPKT) -> (r: bool)
        ensures
            r == !self@.disjoint(other@),
    {
        proof {
            lemma_positions_overlap(self.bits, other.bits);
        }
        self.bits & other.bits != 0
    }

    /// What is in the set or in `other`.
    pub fn union(self, other: WTPKT) -> (r: WTPKT)
        ensures
            r@ == self@.union(other@),
            r.bits() == self.bits() | other.bits(),
    {
        proof {
            lemma_positions_of_or(self.bits, other.bits);
        }
        WTPKT { bits: self.bits | other.bits }
    }

    /// What is in the set and in `other`.
    pub fn intersection(self, other: WTPKT) -> (r: WTPKT)
        ensures
            r@ == self@.intersect(other@),
            r.bits() == self.bits() & other.bits(),
    {
        proof {
            lemma_positions_of_and(self.bits, other.bits);
        }
        WTPKT { bits: self.bits & other.bits }
    }

    /// What is in the set and not in `other`.
    pub fn difference(self, other: WTPKT) -> (r: WTPKT)
        ensures
            r@ == self@.difference(other@),
            r.bits() == self.bits() & !other.bits(),
    {
        proof {
            lemma_positions_of_and_not(self.bits, other.bits);
        }
        WTPKT { bits: self.bits & !other.bits }
    }

    /// The named flags that are not in the set.
    pub fn complement(self) -> (r: WTPKT)
        ensures
            r@ == Self::defined().difference(self@),
            r.bits() == 0x3FFF & !self.bits(),
    {
        proof {
            Self::lemma_all_bits();
            lemma_positions_of_and_not(0x3FFF, self.bits);
        }
        WTPKT { bits: 0x3FFF & !self.bits }
    }

    /// Adds what `other` holds to the set.
    pub fn insert(&mut self, other: WTPKT)
        ensures
            final(self)@ == old(self)@.union(other@),
            final(self).bits() == old(self).bits() | other.bits(),
    {
        proof {
            lemma_positions_of_or(self.bits, other.bits);
        }
        self.bits = self.bits | other.bits;
    }

    /// Takes what `other` holds out of the set.
    pub fn remove(&mut self, other: WTPKT)
        ensures
            final(self)@ == old(self)@.difference(other@),
            final(self).bits() == old(self).bits() & !other.bits(),
    {
        proof {
            lemma_positions_of_and_not(self.bits, other.bits);
        }
        self.bits = self.bits & !other.bits;
    }

    /// The handle of the reporting context.
    #[allow(non_snake_case)]
    pub fn CONTEXT() -> (r: WTPKT)
        ensures
            r.bits() == 0x1,
            r@ == set![0nat],
            r@.subset_of(Self::defined()),
    {
        proof {
            lemma_positions_of_flags();
        }
        WTPKT { bits: 0x1 }
    }

    /// Status information.
    #[allow(non_snake_case)]
    pub fn STATUS() -> (r: WTPKT)
        ensures
            r.bits() == 0x2,
            r@ == set![1nat],
            r@.subset_of(Self::defined()),
    {
        proof {
            lemma_positions_of_flags();
        }
        WTPKT { bits: 0x2 }
    }

    /// The time at which the packet was generated.
    #[allow(non_snake_case)]
    pub fn TIME() -> (r: WTPKT)
        ensures
            r.bits() == 0x4,
            r@ == set![2nat],
            r@.subset_of(Self::defined()),
    {
        proof {
            lemma_positions_of_flags();
        }
        WTPKT { bits: 0x4 }
    }

    /// Which of the data items have changed since the packet before.
    #[allow(non_snake_case)]
    pub fn CHANGED() -> (r: WTPKT)
        ensures
            r.bits() == 0x8,
            r@ == set![3nat],
            r@.subset_of(Self::defined()),
    {
        proof {
            lemma_positions_of_flags();
        }
        WTPKT { bits: 0x8 }
    }

    /// The serial number of the packet.
    #[allow(non_snake_case)]
    pub fn SERIAL_NUMBER() -> (r: WTPKT)
        ensures
            r.bits() == 0x10,
            r@ == set![4nat],
            r@.subset_of(Self::defined()),
    {
        proof {
            lemma_positions_of_flags();
        }
        WTPKT { bits: 0x10 }
    }

    /// The cursor that generated the packet.
    #[allow(non_snake_case)]
    pub fn CURSOR() -> (r: WTPKT)
        ensures
            r.bits() == 0x20,
            r@ == set![5nat],
            r@.subset_of(Self::defined()),
    {
        proof {
            lemma_positions_of_flags();
        }
        WTPKT { bits: 0x20 }
    }

    /// Button information: the buttons that are pressed.
    #[allow(non_snake_case)]
    pub fn BUTTONS() -> (r: WTPKT)
        ensures
            r.bits() == 0x40,
            r@ == set![6nat],
            r@.subset_of(Self::defined()),
    {
        proof {
            lemma_positions_of_flags();
        }
        WTPKT { bits: 0x40 }
    }

    /// The pen's position on the x axis.
    #[allow(non_snake_case)]
    pub fn X() -> (r: WTPKT)
        ensures
            r.bits() == 0x80,
            r@ == set![7nat],
            r@.subset_of(Self::defined()),
    {
        proof {
            lemma_positions_of_flags();
        }
        WTPKT { bits: 0x80 }
    }

    /// The pen's position on the y axis.
    #[allow(non_snake_case)]
    pub fn Y() -> (r: WTPKT)
        ensures
            r.bits() == 0x100,
            r@ == set![8nat],
            r@.subset_of(Self::defined()),
    {
        proof {
            lemma_positions_of_flags();
        }
        WTPKT { bits: 0x100 }
    }

    /// The pen's position on the z axis.
    #[allow(non_snake_case)]
    pub fn Z() -> (r: WTPKT)
        ensures
            r.bits() == 0x200,
            r@ == set![9nat],
            r@.subset_of(Self::defined()),
    {
        proof {
            lemma_positions_of_flags();
        }
        WTPKT { bits: 0x200 }
    }

    /// The pressure of the tip button, or normal to the surface.
    #[allow(non_snake_case)]
    pub fn NORMAL_PRESSURE() -> (r: WTPKT)
        ensures
            r.bits() == 0x400,
            r@ == set![10nat],
            r@.subset_of(Self::defined()),
    {
        proof {
            lemma_positions_of_flags();
        }
        WTPKT { bits: 0x400 }
    }

    /// The pressure of the barrel button, or tangent to the surface.
    #[allow(non_snake_case)]
    pub fn TANGENT_PRESSURE() -> (r: WTPKT)
        ensures
            r.bits() == 0x800,
            r@ == set![11nat],
            r@.subset_of(Self::defined()),
    {
        proof {
            lemma_positions_of_flags();
        }
        WTPKT { bits: 0x800 }
    }

    /// The orientation of the cursor.
    #[allow(non_snake_case)]
    pub fn ORIENTATION() -> (r: WTPKT)
        ensures
            r.bits() == 0x1000,
            r@ == set![12nat],
            r@.subset_of(Self::defined()),
    {
        proof {
            lemma_positions_of_flags();
        }
        WTPKT { bits: 0x1000 }
    }

    /// The rotation of the cursor.
    #[allow(non_snake_case)]
    pub fn ROTATION() -> (r: WTPKT)
        ensures
            r.bits() == 0x2000,
            r@ == set![13nat],
            r@.subset_of(Self::defined()),
    {
        proof {
            lemma_positions_of_flags();
        }
        WTPKT { bits: 0x2000 }
    }
}

impl Default for WTPKT {
    /// The set without any flag.
    fn default() -> (r: WTPKT)
        ensures
            r.bits() == 0,
            r@ == Set::<nat>::empty(),
    {
        WTPKT::empty()
    }
}

} // verus!
