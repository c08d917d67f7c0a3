//! Points with two and with three coordinates.
use crate::c_type_aliases::{lemma_fix32_same_raw, FIX32};
use crate::wire::{
    le32, le32_signed, lemma_from_le32_round_trip, lemma_from_le32_signed_round_trip,
    lemma_le32_round_trip, lemma_le32_signed_round_trip, push_i32, push_u32, read_i32, read_u32,
};
use vstd::prelude::*;

verus! {

/// A point, an extent or a factor in three dimensions.
#[derive(Clone, Copy, Debug, PartialEq, Eq)]
pub struct XYZ<T> {
    pub x: T,
    pub y: T,
    pub z: T,
}

/// A point, an extent or a factor in two dimensions.
#[derive(Clone, Copy, Debug, PartialEq, Eq)]
pub struct XY<T> {
    pub x: T,
    pub y: T,
}

impl<T: Default> Default for XYZ<T> {
    /// Each coordinate is the default of its type.
    fn default() -> (r: XYZ<T>)
        ensures
            call_ensures(T::default, (), r.x),
            call_ensures(T::default, (), r.y),
            call_ensures(T::default, (), r.z),
    {
        XYZ { x: T::default(), y: T::default(), z: T::default() }
    }
}

impl<T: Default> Default for XY<T> {
    /// Each coordinate is the default of its type.
    fn default() -> (r: XY<T>)
        ensures
            call_ensures(T::default, (), r.x),
            call_ensures(T::default, (), r.y),
    {
        XY { x: T::default(), y: T::default() }
    }
}

impl XYZ<i32> {
    /// The number of bytes that the driver reads and writes for the point.
    pub const SIZE: usize = 12;

    /// The bytes that the driver reads and writes for the point: `x`, `y` and
    /// `z`, four bytes each.
    pub open spec fn wire(self) -> Seq<u8> {
        le32_signed(self.x) + le32_signed(self.y) + le32_signed(self.z)
    }

    /// Where each coordinate stands among the bytes.
    pub proof fn lemma_layout(self)
        ensures
            self.wire().len() == 12,
            self.wire().subrange(0, 4) == le32_signed(self.x),
            self.wire().subrange(4, 8) == le32_signed(self.y),
            self.wire().subrange(8, 12) == le32_signed(self.z),
    {
        assert(self.wire().subrange(0, 4) =~= le32_signed(self.x));
        assert(self.wire().subrange(4, 8) =~= le32_signed(self.y));
        assert(self.wire().subrange(8, 12) =~= le32_signed(self.z));
    }

    /// Two points with the same bytes are the same point.
    pub proof fn lemma_wire_injective(a: XYZ<i32>, b: XYZ<i32>)
        requires
            a.wire() == b.wire(),
        ensures
            a == b,
    {
        a.lemma_layout();
        b.lemma_layout();
        lemma_le32_signed_round_trip(a.x);
        lemma_le32_signed_round_trip(a.y);
        lemma_le32_signed_round_trip(a.z);
        lemma_le32_signed_round_trip(b.x);
        lemma_le32_signed_round_trip(b.y);
        lemma_le32_signed_round_trip(b.z);
    }

    /// Appends the bytes of the point to `out`.
    pub fn write_to(&self, out: &mut Vec<u8>)
        ensures
            final(out)@ == old(out)@ + self.wire(),
    {
        let ghost before = out@;
        push_i32(out, self.x);
        push_i32(out, self.y);
        push_i32(out, self.z);
        assert(out@ =~= before + self.wire());
    }

    /// The point whose bytes stand at `at` in `bytes`.
    pub fn read_at(bytes: &[u8], at: usize) -> (r: XYZ<i32>)
        requires
            at + 12 <= bytes.len(),
        ensures
            r.wire() == bytes@.subrange(at as int, at + 12),
    {
        let r = XYZ {
            x: read_i32(bytes, at),
            y: read_i32(bytes, at + 4),
            z: read_i32(bytes, at + 8),
        };
        proof {
            lemma_from_le32_signed_round_trip(bytes@.subrange(at as int, at + 4));
            lemma_from_le32_signed_round_trip(bytes@.subrange(at + 4, at + 8));
            lemma_from_le32_signed_round_trip(bytes@.subrange(at + 8, at + 12));
            assert(r.wire() =~= bytes@.subrange(at as int, at + 12));
        }
        r
    }
}

impl XYZ<FIX32> {
    /// The number of bytes that the driver reads and writes for the triple.
    pub const SIZE: usize = 12;

    /// The bytes that the driver reads and writes for the triple: `x`, `y`
    /// and `z`, four bytes each.
    pub open spec fn wire(self) -> Seq<u8> {
        le32(self.x.raw()) + le32(self.y.raw()) + le32(self.z.raw())
    }

    /// Where each factor stands among the bytes.
    pub proof fn lemma_layout(self)
        ensures
            self.wire().len() == 12,
            self.wire().subrange(0, 4) == le32(self.x.raw()),
            self.wire().subrange(4, 8) == le32(self.y.raw()),
            self.wire().subrange(8, 12) == le32(self.z.raw()),
    {
        assert(self.wire().subrange(0, 4) =~= le32(self.x.raw()));
        assert(self.wire().subrange(4, 8) =~= le32(self.y.raw()));
        assert(self.wire().subrange(8, 12) =~= le32(self.z.raw()));
    }

    /// Two triples with the same bytes are the same triple.
    pub proof fn lemma_wire_injective(a: XYZ<FIX32>, b: XYZ<FIX32>)
        requires
            a.wire() == b.wire(),
        ensures
            a == b,
    {
        a.lemma_layout();
        b.lemma_layout();
        lemma_le32_round_trip(a.x.raw());
        lemma_le32_round_trip(a.y.raw());
        lemma_le32_round_trip(a.z.raw());
        lemma_le32_round_trip(b.x.raw());
        lemma_le32_round_trip(b.y.raw());
        lemma_le32_round_trip(b.z.raw());
        lemma_fix32_same_raw(a.x, b.x);
        lemma_fix32_same_raw(a.y, b.y);
        lemma_fix32_same_raw(a.z, b.z);
    }

    /// Appends the bytes of the triple to `out`.
    pub fn write_to(&self, out: &mut Vec<u8>)
        ensures
            final(out)@ == old(out)@ + self.wire(),
    {
        let ghost before = out@;
        push_u32(out, self.x.raw());
        push_u32(out, self.y.raw());
        push_u32(out, self.z.raw());
        assert(out@ =~= before + self.wire());
    }

    /// The triple whose bytes stand at `at` in `bytes`.
    pub fn read_at(bytes: &[u8], at: usize) -> (r: XYZ<FIX32>)
        requires
            at + 12 <= bytes.len(),
        ensures
            r.wire() == bytes@.subrange(at as int, at + 12),
    {
        let r = XYZ {
            x: FIX32::new(read_u32(bytes, at)),
            y: FIX32::new(read_u32(bytes, at + 4)),
            z: FIX32::new(read_u32(bytes, at + 8)),
        };
        proof {
            lemma_from_le32_round_trip(bytes@.subrange(at as int, at + 4));
            lemma_from_le32_round_trip(bytes@.subrange(at + 4, at + 8));
            lemma_from_le32_round_trip(bytes@.subrange(at + 8, at + 12));
            assert(r.wire() =~= bytes@.subrange(at as int, at + 12));
        }
        r
    }
}

impl XY<i32> {
    /// The number of bytes that the driver reads and writes for the point.
    pub const SIZE: usize = 8;

    /// The bytes that the driver reads and writes for the point: `x` and
    /// `y`, four bytes each.
    pub open spec fn wire(self) -> Seq<u8> {
        le32_signed(self.x) + le32_signed(self.y)
    }

    /// Where each coordinate stands among the bytes.
    pub proof fn lemma_layout(self)
        ensures
            self.wire().len() == 8,
            self.wire().subrange(0, 4) == le32_signed(self.x),
            self.wire().subrange(4, 8) == le32_signed(self.y),
    {
        assert(self.wire().subrange(0, 4) =~= le32_signed(self.x));
        assert(self.wire().subrange(4, 8) =~= le32_signed(self.y));
    }

    /// Two points with the same bytes are the same point.
    pub proof fn lemma_wire_injective(a: XY<i32>, b: XY<i32>)
        requires
            a.wire() == b.wire(),
        ensures
            a == b,
    {
        a.lemma_layout();
        b.lemma_layout();
        lemma_le32_signed_round_trip(a.x);
        lemma_le32_signed_round_trip(a.y);
        lemma_le32_signed_round_trip(b.x);
        lemma_le32_signed_round_trip(b.y);
    }

    /// Appends the bytes of the point to `out`.
    pub fn write_to(&self, out: &mut Vec<u8>)
        ensures
            final(out)@ == old(out)@ + self.wire(),
    {
        let ghost before = out@;
        push_i32(out, self.x);
        push_i32(out, self.y);
        assert(out@ =~= before + self.wire());
    }

    /// The point whose bytes stand at `at` in `bytes`.
    pub fn read_at(bytes: &[u8], at: usize) -> (r: XY<i32>)
        requires
            at + 8 <= bytes.len(),
        ensures
            r.wire() == bytes@.subrange(at as int, at + 8),
    {
        let r = XY { x: read_i32(bytes, at), y: read_i32(bytes, at + 4) };
        proof {
            lemma_from_le32_signed_round_trip(bytes@.subrange(at as int, at + 4));
            lemma_from_le32_signed_round_trip(bytes@.subrange(at + 4, at + 8));
            assert(r.wire() =~= bytes@.subrange(at as int, at + 8));
        }
        r
    }
}

impl XY<FIX32> {
    /// The number of bytes that the driver reads and writes for the pair.
    pub const SIZE: usize = 8;

    /// The bytes that the driver reads and writes for the pair: `x` and `y`,
    /// four bytes each.
    pub open spec fn wire(self) -> Seq<u8> {
        le32(self.x.raw()) + le32(self.y.raw())
    }

    /// Where each factor stands among the bytes.
    pub proof fn lemma_layout(self)
        ensures
            self.wire().len() == 8,
            self.wire().subrange(0, 4) == le32(self.x.raw()),
            self.wire().subrange(4, 8) == le32(self.y.raw()),
    {
        assert(self.wire().subrange(0, 4) =~= le32(self.x.raw()));
        assert(self.wire().subrange(4, 8) =~= le32(self.y.raw()));
    }

    /// Two pairs with the same bytes are the same pair.
    pub proof fn lemma_wire_injective(a: XY<FIX32>, b: XY<FIX32>)
        requires
            a.wire() == b.wire(),
        ensures
            a == b,
    {
        a.lemma_layout();
        b.lemma_layout();
        lemma_le32_round_trip(a.x.raw());
        lemma_le32_round_trip(a.y.raw());
        lemma_le32_round_trip(b.x.raw());
        lemma_le32_round_trip(b.y.raw());
        lemma_fix32_same_raw(a.x, b.x);
        lemma_fix32_same_raw(a.y, b.y);
    }

    /// Appends the bytes of the pair to `out`.
    pub fn write_to(&self, out: &mut Vec<u8>)
        ensures
            final(out)@ == old(out)@ + self.wire(),
    {
        let ghost before = out@;
        push_u32(out, self.x.raw());
        push_u32(out, self.y.raw());
        assert(out@ =~= before + self.wire());
    }

    /// The pair whose bytes stand at `at` in `bytes`.
    pub fn read_at(bytes: &[u8], at: usize) -> (r: XY<FIX32>)
        requires
            at + 8 <= bytes.len(),
        ensures
            r.wire() == bytes@.subrange(at as int, at + 8),
    {
        let r = XY {
            x: FIX32::new(read_u32(bytes, at)),
            y: FIX32::new(read_u32(bytes, at + 4)),
        };
        proof {
            lemma_from_le32_round_trip(bytes@.subrange(at as int, at + 4));
            lemma_from_le32_round_trip(bytes@.subrange(at + 4, at + 8));
            assert(r.wire() =~= bytes@.subrange(at as int, at + 8));
        }
        r
    }
}

} // verus!
