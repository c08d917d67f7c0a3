//! Range and resolution of one measured quantity.
use crate::c_type_aliases::{lemma_fix32_same_raw, FIX32, LONG};
use crate::layout::{align_of, end_of, lay_out, offset_of, size_of, FieldShape, RecordShape};
use crate::wire::{
    from_le32, le32, le32_signed, lemma_from_le32_round_trip, lemma_from_le32_signed_round_trip,
    lemma_le32_round_trip, lemma_le32_signed_round_trip, push_i32, push_u32, read_i32, read_u32,
};
use vstd::prelude::*;

verus! {

/// The physical unit in which a resolution is given.
#[derive(Clone, Copy, Debug, PartialEq, Eq, Structural)]
pub enum TU {
    /// No resolution in physical units is given.
    NONE,
    /// The resolution is given in inches.
    INCHES,
    /// The resolution is given in centimetres.
    CENTIMETERS,
    /// The resolution is given in full turns of arc: an item that counts
    /// degrees has the resolution 360.
    CIRCLE,
}

impl TU {
    /// The number that the driver knows each unit by.
    pub open spec fn spec_code(self) -> u32 {
        match self {
            TU::NONE => 0,
            TU::INCHES => 1,
            TU::CENTIMETERS => 2,
            TU::CIRCLE => 3,
        }
    }

    /// The number that the driver knows this unit by.
    #[verifier::when_used_as_spec(spec_code)]
    pub fn code(self) -> (r: u32)
        ensures
            r == self.code(),
    {
        match self {
            TU::NONE => 0,
            TU::INCHES => 1,
            TU::CENTIMETERS => 2,
            TU::CIRCLE => 3,
        }
    }

    /// The unit that the driver knows by `code`, if there is one.
    pub fn from_code(code: u32) -> (r: Option<TU>)
        ensures
            match r {
                Some(found) => found.code() == code,
                None => forall|other: TU| other.code() != code,
            },
    {
        match code {
            0 => Some(TU::NONE),
            1 => Some(TU::INCHES),
            2 => Some(TU::CENTIMETERS),
            3 => Some(TU::CIRCLE),
            _ => None,
        }
    }

    /// No two of them share a number.
    pub proof fn lemma_code_injective(a: TU, b: TU)
        requires
            a.code() == b.code(),
        ensures
            a == b,
    {
    }
}

impl Default for TU {
    /// `NONE`.
    fn default() -> (r: TU)
        ensures
            r == TU::NONE,
    {
        TU::NONE
    }
}

/// The range and the resolution of one data item of a packet: an axis, a
/// pressure, an angle. The driver fills it in; a caller only makes one for
/// the driver to write to.
#[allow(non_snake_case)]
#[derive(Clone, Copy, Debug, PartialEq, Eq, Structural)]
pub struct AXIS {
    /// The least value of the data item, in the tablet's own coordinates.
    pub axMin: LONG,
    /// The greatest value of the data item, in the tablet's own coordinates.
    pub axMax: LONG,
    /// The unit in which the resolution is given.
    pub axUnits: TU,
    /// The number of steps of the data item in one physical unit.
    pub axResolution: FIX32,
}

impl AXIS {
    /// The number of bytes that the driver writes for an axis.
    pub const SIZE: usize = 16;

    /// The bytes that the driver writes for an axis: least value, greatest
    /// value, unit and resolution, four bytes each.
    pub open spec fn wire(self) -> Seq<u8> {
        le32_signed(self.axMin) + le32_signed(self.axMax) + le32(self.axUnits.code()) + le32(
            self.axResolution.raw(),
        )
    }

    /// Where each field stands among the bytes.
    pub proof fn lemma_layout(self)
        ensures
            self.wire().len() == 16,
            self.wire().subrange(0, 4) == le32_signed(self.axMin),
            self.wire().subrange(4, 8) == le32_signed(self.axMax),
            self.wire().subrange(8, 12) == le32(self.axUnits.code()),
            self.wire().subrange(12, 16) == le32(self.axResolution.raw()),
    {
        assert(self.wire().subrange(0, 4) =~= le32_signed(self.axMin));
        assert(self.wire().subrange(4, 8) =~= le32_signed(self.axMax));
        assert(self.wire().subrange(8, 12) =~= le32(self.axUnits.code()));
        assert(self.wire().subrange(12, 16) =~= le32(self.axResolution.raw()));
    }

    /// Two axes with the same bytes are the same axis.
    pub proof fn lemma_wire_injective(a: AXIS, b: AXIS)
        requires
            a.wire() == b.wire(),
        ensures
            a == b,
    {
        a.lemma_layout();
        b.lemma_layout();
        lemma_le32_signed_round_trip(a.axMin);
        lemma_le32_signed_round_trip(b.axMin);
        lemma_le32_signed_round_trip(a.axMax);
        lemma_le32_signed_round_trip(b.axMax);
        lemma_le32_round_trip(a.axUnits.code());
        lemma_le32_round_trip(b.axUnits.code());
        lemma_le32_round_trip(a.axResolution.raw());
        lemma_le32_round_trip(b.axResolution.raw());
        TU::lemma_code_injective(a.axUnits, b.axUnits);
        lemma_fix32_same_raw(a.axResolution, b.axResolution);
    }

    /// The size and the alignment of each field of an axis, in the order in
    /// which the fields stand.
    pub open spec fn field_shapes() -> Seq<FieldShape> {
        seq![
            FieldShape { size: 4, align: 4 },
            FieldShape { size: 4, align: 4 },
            FieldShape { size: 4, align: 4 },
            FieldShape { size: 4, align: 4 },
        ]
    }

    /// By the rules of C the fields of an axis follow one another with nothing
    /// between them, and the record ends behind its last field: each field
    /// stands where the bytes of the record have it.
    pub proof fn lemma_shape()
        ensures
            size_of(Self::field_shapes(), 0) == 16,
            align_of(Self::field_shapes(), 0, 4) == 4,
            offset_of(Self::field_shapes(), 0, 0) == 0,
            offset_of(Self::field_shapes(), 0, 1) == 4,
            offset_of(Self::field_shapes(), 0, 2) == 8,
            offset_of(Self::field_shapes(), 0, 3) == 12,
    {
        let fields = Self::field_shapes();
        assert(end_of(fields, 0, 0) == 0);
        assert(align_of(fields, 0, 0) == 1);
        assert(end_of(fields, 0, 1) == 4);
        assert(align_of(fields, 0, 1) == 4);
        assert(end_of(fields, 0, 2) == 8);
        assert(align_of(fields, 0, 2) == 4);
        assert(end_of(fields, 0, 3) == 12);
        assert(align_of(fields, 0, 3) == 4);
        assert(end_of(fields, 0, 4) == 16);
        assert(align_of(fields, 0, 4) == 4);
    }

    /// The shape of an axis in memory, by the rules of C: where each field
    /// stands, the number of bytes, and the alignment.
    pub fn shape() -> (r: RecordShape)
        ensures
            r.size == size_of(Self::field_shapes(), 0),
            r.align == align_of(Self::field_shapes(), 0, 4),
            r.offsets@.len() == 4,
            forall|k: int| 0 <= k < 4 ==> r.offsets@[k] == offset_of(Self::field_shapes(), 0, k),
            r.size == 16,
            r.align == 4,
            r.offsets@ == seq![0usize, 4usize, 8usize, 12usize],
    {
        let fields: Vec<FieldShape> = vec![
            FieldShape { size: 4, align: 4 },
            FieldShape { size: 4, align: 4 },
            FieldShape { size: 4, align: 4 },
            FieldShape { size: 4, align: 4 },
        ];
        proof {
            assert(fields@ =~= Self::field_shapes());
            Self::lemma_shape();
        }
        let shape: RecordShape = lay_out(&fields, 0).unwrap();
        assert(shape.offsets@ =~= seq![0usize, 4usize, 8usize, 12usize]);
        shape
    }

    /// The bytes that the driver writes for this axis.
    pub fn to_bytes(&self) -> (r: Vec<u8>)
        ensures
            r@ == self.wire(),
            r@.len() == Self::SIZE,
    {
        let mut out: Vec<u8> = Vec::new();
        push_i32(&mut out, self.axMin);
        push_i32(&mut out, self.axMax);
        push_u32(&mut out, self.axUnits.code());
        push_u32(&mut out, self.axResolution.raw());
        proof {
            self.lemma_layout();
            assert(out@ =~= self.wire());
        }
        out
    }

    /// The axis that `bytes` stand for. There is none where `bytes` are not
    /// 16 in number, and none where they name a unit that does not exist.
    pub fn from_bytes(bytes: &[u8]) -> (r: Option<AXIS>)
        ensures
            match r {
                Some(axis) => axis.wire() == bytes@,
                None => forall|axis: AXIS| axis.wire() != bytes@,
            },
    {
        if bytes.len() != AXIS::SIZE {
            assert forall|axis: AXIS| axis.wire() != bytes@ by {
                axis.lemma_layout();
            }
            return None;
        }
        let unit_code: u32 = read_u32(bytes, 8);
        match TU::from_code(unit_code) {
            Some(unit) => {
                let axis = AXIS {
                    axMin: read_i32(bytes, 0),
                    axMax: read_i32(bytes, 4),
                    axUnits: unit,
                    axResolution: FIX32::new(read_u32(bytes, 12)),
                };
                proof {
                    lemma_from_le32_signed_round_trip(bytes@.subrange(0, 4));
                    lemma_from_le32_signed_round_trip(bytes@.subrange(4, 8));
                    lemma_from_le32_round_trip(bytes@.subrange(8, 12));
                    lemma_from_le32_round_trip(bytes@.subrange(12, 16));
                    assert(axis.wire() =~= bytes@);
                }
                Some(axis)
            },
            None => {
                assert forall|axis: AXIS| axis.wire() != bytes@ by {
                    axis.lemma_layout();
                    lemma_le32_round_trip(axis.axUnits.code());
                    if axis.wire() == bytes@ {
                        assert(from_le32(bytes@.subrange(8, 12)) == axis.axUnits.code());
                    }
                }
                None
            },
        }
    }
}

impl Default for AXIS {
    /// An axis of zeros without a unit, for the driver to write to.
    fn default() -> (r: AXIS)
        ensures
            r.axMin == 0,
            r.axMax == 0,
            r.axUnits == TU::NONE,
            r.axResolution.raw() == 0,
    {
        AXIS { axMin: 0, axMax: 0, axUnits: TU::NONE, axResolution: FIX32::new(0) }
    }
}

} // verus!
