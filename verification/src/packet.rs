//! The event packet: one sample of the tablet's input, as the driver
//! delivers it.
use crate::bits::{
    below, is_single, lemma_positions_empty_iff_zero, lemma_positions_injective,
    lemma_positions_of_and, lemma_positions_of_and_not, lemma_positions_of_flags,
    lemma_positions_of_low_mask, lemma_positions_of_or, lemma_positions_of_zero,
    lemma_positions_overlap, lemma_positions_subset, lemma_positions_within,
    lemma_single_in_union, lemma_single_not_in_empty, positions,
};
use crate::bitmask::Bitmask;
use crate::c_type_aliases::{lemma_hctx_same_raw, DWORD, HCTX, INT, LONG, UINT};
use crate::coordinate::XYZ;
use crate::layout::{align_of, end_of, lay_out, offset_of, size_of, FieldShape, RecordShape};
use crate::wire::{
    address_bytes, address_size, from_le16, le16, le32, le32_signed, le_address, lemma_append,
    lemma_from_le16_round_trip, lemma_from_le32_round_trip, lemma_from_le32_signed_round_trip,
    lemma_le16_round_trip, lemma_le32_is_two_halves, lemma_le32_of_zero, lemma_le32_round_trip,
    lemma_le32_signed_round_trip, lemma_le_address_injective, lemma_le_address_of_zero,
    lemma_zeros_append, push_address, push_i32, push_u16, push_u32, read_address, read_i32,
    read_u16, read_u32, reinterpret_signed, reinterpret_unsigned, signed_of, unsigned_of, zeros,
};
use crate::wtpkt::WTPKT;
use vstd::prelude::*;

verus! {

/// What happened to a button.
#[derive(Clone, Copy, Debug, PartialEq, Eq, Structural)]
pub enum ButtonChangeType {
    /// No button changed.
    NONE,
    /// The button was released.
    UP,
    /// The button was pressed.
    DOWN,
}

impl ButtonChangeType {
    /// The number that the driver knows each kind of change by.
    pub open spec fn spec_code(self) -> u16 {
        match self {
            ButtonChangeType::NONE => 0,
            ButtonChangeType::UP => 1,
            ButtonChangeType::DOWN => 2,
        }
    }

    /// The number that the driver knows this kind of change by.
    #[verifier::when_used_as_spec(spec_code)]
    pub fn code(self) -> (r: u16)
        ensures
            r == self.code(),
    {
        match self {
            ButtonChangeType::NONE => 0,
            ButtonChangeType::UP => 1,
            ButtonChangeType::DOWN => 2,
        }
    }

    /// The kind of change that the driver knows by `code`, if there is one.
    pub fn from_code(code: u16) -> (r: Option<ButtonChangeType>)
        ensures
            match r {
                Some(found) => found.code() == code,
                None => forall|other: ButtonChangeType| other.code() != code,
            },
    {
        match code {
            0 => Some(ButtonChangeType::NONE),
            1 => Some(ButtonChangeType::UP),
            2 => Some(ButtonChangeType::DOWN),
            _ => None,
        }
    }

    /// No two of them share a number.
    pub proof fn lemma_code_injective(a: ButtonChangeType, b: ButtonChangeType)
        requires
            a.code() == b.code(),
        ensures
            a == b,
    {
    }
}

impl Default for ButtonChangeType {
    /// `NONE`.
    fn default() -> (r: ButtonChangeType)
        ensures
            r == ButtonChangeType::NONE,
    {
        ButtonChangeType::NONE
    }
}

/// Which button changed, and how: what a packet's button field holds where a
/// context reports the buttons in relative mode.
#[derive(Clone, Copy, Debug, PartialEq, Eq, Structural)]
pub struct ButtonChange {
    /// The number of the button that changed.
    pub button_number: u16,
    /// What happened to the button.
    pub change_type: ButtonChangeType,
}

impl ButtonChange {
    /// The number of bytes that the driver writes for a button change.
    pub const SIZE: usize = 4;

    /// The bytes that the driver writes for a button change: the number of
    /// the button and the kind of change, two bytes each.
    pub open spec fn wire(self) -> Seq<u8> {
        le16(self.button_number) + le16(self.change_type.code())
    }

    /// Where each field stands among the bytes.
    pub proof fn lemma_layout(self)
        ensures
            self.wire().len() == 4,
            self.wire().subrange(0, 2) == le16(self.button_number),
            self.wire().subrange(2, 4) == le16(self.change_type.code()),
    {
        assert(self.wire().subrange(0, 2) =~= le16(self.button_number));
        assert(self.wire().subrange(2, 4) =~= le16(self.change_type.code()));
    }

    /// Two button changes with the same bytes are the same.
    pub proof fn lemma_wire_injective(a: ButtonChange, b: ButtonChange)
        requires
            a.wire() == b.wire(),
        ensures
            a == b,
    {
        a.lemma_layout();
        b.lemma_layout();
        lemma_le16_round_trip(a.button_number);
        lemma_le16_round_trip(b.button_number);
        lemma_le16_round_trip(a.change_type.code());
        lemma_le16_round_trip(b.change_type.code());
        ButtonChangeType::lemma_code_injective(a.change_type, b.change_type);
    }

    /// The size and the alignment of each field of a button change, in the order in
    /// which the fields stand.
    pub open spec fn field_shapes() -> Seq<FieldShape> {
        seq![
            FieldShape { size: 2, align: 2 },
            FieldShape { size: 2, align: 2 },
        ]
    }

    /// By the rules of C the fields of a button change follow one another with nothing
    /// between them, and the record ends behind its last field: each field
    /// stands where the bytes of the record have it.
    pub proof fn lemma_shape()
        ensures
            size_of(Self::field_shapes(), 0) == 4,
            align_of(Self::field_shapes(), 0, 2) == 2,
            offset_of(Self::field_shapes(), 0, 0) == 0,
            offset_of(Self::field_shapes(), 0, 1) == 2,
    {
        let fields = Self::field_shapes();
        assert(end_of(fields, 0, 0) == 0);
        assert(align_of(fields, 0, 0) == 1);
        assert(end_of(fields, 0, 1) == 2);
        assert(align_of(fields, 0, 1) == 2);
        assert(end_of(fields, 0, 2) == 4);
        assert(align_of(fields, 0, 2) == 2);
    }

    /// The shape of a button change in memory, by the rules of C: where each field
    /// stands, the number of bytes, and the alignment.
    pub fn shape() -> (r: RecordShape)
        ensures
            r.size == size_of(Self::field_shapes(), 0),
            r.align == align_of(Self::field_shapes(), 0, 2),
            r.offsets@.len() == 2,
            forall|k: int| 0 <= k < 2 ==> r.offsets@[k] == offset_of(Self::field_shapes(), 0, k),
            r.size == 4,
            r.align == 2,
            r.offsets@ == seq![0usize, 2usize],
    {
        let fields: Vec<FieldShape> = vec![
            FieldShape { size: 2, align: 2 },
            FieldShape { size: 2, align: 2 },
        ];
        proof {
            assert(fields@ =~= Self::field_shapes());
            Self::lemma_shape();
        }
        let shape: RecordShape = lay_out(&fields, 0).unwrap();
        assert(shape.offsets@ =~= seq![0usize, 2usize]);
        shape
    }

    /// The bytes that the driver writes for this button change.
    pub fn to_bytes(&self) -> (r: Vec<u8>)
        ensures
            r@ == self.wire(),
            r@.len() == Self::SIZE,
    {
        let mut out: Vec<u8> = Vec::new();
        push_u16(&mut out, self.button_number);
        push_u16(&mut out, self.change_type.code());
        proof {
            self.lemma_layout();
            assert(out@ =~= self.wire());
        }
        out
    }

    /// The button change that `bytes` stand for. There is none where `bytes`
    /// are not four in number, and none where they name a kind of change that
    /// does not exist.
    pub fn from_bytes(bytes: &[u8]) -> (r: Option<ButtonChange>)
        ensures
            match r {
                Some(change) => change.wire() == bytes@,
                None => forall|change: ButtonChange| change.wire() != bytes@,
            },
    {
        if bytes.len() != ButtonChange::SIZE {
            assert forall|change: ButtonChange| change.wire() != bytes@ by {
                change.lemma_layout();
            }
            return None;
        }
        let kind_code: u16 = read_u16(bytes, 2);
        match ButtonChangeType::from_code(kind_code) {
            Some(kind) => {
                let change = ButtonChange { button_number: read_u16(bytes, 0), change_type: kind };
                proof {
                    lemma_from_le16_round_trip(bytes@.subrange(0, 2));
                    lemma_from_le16_round_trip(bytes@.subrange(2, 4));
                    assert(change.wire() =~= bytes@);
                }
                Some(change)
            },
            None => {
                assert forall|change: ButtonChange| change.wire() != bytes@ by {
                    change.lemma_layout();
                    lemma_le16_round_trip(change.change_type.code());
                    if change.wire() == bytes@ {
                        assert(from_le16(bytes@.subrange(2, 4)) == change.change_type.code());
                    }
                }
                None
            },
        }
    }
}

impl Default for ButtonChange {
    /// Button zero and no change.
    fn default() -> (r: ButtonChange)
        ensures
            r.button_number == 0,
            r.change_type == ButtonChangeType::NONE,
    {
        ButtonChange { button_number: 0, change_type: ButtonChangeType::NONE }
    }
}

/// The rotation of the cursor with respect to the tablet: pitch, roll and yaw.
#[allow(non_snake_case)]
#[derive(Clone, Copy, Debug, PartialEq, Eq, Structural)]
pub struct Rotation {
    /// The pitch of the cursor.
    pub roPitch: INT,
    /// The roll of the cursor.
    pub roRoll: INT,
    /// The yaw of the cursor.
    pub roYaw: INT,
}

impl Rotation {
    /// The number of bytes that the driver writes for a rotation.
    pub const SIZE: usize = 12;

    /// The bytes that the driver writes for a rotation: its three angles, four
    /// bytes each.
    pub open spec fn wire(self) -> Seq<u8> {
        le32_signed(self.roPitch) + le32_signed(self.roRoll) + le32_signed(self.roYaw)
    }

    /// True when the three angles are zero.
    pub open spec fn is_zero(self) -> bool {
        self.roPitch == 0 && self.roRoll == 0 && self.roYaw == 0
    }

    /// Where each angle stands among the bytes.
    pub proof fn lemma_layout(self)
        ensures
            self.wire().len() == 12,
            self.wire().subrange(0, 4) == le32_signed(self.roPitch),
            self.wire().subrange(4, 8) == le32_signed(self.roRoll),
            self.wire().subrange(8, 12) == le32_signed(self.roYaw),
    {
        assert(self.wire().subrange(0, 4) =~= le32_signed(self.roPitch));
        assert(self.wire().subrange(4, 8) =~= le32_signed(self.roRoll));
        assert(self.wire().subrange(8, 12) =~= le32_signed(self.roYaw));
    }

    /// Two of them with the same bytes are the same.
    pub proof fn lemma_wire_injective(a: Rotation, b: Rotation)
        requires
            a.wire() == b.wire(),
        ensures
            a == b,
    {
        a.lemma_layout();
        b.lemma_layout();
        lemma_le32_signed_round_trip(a.roPitch);
        lemma_le32_signed_round_trip(a.roRoll);
        lemma_le32_signed_round_trip(a.roYaw);
        lemma_le32_signed_round_trip(b.roPitch);
        lemma_le32_signed_round_trip(b.roRoll);
        lemma_le32_signed_round_trip(b.roYaw);
    }

    /// With three angles of zero the bytes are zeros.
    pub proof fn lemma_zero(self)
        requires
            self.is_zero(),
        ensures
            self.wire() == zeros(12),
    {
        lemma_le32_of_zero();
        assert(self.wire() =~= zeros(12));
    }

    /// Appends the bytes of a rotation to `out`.
    pub fn write_to(&self, out: &mut Vec<u8>)
        ensures
            final(out)@ == old(out)@ + self.wire(),
    {
        let ghost before = out@;
        push_i32(out, self.roPitch);
        push_i32(out, self.roRoll);
        push_i32(out, self.roYaw);
        assert(out@ =~= before + self.wire());
    }

    /// What stands at `at` in `bytes`.
    pub fn read_at(bytes: &[u8], at: usize) -> (r: Rotation)
        requires
            at + 12 <= bytes.len(),
        ensures
            r.wire() == bytes@.subrange(at as int, at + 12),
    {
        let r = Rotation {
            roPitch: read_i32(bytes, at),
            roRoll: read_i32(bytes, at + 4),
            roYaw: read_i32(bytes, at + 8),
        };
        proof {
            lemma_from_le32_signed_round_trip(bytes@.subrange(at as int, at + 4));
            lemma_from_le32_signed_round_trip(bytes@.subrange(at + 4, at + 8));
            lemma_from_le32_signed_round_trip(bytes@.subrange(at + 8, at + 12));
            assert(r.wire() =~= bytes@.subrange(at as int, at + 12));
        }
        r
    }
}

impl Default for Rotation {
    /// Three angles of zero.
    fn default() -> (r: Rotation)
        ensures
            r.is_zero(),
    {
        Rotation { roPitch: 0, roRoll: 0, roYaw: 0 }
    }
}

/// The orientation of the cursor with respect to the tablet: azimuth, altitude
/// and twist.
#[allow(non_snake_case)]
#[derive(Clone, Copy, Debug, PartialEq, Eq, Structural)]
pub struct Orientation {
    /// The clockwise rotation of the cursor about the z axis, through a full
    /// circle.
    pub orAzimuth: INT,
    /// The angle with the x-y plane, through a signed half circle: positive
    /// towards the positive z axis.
    pub orAltitude: INT,
    /// The clockwise rotation of the cursor about its own major axis.
    pub orTwist: INT,
}

impl Orientation {
    /// The number of bytes that the driver writes for an orientation.
    pub const SIZE: usize = 12;

    /// The bytes that the driver writes for an orientation: its three angles, four
    /// bytes each.
    pub open spec fn wire(self) -> Seq<u8> {
        le32_signed(self.orAzimuth) + le32_signed(self.orAltitude) + le32_signed(self.orTwist)
    }

    /// True when the three angles are zero.
    pub open spec fn is_zero(self) -> bool {
        self.orAzimuth == 0 && self.orAltitude == 0 && self.orTwist == 0
    }

    /// Where each angle stands among the bytes.
    pub proof fn lemma_layout(self)
        ensures
            self.wire().len() == 12,
            self.wire().subrange(0, 4) == le32_signed(self.orAzimuth),
            self.wire().subrange(4, 8) == le32_signed(self.orAltitude),
            self.wire().subrange(8, 12) == le32_signed(self.orTwist),
    {
        assert(self.wire().subrange(0, 4) =~= le32_signed(self.orAzimuth));
        assert(self.wire().subrange(4, 8) =~= le32_signed(self.orAltitude));
        assert(self.wire().subrange(8, 12) =~= le32_signed(self.orTwist));
    }

    /// Two of them with the same bytes are the same.
    pub proof fn lemma_wire_injective(a: Orientation, b: Orientation)
        requires
            a.wire() == b.wire(),
        ensures
            a == b,
    {
        a.lemma_layout();
        b.lemma_layout();
        lemma_le32_signed_round_trip(a.orAzimuth);
        lemma_le32_signed_round_trip(a.orAltitude);
        lemma_le32_signed_round_trip(a.orTwist);
        lemma_le32_signed_round_trip(b.orAzimuth);
        lemma_le32_signed_round_trip(b.orAltitude);
        lemma_le32_signed_round_trip(b.orTwist);
    }

    /// With three angles of zero the bytes are zeros.
    pub proof fn lemma_zero(self)
        requires
            self.is_zero(),
        ensures
            self.wire() == zeros(12),
    {
        lemma_le32_of_zero();
        assert(self.wire() =~= zeros(12));
    }

    /// Appends the bytes of an orientation to `out`.
    pub fn write_to(&self, out: &mut Vec<u8>)
        ensures
            final(out)@ == old(out)@ + self.wire(),
    {
        let ghost before = out@;
        push_i32(out, self.orAzimuth);
        push_i32(out, self.orAltitude);
        push_i32(out, self.orTwist);
        assert(out@ =~= before + self.wire());
    }

    /// What stands at `at` in `bytes`.
    pub fn read_at(bytes: &[u8], at: usize) -> (r: Orientation)
        requires
            at + 12 <= bytes.len(),
        ensures
            r.wire() == bytes@.subrange(at as int, at + 12),
    {
        let r = Orientation {
            orAzimuth: read_i32(bytes, at),
            orAltitude: read_i32(bytes, at + 4),
            orTwist: read_i32(bytes, at + 8),
        };
        proof {
            lemma_from_le32_signed_round_trip(bytes@.subrange(at as int, at + 4));
            lemma_from_le32_signed_round_trip(bytes@.subrange(at + 4, at + 8));
            lemma_from_le32_signed_round_trip(bytes@.subrange(at + 8, at + 12));
            assert(r.wire() =~= bytes@.subrange(at as int, at + 12));
        }
        r
    }
}

impl Default for Orientation {
    /// Three angles of zero.
    fn default() -> (r: Orientation)
        ensures
            r.is_zero(),
    {
        Orientation { orAzimuth: 0, orAltitude: 0, orTwist: 0 }
    }
}

/// The status of a packet: the field `pkStatus` of `Packet`.
#[derive(Clone, Copy, Debug, PartialEq, Eq, Structural)]
pub struct TPS {
    bits: u32,
}

impl View for TPS {
    type V = Set<nat>;

    /// The positions of the bits that are one.
    open spec fn view(&self) -> Set<nat> {
        positions(self.spec_bits())
    }
}

impl TPS {
    /// The word that backs the set.
    pub closed spec fn spec_bits(&self) -> u32 {
        self.bits
    }

    /// The positions of the conditions that have a name.
    pub open spec fn defined() -> Set<nat> {
        below(5)
    }

    /// The word with a one for each named flag stands for the named positions.
    proof fn lemma_all_bits()
        ensures
            positions(0x1F) == Self::defined(),
    {
        lemma_positions_of_low_mask(5);
        assert(((1u32 << 5u32) - 1) as u32 == 0x1F) by (bit_vector);
    }

    /// Two sets with the same positions are the same set.
    pub proof fn lemma_same_view(a: TPS, b: TPS)
        requires
            a@ == b@,
        ensures
            a == b,
    {
        lemma_positions_injective(a.bits, b.bits);
    }

    /// Two sets backed by the same word are the same set.
    pub proof fn lemma_same_bits(a: TPS, b: TPS)
        requires
            a.bits() == b.bits(),
        ensures
            a == b,
    {
    }

    /// A single flag lies in the union of two sets exactly when it lies in
    /// one of them, and it never lies in the empty set.
    pub proof fn lemma_single_flag(a: TPS, b: TPS, f: TPS)
        requires
            is_single(f@),
        ensures
            f@.subset_of(a@.union(b@)) <==> (f@.subset_of(a@) || f@.subset_of(b@)),
            !f@.subset_of(Set::<nat>::empty()),
    {
        lemma_single_in_union(a@, b@, f@);
        lemma_single_not_in_empty(f@);
    }

    /// The set without any flag.
    pub fn empty() -> (r: TPS)
        ensures
            r.bits() == 0,
            r@ == Set::<nat>::empty(),
    {
        proof {
            lemma_positions_of_zero();
        }
        TPS { bits: 0 }
    }

    /// The set of every named flag, and of nothing else.
    pub fn all() -> (r: TPS)
        ensures
            r.bits() == 0x1F,
            r@ == Self::defined(),
    {
        proof {
            Self::lemma_all_bits();
        }
        TPS { bits: 0x1F }
    }

    /// The word that backs the set, as it is handed to the driver.
    #[verifier::when_used_as_spec(spec_bits)]
    pub fn bits(&self) -> (r: u32)
        ensures
            r == self.bits(),
    {
        self.bits
    }

    /// The set that `bits` stands for, unless `bits` has a one where no flag
    /// has a name.
    pub fn from_bits(bits: u32) -> (r: Option<TPS>)
        ensures
            r is Some <==> positions(bits).subset_of(Self::defined()),
            r matches Some(set) ==> set.bits() == bits,
    {
        proof {
            Self::lemma_all_bits();
            lemma_positions_within(bits, 0x1F);
        }
        if bits & !0x1F == 0 {
            Some(TPS { bits })
        } else {
            None
        }
    }

    /// The named flags among the ones of `bits`; the other ones are dropped.
    pub fn from_bits_truncate(bits: u32) -> (r: TPS)
        ensures
            r.bits() == bits & 0x1F,
            r@ == positions(bits).intersect(Self::defined()),
    {
        proof {
            Self::lemma_all_bits();
            lemma_positions_of_and(bits, 0x1F);
        }
        TPS { bits: bits & 0x1F }
    }

    /// The set that `bits` stands for, with every one kept, named or not.
    pub fn from_bits_retain(bits: u32) -> (r: TPS)
        ensures
            r.bits() == bits,
    {
        TPS { bits }
    }

    /// True when the set holds nothing.
    pub fn is_empty(&self) -> (r: bool)
        ensures
            r == (self@ == Set::<nat>::empty()),
            r == (self.bits() == 0),
    {
        proof {
            lemma_positions_empty_iff_zero(self.bits);
        }
        self.bits == 0
    }

    /// True when the set holds every named flag.
    pub fn is_all(&self) -> (r: bool)
        ensures
            r == Self::defined().subset_of(self@),
    {
        proof {
            Self::lemma_all_bits();
            lemma_positions_subset(self.bits, 0x1F);
        }
        self.bits & 0x1F == 0x1F
    }

    /// True when the set holds everything that `other` holds.
    pub fn contains(&self, other: TPS) -> (r: bool)
        ensures
            r == other@.subset_of(self@),
    {
        proof {
            lemma_positions_subset(self.bits, other.bits);
        }
        self.bits & other.bits == other.bits
    }

    /// True when the set and `other` have something in common.
    pub fn intersects(&self, other: TPS) -> (r: bool)
        ensures
            r == !self@.disjoint(other@),
    {
        proof {
            lemma_positions_overlap(self.bits, other.bits);
        }
        self.bits & other.bits != 0
    }

    /// What is in the set or in `other`.
    pub fn union(self, other: TPS) -> (r: TPS)
        ensures
            r@ == self@.union(other@),
            r.bits() == self.bits() | other.bits(),
    {
        proof {
            lemma_positions_of_or(self.bits, other.bits);
        }
        TPS { bits: self.bits | other.bits }
    }

    /// What is in the set and in `other`.
    pub fn intersection(self, other: TPS) -> (r: TPS)
        ensures
            r@ == self@.intersect(other@),
            r.bits() == self.bits() & other.bits(),
    {
        proof {
            lemma_positions_of_and(self.bits, other.bits);
        }
        TPS { bits: self.bits & other.bits }
    }

    /// What is in the set and not in `other`.
    pub fn difference(self, other: TPS) -> (r: TPS)
        ensures
            r@ == self@.difference(other@),
            r.bits() == self.bits() & !other.bits(),
    {
        proof {
            lemma_positions_of_and_not(self.bits, other.bits);
        }
        TPS { bits: self.bits & !other.bits }
    }

    /// The named flags that are not in the set.
    pub fn complement(self) -> (r: TPS)
        ensures
            r@ == Self::defined().difference(self@),
            r.bits() == 0x1F & !self.bits(),
    {
        proof {
            Self::lemma_all_bits();
            lemma_positions_of_and_not(0x1F, self.bits);
        }
        TPS { bits: 0x1F & !self.bits }
    }

    /// Adds what `other` holds to the set.
    pub fn insert(&mut self, other: TPS)
        ensures
            final(self)@ == old(self)@.union(other@),
            final(self).bits() == old(self).bits() | other.bits(),
    {
        proof {
            lemma_positions_of_or(self.bits, other.bits);
        }
        self.bits = self.bits | other.bits;
    }

    /// Takes what `other` holds out of the set.
    pub fn remove(&mut self, other: TPS)
        ensures
            final(self)@ == old(self)@.difference(other@),
            final(self).bits() == old(self).bits() & !other.bits(),
    {
        proof {
            lemma_positions_of_and_not(self.bits, other.bits);
        }
        self.bits = self.bits & !other.bits;
    }

    /// The cursor is out of the context.
    #[allow(non_snake_case)]
    pub fn PROXIMITY() -> (r: TPS)
        ensures
            r.bits() == 0x1,
            r@ == set![0nat],
            r@.subset_of(Self::defined()),
    {
        proof {
            lemma_positions_of_flags();
        }
        TPS { bits: 0x1 }
    }

    /// The event queue of the context has overflowed.
    #[allow(non_snake_case)]
    pub fn QUEUE_ERR() -> (r: TPS)
        ensures
            r.bits() == 0x2,
            r@ == set![1nat],
            r@.subset_of(Self::defined()),
    {
        proof {
            lemma_positions_of_flags();
        }
        TPS { bits: 0x2 }
    }

    /// The cursor is in the margin of the context.
    #[allow(non_snake_case)]
    pub fn MARGIN() -> (r: TPS)
        ensures
            r.bits() == 0x4,
            r@ == set![2nat],
            r@.subset_of(Self::defined()),
    {
        proof {
            lemma_positions_of_flags();
        }
        TPS { bits: 0x4 }
    }

    /// The cursor is out of the context, but the context has grabbed the input
    /// while it waits for a button to be released.
    #[allow(non_snake_case)]
    pub fn GRAB() -> (r: TPS)
        ensures
            r.bits() == 0x8,
            r@ == set![3nat],
            r@.subset_of(Self::defined()),
    {
        proof {
            lemma_positions_of_flags();
        }
        TPS { bits: 0x8 }
    }

    /// The cursor is in its inverted state.
    #[allow(non_snake_case)]
    pub fn INVERT() -> (r: TPS)
        ensures
            r.bits() == 0x10,
            r@ == set![4nat],
            r@.subset_of(Self::defined()),
    {
        proof {
            lemma_positions_of_flags();
        }
        TPS { bits: 0x10 }
    }
}

impl Default for TPS {
    /// The set without any flag.
    fn default() -> (r: TPS)
        ensures
            r.bits() == 0,
            r@ == Set::<nat>::empty(),
    {
        TPS::empty()
    }
}

/// One sample of the tablet's input: the packet with every data item, all of
/// them absolute. The driver writes such a packet only for a context that asks
/// for every data item (`lcPktData` is `WTPKT::all()`) and for none in relative
/// mode (`lcPktMode` is `WTPKT::empty()`).
#[allow(non_snake_case)]
#[derive(Clone, Copy, Debug, PartialEq, Eq)]
pub struct Packet {
    /// The context that generated the event.
    pub pkContext: HCTX,
    /// Status and error conditions.
    pub pkStatus: TPS,
    /// In absolute mode, the system time at which the event was posted. In
    /// relative mode, the milliseconds since the packet before.
    pub pkTime: DWORD,
    /// The data items that have changed since the packet before.
    pub pkChanged: WTPKT,
    /// The serial number that the context gave the packet. Packets that follow
    /// one another have numbers that follow one another.
    pub pkSerialNumber: UINT,
    /// The cursor type that generated the packet.
    pub pkCursor: UINT,
    /// The state of every button, one bit for each. This holds for a context
    /// that reports the buttons in absolute mode.
    pub pkButtons: Bitmask<DWORD>,
    /// In absolute mode, the scaled position of the cursor. In relative mode,
    /// the scaled change of its position. The numbers are signed.
    pub pkXYZ: XYZ<LONG>,
    /// The normal pressure, in absolute mode.
    pub pkNormalPressure: UINT,
    /// The tangent pressure, in absolute mode.
    pub pkTangentPressure: UINT,
    /// The orientation of the cursor.
    pub pkOrientation: Orientation,
    /// The rotation of the cursor.
    pub pkRotation: Rotation,
}

impl Packet {
    /// The number of bytes that the driver writes for a packet: the bytes of
    /// an address and 68 more.
    pub open spec fn spec_size() -> nat {
        address_size() + 68
    }

    /// The position among the bytes that lies `k` bytes behind the context's
    /// handle.
    pub open spec fn at(k: int) -> int {
        address_size() + k
    }

    /// The number of bytes that the driver writes for a packet on this
    /// machine: 72 where an address has four bytes, 76 where it has eight.
    pub fn size() -> (r: usize)
        ensures
            r == Self::spec_size(),
            r == 72 || r == 76,
    {
        address_bytes() + 68
    }

    /// The bytes that the driver writes for the packet: its fields one after
    /// the other, with nothing between them.
    pub open spec fn wire(self) -> Seq<u8> {
        le_address(self.pkContext.raw())
            + le32(self.pkStatus.bits())
            + le32(self.pkTime)
            + le32(self.pkChanged.bits())
            + le32(self.pkSerialNumber)
            + le32(self.pkCursor)
            + le32(self.pkButtons.0)
            + self.pkXYZ.wire()
            + le32(self.pkNormalPressure)
            + le32(self.pkTangentPressure)
            + self.pkOrientation.wire()
            + self.pkRotation.wire()
    }

    /// Where each field stands among the bytes, and how many they are.
    pub proof fn lemma_layout(self)
        ensures
            self.wire().len() == Self::spec_size(),
            self.wire().subrange(0, Self::at(0)) == le_address(self.pkContext.raw()),
            self.wire().subrange(Self::at(0), Self::at(4)) == le32(self.pkStatus.bits()),
            self.wire().subrange(Self::at(4), Self::at(8)) == le32(self.pkTime),
            self.wire().subrange(Self::at(8), Self::at(12)) == le32(self.pkChanged.bits()),
            self.wire().subrange(Self::at(12), Self::at(16)) == le32(self.pkSerialNumber),
            self.wire().subrange(Self::at(16), Self::at(20)) == le32(self.pkCursor),
            self.wire().subrange(Self::at(20), Self::at(24)) == le32(self.pkButtons.0),
            self.wire().subrange(Self::at(24), Self::at(36)) == self.pkXYZ.wire(),
            self.wire().subrange(Self::at(36), Self::at(40)) == le32(self.pkNormalPressure),
            self.wire().subrange(Self::at(40), Self::at(44)) == le32(self.pkTangentPressure),
            self.wire().subrange(Self::at(44), Self::at(56)) == self.pkOrientation.wire(),
            self.wire().subrange(Self::at(56), Self::at(68)) == self.pkRotation.wire(),
    {
        self.pkXYZ.lemma_layout();
        self.pkOrientation.lemma_layout();
        self.pkRotation.lemma_layout();
        let tail0 = le_address(self.pkContext.raw());
        assert(tail0.subrange(0, tail0.len() as int) =~= tail0);
        let tail4 = tail0 + le32(self.pkStatus.bits());
        lemma_append(tail0, le32(self.pkStatus.bits()));
        let tail8 = tail4 + le32(self.pkTime);
        lemma_append(tail4, le32(self.pkTime));
        let tail12 = tail8 + le32(self.pkChanged.bits());
        lemma_append(tail8, le32(self.pkChanged.bits()));
        let tail16 = tail12 + le32(self.pkSerialNumber);
        lemma_append(tail12, le32(self.pkSerialNumber));
        let tail20 = tail16 + le32(self.pkCursor);
        lemma_append(tail16, le32(self.pkCursor));
        let tail24 = tail20 + le32(self.pkButtons.0);
        lemma_append(tail20, le32(self.pkButtons.0));
        let tail36 = tail24 + self.pkXYZ.wire();
        lemma_append(tail24, self.pkXYZ.wire());
        let tail40 = tail36 + le32(self.pkNormalPressure);
        lemma_append(tail36, le32(self.pkNormalPressure));
        let tail44 = tail40 + le32(self.pkTangentPressure);
        lemma_append(tail40, le32(self.pkTangentPressure));
        let tail56 = tail44 + self.pkOrientation.wire();
        lemma_append(tail44, self.pkOrientation.wire());
        let tail68 = tail56 + self.pkRotation.wire();
        lemma_append(tail56, self.pkRotation.wire());
        assert(self.wire() == tail68);
    }

    /// Two packets with the same bytes are the same packet.
    pub proof fn lemma_wire_injective(a: Packet, b: Packet)
        requires
            a.wire() == b.wire(),
        ensures
            a == b,
    {
        a.lemma_layout();
        b.lemma_layout();
        lemma_le_address_injective(a.pkContext.raw(), b.pkContext.raw());
        lemma_hctx_same_raw(a.pkContext, b.pkContext);
        lemma_le32_round_trip(a.pkStatus.bits());
        lemma_le32_round_trip(b.pkStatus.bits());
        TPS::lemma_same_bits(a.pkStatus, b.pkStatus);
        lemma_le32_round_trip(a.pkTime);
        lemma_le32_round_trip(b.pkTime);
        lemma_le32_round_trip(a.pkChanged.bits());
        lemma_le32_round_trip(b.pkChanged.bits());
        WTPKT::lemma_same_bits(a.pkChanged, b.pkChanged);
        lemma_le32_round_trip(a.pkSerialNumber);
        lemma_le32_round_trip(b.pkSerialNumber);
        lemma_le32_round_trip(a.pkCursor);
        lemma_le32_round_trip(b.pkCursor);
        lemma_le32_round_trip(a.pkButtons.0);
        lemma_le32_round_trip(b.pkButtons.0);
        XYZ::<i32>::lemma_wire_injective(a.pkXYZ, b.pkXYZ);
        lemma_le32_round_trip(a.pkNormalPressure);
        lemma_le32_round_trip(b.pkNormalPressure);
        lemma_le32_round_trip(a.pkTangentPressure);
        lemma_le32_round_trip(b.pkTangentPressure);
        Orientation::lemma_wire_injective(a.pkOrientation, b.pkOrientation);
        Rotation::lemma_wire_injective(a.pkRotation, b.pkRotation);
    }

    /// True of the packet of zeros: the null context, no flag, every number zero.
    pub open spec fn is_zero(self) -> bool {
        &&& self.pkContext.raw() == 0
        &&& self.pkStatus.bits() == 0
        &&& self.pkTime == 0
        &&& self.pkChanged.bits() == 0
        &&& self.pkSerialNumber == 0
        &&& self.pkCursor == 0
        &&& self.pkButtons.0 == 0
        &&& self.pkXYZ.x == 0 && self.pkXYZ.y == 0 && self.pkXYZ.z == 0
        &&& self.pkNormalPressure == 0
        &&& self.pkTangentPressure == 0
        &&& self.pkOrientation.is_zero()
        &&& self.pkRotation.is_zero()
    }

    /// The bytes of the packet of zeros are zeros.
    pub proof fn lemma_zero(self)
        requires
            self.is_zero(),
        ensures
            self.wire() == zeros(Self::spec_size()),
    {
        lemma_le32_of_zero();
        lemma_le_address_of_zero();
        lemma_zeros_append(4, 4);
        lemma_zeros_append(8, 4);
        self.pkOrientation.lemma_zero();
        self.pkRotation.lemma_zero();
        let n = address_size();
        let tail0 = le_address(self.pkContext.raw());
        assert(tail0 == zeros(n));
        let tail4 = tail0 + le32(self.pkStatus.bits());
        lemma_zeros_append((n + 0) as nat, 4);
        assert(tail4 == zeros((n + 4) as nat));
        let tail8 = tail4 + le32(self.pkTime);
        lemma_zeros_append((n + 4) as nat, 4);
        assert(tail8 == zeros((n + 8) as nat));
        let tail12 = tail8 + le32(self.pkChanged.bits());
        lemma_zeros_append((n + 8) as nat, 4);
        assert(tail12 == zeros((n + 12) as nat));
        let tail16 = tail12 + le32(self.pkSerialNumber);
        lemma_zeros_append((n + 12) as nat, 4);
        assert(tail16 == zeros((n + 16) as nat));
        let tail20 = tail16 + le32(self.pkCursor);
        lemma_zeros_append((n + 16) as nat, 4);
        assert(tail20 == zeros((n + 20) as nat));
        let tail24 = tail20 + le32(self.pkButtons.0);
        lemma_zeros_append((n + 20) as nat, 4);
        assert(tail24 == zeros((n + 24) as nat));
        let tail36 = tail24 + self.pkXYZ.wire();
        lemma_zeros_append((n + 24) as nat, 12);
        assert(tail36 == zeros((n + 36) as nat));
        let tail40 = tail36 + le32(self.pkNormalPressure);
        lemma_zeros_append((n + 36) as nat, 4);
        assert(tail40 == zeros((n + 40) as nat));
        let tail44 = tail40 + le32(self.pkTangentPressure);
        lemma_zeros_append((n + 40) as nat, 4);
        assert(tail44 == zeros((n + 44) as nat));
        let tail56 = tail44 + self.pkOrientation.wire();
        lemma_zeros_append((n + 44) as nat, 12);
        assert(tail56 == zeros((n + 56) as nat));
        let tail68 = tail56 + self.pkRotation.wire();
        lemma_zeros_append((n + 56) as nat, 12);
        assert(tail68 == zeros((n + 68) as nat));
        assert(self.wire() == tail68);
    }

    /// The size and the alignment of each field of a packet, in the order in
    /// which the fields stand: the handle, which is an address, first.
    pub open spec fn field_shapes() -> Seq<FieldShape> {
        seq![
            FieldShape { size: address_size() as usize, align: address_size() as usize },
            FieldShape { size: 4, align: 4 },
            FieldShape { size: 4, align: 4 },
            FieldShape { size: 4, align: 4 },
            FieldShape { size: 4, align: 4 },
            FieldShape { size: 4, align: 4 },
            FieldShape { size: 4, align: 4 },
            FieldShape { size: 12, align: 4 },
            FieldShape { size: 4, align: 4 },
            FieldShape { size: 4, align: 4 },
            FieldShape { size: 12, align: 4 },
            FieldShape { size: 12, align: 4 },
        ]
    }

    /// By the rules of C for a record that is packed to four bytes, the
    /// fields of a packet follow one another with nothing between them, and
    /// the record ends behind its last field, also where an address has
    /// eight bytes: each field stands where the bytes of the packet have it.
    pub proof fn lemma_shape()
        ensures
            size_of(Self::field_shapes(), 4) == Self::spec_size(),
            align_of(Self::field_shapes(), 4, 12) == 4,
            offset_of(Self::field_shapes(), 4, 0) == 0,
            offset_of(Self::field_shapes(), 4, 1) == Self::at(0),
            offset_of(Self::field_shapes(), 4, 2) == Self::at(4),
            offset_of(Self::field_shapes(), 4, 3) == Self::at(8),
            offset_of(Self::field_shapes(), 4, 4) == Self::at(12),
            offset_of(Self::field_shapes(), 4, 5) == Self::at(16),
            offset_of(Self::field_shapes(), 4, 6) == Self::at(20),
            offset_of(Self::field_shapes(), 4, 7) == Self::at(24),
            offset_of(Self::field_shapes(), 4, 8) == Self::at(36),
            offset_of(Self::field_shapes(), 4, 9) == Self::at(40),
            offset_of(Self::field_shapes(), 4, 10) == Self::at(44),
            offset_of(Self::field_shapes(), 4, 11) == Self::at(56),
    {
        let fields = Self::field_shapes();
        let n = address_size();
        assert(n == 4 || n == 8);
        assert(end_of(fields, 4, 0) == 0);
        assert(align_of(fields, 4, 0) == 1);
        assert(end_of(fields, 4, 1) == n);
        assert(align_of(fields, 4, 1) == 4);
        assert(end_of(fields, 4, 2) == n + 4);
        assert(align_of(fields, 4, 2) == 4);
        assert(end_of(fields, 4, 3) == n + 8);
        assert(align_of(fields, 4, 3) == 4);
        assert(end_of(fields, 4, 4) == n + 12);
        assert(align_of(fields, 4, 4) == 4);
        assert(end_of(fields, 4, 5) == n + 16);
        assert(align_of(fields, 4, 5) == 4);
        assert(end_of(fields, 4, 6) == n + 20);
        assert(align_of(fields, 4, 6) == 4);
        assert(end_of(fields, 4, 7) == n + 24);
        assert(align_of(fields, 4, 7) == 4);
        assert(end_of(fields, 4, 8) == n + 36);
        assert(align_of(fields, 4, 8) == 4);
        assert(end_of(fields, 4, 9) == n + 40);
        assert(align_of(fields, 4, 9) == 4);
        assert(end_of(fields, 4, 10) == n + 44);
        assert(align_of(fields, 4, 10) == 4);
        assert(end_of(fields, 4, 11) == n + 56);
        assert(align_of(fields, 4, 11) == 4);
        assert(end_of(fields, 4, 12) == n + 68);
        assert(align_of(fields, 4, 12) == 4);
    }

    /// The shape of a packet in memory, by the rules of C for a record that
    /// is packed to four bytes: where each field stands, the number of bytes,
    /// and the alignment.
    pub fn shape() -> (r: RecordShape)
        ensures
            r.size == size_of(Self::field_shapes(), 4),
            r.align == align_of(Self::field_shapes(), 4, 12),
            r.offsets@.len() == 12,
            forall|k: int| 0 <= k < 12 ==> r.offsets@[k] == offset_of(Self::field_shapes(), 4, k),
            r.size == Self::spec_size(),
            r.align == 4,
            r.offsets@[0] == 0,
            r.offsets@[1] == Self::at(0),
            r.offsets@[2] == Self::at(4),
            r.offsets@[3] == Self::at(8),
            r.offsets@[4] == Self::at(12),
            r.offsets@[5] == Self::at(16),
            r.offsets@[6] == Self::at(20),
            r.offsets@[7] == Self::at(24),
            r.offsets@[8] == Self::at(36),
            r.offsets@[9] == Self::at(40),
            r.offsets@[10] == Self::at(44),
            r.offsets@[11] == Self::at(56),
    {
        let n: usize = address_bytes();
        let fields: Vec<FieldShape> = vec![
            FieldShape { size: n, align: n },
            FieldShape { size: 4, align: 4 },
            FieldShape { size: 4, align: 4 },
            FieldShape { size: 4, align: 4 },
            FieldShape { size: 4, align: 4 },
            FieldShape { size: 4, align: 4 },
            FieldShape { size: 4, align: 4 },
            FieldShape { size: 12, align: 4 },
            FieldShape { size: 4, align: 4 },
            FieldShape { size: 4, align: 4 },
            FieldShape { size: 12, align: 4 },
            FieldShape { size: 12, align: 4 },
        ];
        proof {
            assert(fields@ =~= Self::field_shapes());
            Self::lemma_shape();
        }
        lay_out(&fields, 4).unwrap()
    }

    /// The normal pressure read as a signed number, as a context reports it
    /// that has the normal pressure in relative mode: the change of the
    /// pressure. The bits are those of `pkNormalPressure`.
    pub fn normal_pressure_change(&self) -> (r: INT)
        ensures
            r == signed_of(self.pkNormalPressure),
    {
        reinterpret_signed(self.pkNormalPressure)
    }

    /// The tangent pressure read as a signed number, as a context reports it
    /// that has the tangent pressure in relative mode: the change of the
    /// pressure. The bits are those of `pkTangentPressure`.
    pub fn tangent_pressure_change(&self) -> (r: INT)
        ensures
            r == signed_of(self.pkTangentPressure),
    {
        reinterpret_signed(self.pkTangentPressure)
    }

    /// The position read as three unsigned numbers, as the interface
    /// documents it. The bits are those of `pkXYZ`.
    pub fn position_unsigned(&self) -> (r: XYZ<DWORD>)
        ensures
            r.x == unsigned_of(self.pkXYZ.x),
            r.y == unsigned_of(self.pkXYZ.y),
            r.z == unsigned_of(self.pkXYZ.z),
    {
        XYZ {
            x: reinterpret_unsigned(self.pkXYZ.x),
            y: reinterpret_unsigned(self.pkXYZ.y),
            z: reinterpret_unsigned(self.pkXYZ.z),
        }
    }

    /// The button field read as a button change, as a context reports it
    /// that has the buttons in relative mode: the number of the button in
    /// the low half and the kind of change in the high half. There is none
    /// where the high half names no kind of change.
    pub fn button_change(&self) -> (r: Option<ButtonChange>)
        ensures
            match r {
                Some(change) => change.wire() == le32(self.pkButtons.0),
                None => forall|change: ButtonChange| change.wire() != le32(self.pkButtons.0),
            },
    {
        let bits: u32 = self.pkButtons.0;
        proof {
            lemma_le32_is_two_halves(bits);
        }
        let number: u16 = (bits & 0xffff) as u16;
        let kind_code: u16 = (bits >> 16) as u16;
        match ButtonChangeType::from_code(kind_code) {
            Some(kind) => Some(ButtonChange { button_number: number, change_type: kind }),
            None => {
                assert forall|change: ButtonChange| change.wire() != le32(bits) by {
                    change.lemma_layout();
                    lemma_le16_round_trip(change.change_type.code());
                    lemma_le16_round_trip(kind_code);
                    if change.wire() == le32(bits) {
                        assert(le32(bits).subrange(2, 4) =~= le16(kind_code));
                    }
                }
                None
            },
        }
    }

    /// The bytes that the driver writes for this packet.
    pub fn to_bytes(&self) -> (r: Vec<u8>)
        ensures
            r@ == self.wire(),
            r@.len() == Self::spec_size(),
    {
        let mut out: Vec<u8> = Vec::new();
        push_address(&mut out, self.pkContext.raw());
        push_u32(&mut out, self.pkStatus.bits());
        push_u32(&mut out, self.pkTime);
        push_u32(&mut out, self.pkChanged.bits());
        push_u32(&mut out, self.pkSerialNumber);
        push_u32(&mut out, self.pkCursor);
        push_u32(&mut out, self.pkButtons.0);
        self.pkXYZ.write_to(&mut out);
        push_u32(&mut out, self.pkNormalPressure);
        push_u32(&mut out, self.pkTangentPressure);
        self.pkOrientation.write_to(&mut out);
        self.pkRotation.write_to(&mut out);
        proof {
            self.lemma_layout();
            assert(out@ =~= self.wire());
        }
        out
    }

    /// The packet that `bytes` stand for. There is none where `bytes` are not
    /// exactly as many as the driver writes for a packet.
    pub fn from_bytes(bytes: &[u8]) -> (r: Option<Packet>)
        ensures
            r is Some <==> bytes@.len() == Self::spec_size(),
            match r {
                Some(packet) => packet.wire() == bytes@,
                None => forall|packet: Packet| packet.wire() != bytes@,
            },
    {
        if bytes.len() != Packet::size() {
            assert forall|packet: Packet| packet.wire() != bytes@ by {
                packet.lemma_layout();
            }
            return None;
        }
        let n: usize = address_bytes();
        let packet = Packet {
            pkContext: HCTX::new(read_address(bytes, 0)),
            pkStatus: TPS::from_bits_retain(read_u32(bytes, n + 0)),
            pkTime: read_u32(bytes, n + 4),
            pkChanged: WTPKT::from_bits_retain(read_u32(bytes, n + 8)),
            pkSerialNumber: read_u32(bytes, n + 12),
            pkCursor: read_u32(bytes, n + 16),
            pkButtons: Bitmask(read_u32(bytes, n + 20)),
            pkXYZ: XYZ::<i32>::read_at(bytes, n + 24),
            pkNormalPressure: read_u32(bytes, n + 36),
            pkTangentPressure: read_u32(bytes, n + 40),
            pkOrientation: Orientation::read_at(bytes, n + 44),
            pkRotation: Rotation::read_at(bytes, n + 56),
        };
        proof {
            lemma_from_le32_round_trip(bytes@.subrange(n + 0, n + 4));
            lemma_from_le32_round_trip(bytes@.subrange(n + 4, n + 8));
            lemma_from_le32_round_trip(bytes@.subrange(n + 8, n + 12));
            lemma_from_le32_round_trip(bytes@.subrange(n + 12, n + 16));
            lemma_from_le32_round_trip(bytes@.subrange(n + 16, n + 20));
            lemma_from_le32_round_trip(bytes@.subrange(n + 20, n + 24));
            lemma_from_le32_round_trip(bytes@.subrange(n + 36, n + 40));
            lemma_from_le32_round_trip(bytes@.subrange(n + 40, n + 44));
            packet.lemma_layout();
            assert(packet.wire() =~= bytes@);
        }
        Some(packet)
    }
}
impl Default for Packet {
    /// The packet of zeros, for the driver to write to: the null context, no
    /// flag, every number zero. Its bytes are zeros.
    fn default() -> (r: Packet)
        ensures
            r.is_zero(),
            r.wire() == zeros(Packet::spec_size()),
            r.pkStatus@ == Set::<nat>::empty(),
            r.pkChanged@ == Set::<nat>::empty(),
    {
        let r = Packet {
            pkContext: HCTX::null(),
            pkStatus: TPS::default(),
            pkTime: 0,
            pkChanged: WTPKT::default(),
            pkSerialNumber: 0,
            pkCursor: 0,
            pkButtons: Bitmask(0),
            pkXYZ: XYZ { x: 0, y: 0, z: 0 },
            pkTangentPressure: 0,
            pkNormalPressure: 0,
            pkOrientation: Orientation::default(),
            pkRotation: Rotation::default(),
        };
        proof {
            r.lemma_zero();
        }
        r
    }
}

} // verus!
