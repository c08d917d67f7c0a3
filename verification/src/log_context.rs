//! The description of a context: the record by which a connection to the
//! tablet is asked for, and in which the driver answers.
use crate::bits::{
    below, is_single, lemma_positions_empty_iff_zero, lemma_positions_injective,
    lemma_positions_of_and, lemma_positions_of_and_not, lemma_positions_of_flags,
    lemma_positions_of_low_mask, lemma_positions_of_or, lemma_positions_of_zero,
    lemma_positions_overlap, lemma_positions_subset, lemma_positions_within,
    lemma_single_in_union, lemma_single_not_in_empty, positions,
};
use crate::bitmask::Bitmask;
use crate::c_string_types::{lemma_same_bytes, CString40};
use crate::c_type_aliases::{BOOL, DWORD, FIX32, INT, LONG, UINT};
use crate::coordinate::{XY, XYZ};
use crate::layout::{align_of, end_of, lay_out, offset_of, size_of, FieldShape, RecordShape};
use crate::wire::{
    le32, le32_signed, lemma_from_le32_round_trip, lemma_from_le32_signed_round_trip,
    lemma_append, lemma_le32_of_zero, lemma_le32_round_trip, lemma_le32_signed_round_trip,
    lemma_zeros_append, push_i32, push_u32, read_i32, read_u32, zeros,
};
use crate::wtpkt::WTPKT;
use vstd::prelude::*;

verus! {

/// Everything that an application or the driver needs to know of a context. It
/// is handed to the driver when a context is opened, and the driver changes it
/// in answer: it goes in and comes out.
///
/// The move mask and the two button masks together say which events the context
/// processes.
#[allow(non_snake_case)]
#[derive(Clone, Copy, Debug, PartialEq, Eq)]
pub struct LOGCONTEXT {
    /// The name of the context, ended by a zero byte.
    pub lcName: CString40,
    /// The options of the context. Opening a context with an option that the
    /// driver does not support fails.
    pub lcOptions: CXO,
    /// The current status of the context.
    pub lcStatus: CXS,
    /// The attributes of the context that cannot be changed once it is open.
    pub lcLocks: CXL,
    /// The first of the message numbers by which the context reports.
    pub lcMsgBase: UINT,
    /// The device whose input the context processes.
    pub lcDevice: UINT,
    /// The packet rate that is asked for, in Hertz. Once the context is open,
    /// the rate that it has.
    pub lcPktRate: UINT,
    /// The optional data items that the context's packets hold. Opening a
    /// context with an item that the driver does not support fails.
    pub lcPktData: WTPKT,
    /// The data items that are reported relative to the packet before. The
    /// empty set: every item is absolute.
    pub lcPktMode: WTPKT,
    /// The data items whose change makes a move event.
    pub lcMoveMask: WTPKT,
    /// The buttons whose press is an event of the context.
    pub lcBtnDnMask: Bitmask<DWORD>,
    /// The buttons whose release is an event of the context.
    pub lcBtnUpMask: Bitmask<DWORD>,
    /// The origin of the input area, in the tablet's own coordinates.
    pub lcInOrgXYZ: XYZ<LONG>,
    /// The extent of the input area, in the tablet's own coordinates.
    pub lcInExtXYZ: XYZ<LONG>,
    /// The origin of the output area, in the context's output coordinates.
    pub lcOutOrgXYZ: XYZ<LONG>,
    /// The extent of the output area, in the context's output coordinates.
    pub lcOutExtXYZ: XYZ<LONG>,
    /// The sensitivity in relative mode.
    pub lcSensXYZ: XYZ<FIX32>,
    /// How the system cursor is tracked: zero for absolute, anything else for
    /// relative.
    pub lcSysMode: BOOL,
    /// The origin of the screen mapping area, in screen coordinates.
    pub lcSysOrgXY: XY<INT>,
    /// The extent of the screen mapping area, in screen coordinates.
    pub lcSysExtXY: XY<INT>,
    /// The sensitivity of the system cursor in relative mode.
    pub lcSysSensXY: XY<FIX32>,
}

impl LOGCONTEXT {
    /// The number of bytes that the driver reads and writes for a context.
    pub const SIZE: usize = 172;

    /// The bytes that the driver reads and writes for the context: its fields
    /// one after the other, with nothing between them.
    pub open spec fn wire(self) -> Seq<u8> {
        self.lcName.spec_bytes()
            + le32(self.lcOptions.bits())
            + le32(self.lcStatus.bits())
            + le32(self.lcLocks.bits())
            + le32(self.lcMsgBase)
            + le32(self.lcDevice)
            + le32(self.lcPktRate)
            + le32(self.lcPktData.bits())
            + le32(self.lcPktMode.bits())
            + le32(self.lcMoveMask.bits())
            + le32(self.lcBtnDnMask.0)
            + le32(self.lcBtnUpMask.0)
            + self.lcInOrgXYZ.wire()
            + self.lcInExtXYZ.wire()
            + self.lcOutOrgXYZ.wire()
            + self.lcOutExtXYZ.wire()
            + self.lcSensXYZ.wire()
            + le32_signed(self.lcSysMode)
            + self.lcSysOrgXY.wire()
            + self.lcSysExtXY.wire()
            + self.lcSysSensXY.wire()
    }

    /// Where each field stands among the bytes, and how many they are.
    pub proof fn lemma_layout(self)
        ensures
            self.wire().len() == 172,
            self.wire().subrange(0, 40) == self.lcName.spec_bytes(),
            self.wire().subrange(40, 44) == le32(self.lcOptions.bits()),
            self.wire().subrange(44, 48) == le32(self.lcStatus.bits()),
            self.wire().subrange(48, 52) == le32(self.lcLocks.bits()),
            self.wire().subrange(52, 56) == le32(self.lcMsgBase),
            self.wire().subrange(56, 60) == le32(self.lcDevice),
            self.wire().subrange(60, 64) == le32(self.lcPktRate),
            self.wire().subrange(64, 68) == le32(self.lcPktData.bits()),
            self.wire().subrange(68, 72) == le32(self.lcPktMode.bits()),
            self.wire().subrange(72, 76) == le32(self.lcMoveMask.bits()),
            self.wire().subrange(76, 80) == le32(self.lcBtnDnMask.0),
            self.wire().subrange(80, 84) == le32(self.lcBtnUpMask.0),
            self.wire().subrange(84, 96) == self.lcInOrgXYZ.wire(),
            self.wire().subrange(96, 108) == self.lcInExtXYZ.wire(),
            self.wire().subrange(108, 120) == self.lcOutOrgXYZ.wire(),
            self.wire().subrange(120, 132) == self.lcOutExtXYZ.wire(),
            self.wire().subrange(132, 144) == self.lcSensXYZ.wire(),
            self.wire().subrange(144, 148) == le32_signed(self.lcSysMode),
            self.wire().subrange(148, 156) == self.lcSysOrgXY.wire(),
            self.wire().subrange(156, 164) == self.lcSysExtXY.wire(),
            self.wire().subrange(164, 172) == self.lcSysSensXY.wire(),
    {
        self.lcName.lemma_len();
        self.lcInOrgXYZ.lemma_layout();
        self.lcInExtXYZ.lemma_layout();
        self.lcOutOrgXYZ.lemma_layout();
        self.lcOutExtXYZ.lemma_layout();
        self.lcSensXYZ.lemma_layout();
        self.lcSysOrgXY.lemma_layout();
        self.lcSysExtXY.lemma_layout();
        self.lcSysSensXY.lemma_layout();
        let head40 = self.lcName.spec_bytes();
        assert(head40.subrange(0, 40) =~= head40);
        let head44 = head40 + le32(self.lcOptions.bits());
        lemma_append(head40, le32(self.lcOptions.bits()));
        let head48 = head44 + le32(self.lcStatus.bits());
        lemma_append(head44, le32(self.lcStatus.bits()));
        let head52 = head48 + le32(self.lcLocks.bits());
        lemma_append(head48, le32(self.lcLocks.bits()));
        let head56 = head52 + le32(self.lcMsgBase);
        lemma_append(head52, le32(self.lcMsgBase));
        let head60 = head56 + le32(self.lcDevice);
        lemma_append(head56, le32(self.lcDevice));
        let head64 = head60 + le32(self.lcPktRate);
        lemma_append(head60, le32(self.lcPktRate));
        let head68 = head64 + le32(self.lcPktData.bits());
        lemma_append(head64, le32(self.lcPktData.bits()));
        let head72 = head68 + le32(self.lcPktMode.bits());
        lemma_append(head68, le32(self.lcPktMode.bits()));
        let head76 = head72 + le32(self.lcMoveMask.bits());
        lemma_append(head72, le32(self.lcMoveMask.bits()));
        let head80 = head76 + le32(self.lcBtnDnMask.0);
        lemma_append(head76, le32(self.lcBtnDnMask.0));
        let head84 = head80 + le32(self.lcBtnUpMask.0);
        lemma_append(head80, le32(self.lcBtnUpMask.0));
        let head96 = head84 + self.lcInOrgXYZ.wire();
        lemma_append(head84, self.lcInOrgXYZ.wire());
        let head108 = head96 + self.lcInExtXYZ.wire();
        lemma_append(head96, self.lcInExtXYZ.wire());
        let head120 = head108 + self.lcOutOrgXYZ.wire();
        lemma_append(head108, self.lcOutOrgXYZ.wire());
        let head132 = head120 + self.lcOutExtXYZ.wire();
        lemma_append(head120, self.lcOutExtXYZ.wire());
        let head144 = head132 + self.lcSensXYZ.wire();
        lemma_append(head132, self.lcSensXYZ.wire());
        let head148 = head144 + le32_signed(self.lcSysMode);
        lemma_append(head144, le32_signed(self.lcSysMode));
        let head156 = head148 + self.lcSysOrgXY.wire();
        lemma_append(head148, self.lcSysOrgXY.wire());
        let head164 = head156 + self.lcSysExtXY.wire();
        lemma_append(head156, self.lcSysExtXY.wire());
        let head172 = head164 + self.lcSysSensXY.wire();
        lemma_append(head164, self.lcSysSensXY.wire());
        assert(self.wire() == head172);
    }

    /// Two contexts with the same bytes are the same context.
    pub proof fn lemma_wire_injective(a: LOGCONTEXT, b: LOGCONTEXT)
        requires
            a.wire() == b.wire(),
        ensures
            a == b,
    {
        a.lemma_layout();
        b.lemma_layout();
        lemma_same_bytes(a.lcName, b.lcName);
        lemma_le32_round_trip(a.lcOptions.bits());
        lemma_le32_round_trip(b.lcOptions.bits());
        CXO::lemma_same_bits(a.lcOptions, b.lcOptions);
        lemma_le32_round_trip(a.lcStatus.bits());
        lemma_le32_round_trip(b.lcStatus.bits());
        CXS::lemma_same_bits(a.lcStatus, b.lcStatus);
        lemma_le32_round_trip(a.lcLocks.bits());
        lemma_le32_round_trip(b.lcLocks.bits());
        CXL::lemma_same_bits(a.lcLocks, b.lcLocks);
        lemma_le32_round_trip(a.lcMsgBase);
        lemma_le32_round_trip(b.lcMsgBase);
        lemma_le32_round_trip(a.lcDevice);
        lemma_le32_round_trip(b.lcDevice);
        lemma_le32_round_trip(a.lcPktRate);
        lemma_le32_round_trip(b.lcPktRate);
        lemma_le32_round_trip(a.lcPktData.bits());
        lemma_le32_round_trip(b.lcPktData.bits());
        WTPKT::lemma_same_bits(a.lcPktData, b.lcPktData);
        lemma_le32_round_trip(a.lcPktMode.bits());
        lemma_le32_round_trip(b.lcPktMode.bits());
        WTPKT::lemma_same_bits(a.lcPktMode, b.lcPktMode);
        lemma_le32_round_trip(a.lcMoveMask.bits());
        lemma_le32_round_trip(b.lcMoveMask.bits());
        WTPKT::lemma_same_bits(a.lcMoveMask, b.lcMoveMask);
        lemma_le32_round_trip(a.lcBtnDnMask.0);
        lemma_le32_round_trip(b.lcBtnDnMask.0);
        lemma_le32_round_trip(a.lcBtnUpMask.0);
        lemma_le32_round_trip(b.lcBtnUpMask.0);
        XYZ::<i32>::lemma_wire_injective(a.lcInOrgXYZ, b.lcInOrgXYZ);
        XYZ::<i32>::lemma_wire_injective(a.lcInExtXYZ, b.lcInExtXYZ);
        XYZ::<i32>::lemma_wire_injective(a.lcOutOrgXYZ, b.lcOutOrgXYZ);
        XYZ::<i32>::lemma_wire_injective(a.lcOutExtXYZ, b.lcOutExtXYZ);
        XYZ::<FIX32>::lemma_wire_injective(a.lcSensXYZ, b.lcSensXYZ);
        lemma_le32_signed_round_trip(a.lcSysMode);
        lemma_le32_signed_round_trip(b.lcSysMode);
        XY::<i32>::lemma_wire_injective(a.lcSysOrgXY, b.lcSysOrgXY);
        XY::<i32>::lemma_wire_injective(a.lcSysExtXY, b.lcSysExtXY);
        XY::<FIX32>::lemma_wire_injective(a.lcSysSensXY, b.lcSysSensXY);
    }

    /// The bytes that the driver reads and writes for this context.
    pub fn to_bytes(&self) -> (r: Vec<u8>)
        ensures
            r@ == self.wire(),
            r@.len() == Self::SIZE,
    {
        let mut out: Vec<u8> = Vec::new();
        self.lcName.write_to(&mut out);
        push_u32(&mut out, self.lcOptions.bits());
        push_u32(&mut out, self.lcStatus.bits());
        push_u32(&mut out, self.lcLocks.bits());
        push_u32(&mut out, self.lcMsgBase);
        push_u32(&mut out, self.lcDevice);
        push_u32(&mut out, self.lcPktRate);
        push_u32(&mut out, self.lcPktData.bits());
        push_u32(&mut out, self.lcPktMode.bits());
        push_u32(&mut out, self.lcMoveMask.bits());
        push_u32(&mut out, self.lcBtnDnMask.0);
        push_u32(&mut out, self.lcBtnUpMask.0);
        self.lcInOrgXYZ.write_to(&mut out);
        self.lcInExtXYZ.write_to(&mut out);
        self.lcOutOrgXYZ.write_to(&mut out);
        self.lcOutExtXYZ.write_to(&mut out);
        self.lcSensXYZ.write_to(&mut out);
        push_i32(&mut out, self.lcSysMode);
        self.lcSysOrgXY.write_to(&mut out);
        self.lcSysExtXY.write_to(&mut out);
        self.lcSysSensXY.write_to(&mut out);
        proof {
            self.lemma_layout();
            assert(out@ =~= self.wire());
        }
        out
    }

    /// The context that `bytes` stand for. There is none where `bytes` are
    /// not exactly as many as the driver writes for a context.
    pub fn from_bytes(bytes: &[u8]) -> (r: Option<LOGCONTEXT>)
        ensures
            r is Some <==> bytes@.len() == Self::SIZE,
            match r {
                Some(context) => context.wire() == bytes@,
                None => forall|context: LOGCONTEXT| context.wire() != bytes@,
            },
    {
        if bytes.len() != LOGCONTEXT::SIZE {
            assert forall|context: LOGCONTEXT| context.wire() != bytes@ by {
                context.lemma_layout();
            }
            return None;
        }
        let context = LOGCONTEXT {
            lcName: CString40::read_at(bytes, 0),
            lcOptions: CXO::from_bits_retain(read_u32(bytes, 40)),
            lcStatus: CXS::from_bits_retain(read_u32(bytes, 44)),
            lcLocks: CXL::from_bits_retain(read_u32(bytes, 48)),
            lcMsgBase: read_u32(bytes, 52),
            lcDevice: read_u32(bytes, 56),
            lcPktRate: read_u32(bytes, 60),
            lcPktData: WTPKT::from_bits_retain(read_u32(bytes, 64)),
            lcPktMode: WTPKT::from_bits_retain(read_u32(bytes, 68)),
            lcMoveMask: WTPKT::from_bits_retain(read_u32(bytes, 72)),
            lcBtnDnMask: Bitmask(read_u32(bytes, 76)),
            lcBtnUpMask: Bitmask(read_u32(bytes, 80)),
            lcInOrgXYZ: XYZ::<i32>::read_at(bytes, 84),
            lcInExtXYZ: XYZ::<i32>::read_at(bytes, 96),
            lcOutOrgXYZ: XYZ::<i32>::read_at(bytes, 108),
            lcOutExtXYZ: XYZ::<i32>::read_at(bytes, 120),
            lcSensXYZ: XYZ::<FIX32>::read_at(bytes, 132),
            lcSysMode: read_i32(bytes, 144),
            lcSysOrgXY: XY::<i32>::read_at(bytes, 148),
            lcSysExtXY: XY::<i32>::read_at(bytes, 156),
            lcSysSensXY: XY::<FIX32>::read_at(bytes, 164),
        };
        proof {
            lemma_from_le32_round_trip(bytes@.subrange(40, 44));
            lemma_from_le32_round_trip(bytes@.subrange(44, 48));
            lemma_from_le32_round_trip(bytes@.subrange(48, 52));
            lemma_from_le32_round_trip(bytes@.subrange(52, 56));
            lemma_from_le32_round_trip(bytes@.subrange(56, 60));
            lemma_from_le32_round_trip(bytes@.subrange(60, 64));
            lemma_from_le32_round_trip(bytes@.subrange(64, 68));
            lemma_from_le32_round_trip(bytes@.subrange(68, 72));
            lemma_from_le32_round_trip(bytes@.subrange(72, 76));
            lemma_from_le32_round_trip(bytes@.subrange(76, 80));
            lemma_from_le32_round_trip(bytes@.subrange(80, 84));
            lemma_from_le32_signed_round_trip(bytes@.subrange(144, 148));
            context.lemma_layout();
            assert(context.wire() =~= bytes@);
        }
        Some(context)
    }

    /// The size and the alignment of each field of a context, in the order in
    /// which the fields stand.
    pub open spec fn field_shapes() -> Seq<FieldShape> {
        seq![
            FieldShape { size: 40, align: 1 },
            FieldShape { size: 4, align: 4 },
            FieldShape { size: 4, align: 4 },
            FieldShape { size: 4, align: 4 },
            FieldShape { size: 4, align: 4 },
            FieldShape { size: 4, align: 4 },
            FieldShape { size: 4, align: 4 },
            FieldShape { size: 4, align: 4 },
            FieldShape { size: 4, align: 4 },
            FieldShape { size: 4, align: 4 },
            FieldShape { size: 4, align: 4 },
            FieldShape { size: 4, align: 4 },
            FieldShape { size: 12, align: 4 },
            FieldShape { size: 12, align: 4 },
            FieldShape { size: 12, align: 4 },
            FieldShape { size: 12, align: 4 },
            FieldShape { size: 12, align: 4 },
            FieldShape { size: 4, align: 4 },
            FieldShape { size: 8, align: 4 },
            FieldShape { size: 8, align: 4 },
            FieldShape { size: 8, align: 4 },
        ]
    }

    /// By the rules of C the fields of a context follow one another with nothing
    /// between them, and the record ends behind its last field: each field
    /// stands where the bytes of the record have it.
    pub proof fn lemma_shape()
        ensures
            size_of(Self::field_shapes(), 0) == 172,
            align_of(Self::field_shapes(), 0, 21) == 4,
            offset_of(Self::field_shapes(), 0, 0) == 0,
            offset_of(Self::field_shapes(), 0, 1) == 40,
            offset_of(Self::field_shapes(), 0, 2) == 44,
            offset_of(Self::field_shapes(), 0, 3) == 48,
            offset_of(Self::field_shapes(), 0, 4) == 52,
            offset_of(Self::field_shapes(), 0, 5) == 56,
            offset_of(Self::field_shapes(), 0, 6) == 60,
            offset_of(Self::field_shapes(), 0, 7) == 64,
            offset_of(Self::field_shapes(), 0, 8) == 68,
            offset_of(Self::field_shapes(), 0, 9) == 72,
            offset_of(Self::field_shapes(), 0, 10) == 76,
            offset_of(Self::field_shapes(), 0, 11) == 80,
            offset_of(Self::field_shapes(), 0, 12) == 84,
            offset_of(Self::field_shapes(), 0, 13) == 96,
            offset_of(Self::field_shapes(), 0, 14) == 108,
            offset_of(Self::field_shapes(), 0, 15) == 120,
            offset_of(Self::field_shapes(), 0, 16) == 132,
            offset_of(Self::field_shapes(), 0, 17) == 144,
            offset_of(Self::field_shapes(), 0, 18) == 148,
            offset_of(Self::field_shapes(), 0, 19) == 156,
            offset_of(Self::field_shapes(), 0, 20) == 164,
    {
        let fields = Self::field_shapes();
        assert(end_of(fields, 0, 0) == 0);
        assert(align_of(fields, 0, 0) == 1);
        assert(end_of(fields, 0, 1) == 40);
        assert(align_of(fields, 0, 1) == 1);
        assert(end_of(fields, 0, 2) == 44);
        assert(align_of(fields, 0, 2) == 4);
        assert(end_of(fields, 0, 3) == 48);
        assert(align_of(fields, 0, 3) == 4);
        assert(end_of(fields, 0, 4) == 52);
        assert(align_of(fields, 0, 4) == 4);
        assert(end_of(fields, 0, 5) == 56);
        assert(align_of(fields, 0, 5) == 4);
        assert(end_of(fields, 0, 6) == 60);
        assert(align_of(fields, 0, 6) == 4);
        assert(end_of(fields, 0, 7) == 64);
        assert(align_of(fields, 0, 7) == 4);
        assert(end_of(fields, 0, 8) == 68);
        assert(align_of(fields, 0, 8) == 4);
        assert(end_of(fields, 0, 9) == 72);
        assert(align_of(fields, 0, 9) == 4);
        assert(end_of(fields, 0, 10) == 76);
        assert(align_of(fields, 0, 10) == 4);
        assert(end_of(fields, 0, 11) == 80);
        assert(align_of(fields, 0, 11) == 4);
        assert(end_of(fields, 0, 12) == 84);
        assert(align_of(fields, 0, 12) == 4);
        assert(end_of(fields, 0, 13) == 96);
        assert(align_of(fields, 0, 13) == 4);
        assert(end_of(fields, 0, 14) == 108);
        assert(align_of(fields, 0, 14) == 4);
        assert(end_of(fields, 0, 15) == 120);
        assert(align_of(fields, 0, 15) == 4);
        assert(end_of(fields, 0, 16) == 132);
        assert(align_of(fields, 0, 16) == 4);
        assert(end_of(fields, 0, 17) == 144);
        assert(align_of(fields, 0, 17) == 4);
        assert(end_of(fields, 0, 18) == 148);
        assert(align_of(fields, 0, 18) == 4);
        assert(end_of(fields, 0, 19) == 156);
        assert(align_of(fields, 0, 19) == 4);
        assert(end_of(fields, 0, 20) == 164);
        assert(align_of(fields, 0, 20) == 4);
        assert(end_of(fields, 0, 21) == 172);
        assert(align_of(fields, 0, 21) == 4);
    }

    /// The shape of a context in memory, by the rules of C: where each field
    /// stands, the number of bytes, and the alignment.
    pub fn shape() -> (r: RecordShape)
        ensures
            r.size == size_of(Self::field_shapes(), 0),
            r.align == align_of(Self::field_shapes(), 0, 21),
            r.offsets@.len() == 21,
            forall|k: int| 0 <= k < 21 ==> r.offsets@[k] == offset_of(Self::field_shapes(), 0, k),
            r.size == 172,
            r.align == 4,
            r.offsets@ == seq![0usize, 40usize, 44usize, 48usize, 52usize, 56usize, 60usize, 64usize, 68usize, 72usize, 76usize, 80usize, 84usize, 96usize, 108usize, 120usize, 132usize, 144usize, 148usize, 156usize, 164usize],
    {
        let fields: Vec<FieldShape> = vec![
            FieldShape { size: 40, align: 1 },
            FieldShape { size: 4, align: 4 },
            FieldShape { size: 4, align: 4 },
            FieldShape { size: 4, align: 4 },
            FieldShape { size: 4, align: 4 },
            FieldShape { size: 4, align: 4 },
            FieldShape { size: 4, align: 4 },
            FieldShape { size: 4, align: 4 },
            FieldShape { size: 4, align: 4 },
            FieldShape { size: 4, align: 4 },
            FieldShape { size: 4, align: 4 },
            FieldShape { size: 4, align: 4 },
            FieldShape { size: 12, align: 4 },
            FieldShape { size: 12, align: 4 },
            FieldShape { size: 12, align: 4 },
            FieldShape { size: 12, align: 4 },
            FieldShape { size: 12, align: 4 },
            FieldShape { size: 4, align: 4 },
            FieldShape { size: 8, align: 4 },
            FieldShape { size: 8, align: 4 },
            FieldShape { size: 8, align: 4 },
        ];
        proof {
            assert(fields@ =~= Self::field_shapes());
            Self::lemma_shape();
        }
        let shape: RecordShape = lay_out(&fields, 0).unwrap();
        assert(shape.offsets@ =~= seq![0usize, 40usize, 44usize, 48usize, 52usize, 56usize, 60usize, 64usize, 68usize, 72usize, 76usize, 80usize, 84usize, 96usize, 108usize, 120usize, 132usize, 144usize, 148usize, 156usize, 164usize]);
        shape
    }

    /// True of the context of zeros: no name, no option, every number zero.
    pub open spec fn is_zero(self) -> bool {
        &&& self.lcName.spec_bytes() == zeros(40)
        &&& self.lcOptions.bits() == 0
        &&& self.lcStatus.bits() == 0
        &&& self.lcLocks.bits() == 0
        &&& self.lcMsgBase == 0
        &&& self.lcDevice == 0
        &&& self.lcPktRate == 0
        &&& self.lcPktData.bits() == 0
        &&& self.lcPktMode.bits() == 0
        &&& self.lcMoveMask.bits() == 0
        &&& self.lcBtnDnMask.0 == 0
        &&& self.lcBtnUpMask.0 == 0
        &&& self.lcInOrgXYZ.x == 0 && self.lcInOrgXYZ.y == 0 && self.lcInOrgXYZ.z == 0
        &&& self.lcInExtXYZ.x == 0 && self.lcInExtXYZ.y == 0 && self.lcInExtXYZ.z == 0
        &&& self.lcOutOrgXYZ.x == 0 && self.lcOutOrgXYZ.y == 0 && self.lcOutOrgXYZ.z == 0
        &&& self.lcOutExtXYZ.x == 0 && self.lcOutExtXYZ.y == 0 && self.lcOutExtXYZ.z == 0
        &&& self.lcSensXYZ.x.raw() == 0 && self.lcSensXYZ.y.raw() == 0 && self.lcSensXYZ.z.raw() == 0
        &&& self.lcSysMode == 0
        &&& self.lcSysOrgXY.x == 0 && self.lcSysOrgXY.y == 0
        &&& self.lcSysExtXY.x == 0 && self.lcSysExtXY.y == 0
        &&& self.lcSysSensXY.x.raw() == 0 && self.lcSysSensXY.y.raw() == 0
    }

    /// The bytes of the context of zeros are zeros, 172 of them.
    pub proof fn lemma_zero(self)
        requires
            self.is_zero(),
        ensures
            self.wire() == zeros(172),
    {
        lemma_le32_of_zero();
        lemma_zeros_append(4, 4);
        lemma_zeros_append(8, 4);
        let head40 = self.lcName.spec_bytes();
        assert(head40 == zeros(40));
        let head44 = head40 + le32(self.lcOptions.bits());
        lemma_zeros_append(40, 4);
        assert(head44 == zeros(44));
        let head48 = head44 + le32(self.lcStatus.bits());
        lemma_zeros_append(44, 4);
        assert(head48 == zeros(48));
        let head52 = head48 + le32(self.lcLocks.bits());
        lemma_zeros_append(48, 4);
        assert(head52 == zeros(52));
        let head56 = head52 + le32(self.lcMsgBase);
        lemma_zeros_append(52, 4);
        assert(head56 == zeros(56));
        let head60 = head56 + le32(self.lcDevice);
        lemma_zeros_append(56, 4);
        assert(head60 == zeros(60));
        let head64 = head60 + le32(self.lcPktRate);
        lemma_zeros_append(60, 4);
        assert(head64 == zeros(64));
        let head68 = head64 + le32(self.lcPktData.bits());
        lemma_zeros_append(64, 4);
        assert(head68 == zeros(68));
        let head72 = head68 + le32(self.lcPktMode.bits());
        lemma_zeros_append(68, 4);
        assert(head72 == zeros(72));
        let head76 = head72 + le32(self.lcMoveMask.bits());
        lemma_zeros_append(72, 4);
        assert(head76 == zeros(76));
        let head80 = head76 + le32(self.lcBtnDnMask.0);
        lemma_zeros_append(76, 4);
        assert(head80 == zeros(80));
        let head84 = head80 + le32(self.lcBtnUpMask.0);
        lemma_zeros_append(80, 4);
        assert(head84 == zeros(84));
        let head96 = head84 + self.lcInOrgXYZ.wire();
        lemma_zeros_append(84, 12);
        assert(head96 == zeros(96));
        let head108 = head96 + self.lcInExtXYZ.wire();
        lemma_zeros_append(96, 12);
        assert(head108 == zeros(108));
        let head120 = head108 + self.lcOutOrgXYZ.wire();
        lemma_zeros_append(108, 12);
        assert(head120 == zeros(120));
        let head132 = head120 + self.lcOutExtXYZ.wire();
        lemma_zeros_append(120, 12);
        assert(head132 == zeros(132));
        let head144 = head132 + self.lcSensXYZ.wire();
        lemma_zeros_append(132, 12);
        assert(head144 == zeros(144));
        let head148 = head144 + le32_signed(self.lcSysMode);
        lemma_zeros_append(144, 4);
        assert(head148 == zeros(148));
        let head156 = head148 + self.lcSysOrgXY.wire();
        lemma_zeros_append(148, 8);
        assert(head156 == zeros(156));
        let head164 = head156 + self.lcSysExtXY.wire();
        lemma_zeros_append(156, 8);
        assert(head164 == zeros(164));
        let head172 = head164 + self.lcSysSensXY.wire();
        lemma_zeros_append(164, 8);
        assert(head172 == zeros(172));
        assert(self.wire() == head172);
    }
}
impl Default for LOGCONTEXT {
    /// The context of zeros: no name, no option, every number zero. It is
    /// what the driver is given to write a context to; its bytes are 172 zeros.
    fn default() -> (r: LOGCONTEXT)
        ensures
            r.is_zero(),
            r.wire() == zeros(172),
            r.lcName.text() == Seq::<char>::empty(),
            r.lcOptions@ == Set::<nat>::empty(),
            r.lcStatus@ == Set::<nat>::empty(),
            r.lcLocks@ == Set::<nat>::empty(),
            r.lcPktData@ == Set::<nat>::empty(),
            r.lcPktMode@ == Set::<nat>::empty(),
            r.lcMoveMask@ == Set::<nat>::empty(),
    {
        let r = LOGCONTEXT {
            lcName: CString40::default(),
            lcOptions: CXO::empty(),
            lcStatus: CXS::empty(),
            lcLocks: CXL::empty(),
            lcMsgBase: 0,
            lcDevice: 0,
            lcPktRate: 0,
            lcPktData: WTPKT::empty(),
            lcPktMode: WTPKT::empty(),
            lcMoveMask: WTPKT::empty(),
            lcBtnDnMask: Bitmask(0),
            lcBtnUpMask: Bitmask(0),
            lcInOrgXYZ: XYZ::default(),
            lcInExtXYZ: XYZ::default(),
            lcOutOrgXYZ: XYZ::default(),
            lcOutExtXYZ: XYZ::default(),
            lcSensXYZ: XYZ::default(),
            lcSysMode: 0,
            lcSysOrgXY: XY::default(),
            lcSysExtXY: XY::default(),
            lcSysSensXY: XY::default(),
        };
        proof {
            assert(r.lcName.spec_bytes() =~= zeros(40));
            r.lemma_zero();
        }
        r
    }
}

/// The options of a context: the field `lcOptions` of `LOGCONTEXT`.
#[derive(Clone, Copy, Debug, PartialEq, Eq, Structural)]
pub struct CXO {
    bits: u32,
}

impl View for CXO {
    type V = Set<nat>;

    /// The positions of the bits that are one.
    open spec fn view(&self) -> Set<nat> {
        positions(self.spec_bits())
    }
}

impl CXO {
    /// The word that backs the set.
    pub closed spec fn spec_bits(&self) -> u32 {
        self.bits
    }

    /// The positions of the options that have a name.
    pub open spec fn defined() -> Set<nat> {
        set![0nat, 1nat, 2nat, 3nat, 14nat, 15nat]
    }

    /// The word with a one for each named flag stands for the named positions.
    proof fn lemma_all_bits()
        ensures
            positions(0xC00F) == Self::defined(),
    {
        lemma_positions_of_low_mask(4);
        lemma_positions_of_flags();
        assert(((1u32 << 4u32) - 1) as u32 == 0xF && 0xFu32 | 0x4000u32 | 0x8000u32 == 0xC00Fu32) by (bit_vector);
        lemma_positions_of_or(0xFu32, 0x4000u32);
        lemma_positions_of_or(0xFu32 | 0x4000u32, 0x8000u32);
        assert(positions(0xC00F) =~= Self::defined());
    }

    /// Two sets with the same positions are the same set.
    pub proof fn lemma_same_view(a: CXO, b: CXO)
        requires
            a@ == b@,
        ensures
            a == b,
    {
        lemma_positions_injective(a.bits, b.bits);
    }

    /// Two sets backed by the same word are the same set.
    pub proof fn lemma_same_bits(a: CXO, b: CXO)
        requires
            a.bits() == b.bits(),
        ensures
            a == b,
    {
    }

    /// A single flag lies in the union of two sets exactly when it lies in
    /// one of them, and it never lies in the empty set.
    pub proof fn lemma_single_flag(a: CXO, b: CXO, f: CXO)
        requires
            is_single(f@),
        ensures
            f@.subset_of(a@.union(b@)) <==> (f@.subset_of(a@) || f@.subset_of(b@)),
            !f@.subset_of(Set::<nat>::empty()),
    {
        lemma_single_in_union(a@, b@, f@);
        lemma_single_not_in_empty(f@);
    }

    /// The set without any flag.
    pub fn empty() -> (r: CXO)
        ensures
            r.bits() == 0,
            r@ == Set::<nat>::empty(),
    {
        proof {
            lemma_positions_of_zero();
        }
        CXO { bits: 0 }
    }

    /// The set of every named flag, and of nothing else.
    pub fn all() -> (r: CXO)
        ensures
            r.bits() == 0xC00F,
            r@ == Self::defined(),
    {
        proof {
            Self::lemma_all_bits();
        }
        CXO { bits: 0xC00F }
    }

    /// The word that backs the set, as it is handed to the driver.
    #[verifier::when_used_as_spec(spec_bits)]
    pub fn bits(&self) -> (r: u32)
        ensures
            r == self.bits(),
    {
        self.bits
    }

    /// The set that `bits` stands for, unless `bits` has a one where no flag
    /// has a name.
    pub fn from_bits(bits: u32) -> (r: Option<CXO>)
        ensures
            r is Some <==> positions(bits).subset_of(Self::defined()),
            r matches Some(set) ==> set.bits() == bits,
    {
        proof {
            Self::lemma_all_bits();
            lemma_positions_within(bits, 0xC00F);
        }
        if bits & !0xC00F == 0 {
            Some(CXO { bits })
        } else {
            None
        }
    }

    /// The named flags among the ones of `bits`; the other ones are dropped.
    pub fn from_bits_truncate(bits: u32) -> (r: CXO)
        ensures
            r.bits() == bits & 0xC00F,
            r@ == positions(bits).intersect(Self::defined()),
    {
        proof {
            Self::lemma_all_bits();
            lemma_positions_of_and(bits, 0xC00F);
        }
        CXO { bits: bits & 0xC00F }
    }

    /// The set that `bits` stands for, with every one kept, named or not.
    pub fn from_bits_retain(bits: u32) -> (r: CXO)
        ensures
            r.bits() == bits,
    {
        CXO { bits }
    }

    /// True when the set holds nothing.
    pub fn is_empty(&self) -> (r: bool)
        ensures
            r == (self@ == Set::<nat>::empty()),
            r == (self.bits() == 0),
    {
        proof {
            lemma_positions_empty_iff_zero(self.bits);
        }
        self.bits == 0
    }

    /// True when the set holds every named flag.
    pub fn is_all(&self) -> (r: bool)
        ensures
            r == Self::defined().subset_of(self@),
    {
        proof {
            Self::lemma_all_bits();
            lemma_positions_subset(self.bits, 0xC00F);
        }
        self.bits & 0xC00F == 0xC00F
    }

    /// True when the set holds everything that `other` holds.
    pub fn contains(&self, other: CXO) -> (r: bool)
        ensures
            r == other@.subset_of(self@),
    {
        proof {
            lemma_positions_subset(self.bits, other.bits);
        }
        self.bits & other.bits == other.bits
    }

    /// True when the set and `other` have something in common.
    pub fn intersects(&self, other: CXO) -> (r: bool)
        ensures
            r == !self@.disjoint(other@),
    {
        proof {
            lemma_positions_overlap(self.bits, other.bits);
        }
        self.bits & other.bits != 0
    }

    /// What is in the set or in `other`.
    pub fn union(self, other: CXO) -> (r: CXO)
        ensures
            r@ == self@.union(other@),
            r.bits() == self.bits() | other.bits(),
    {
        proof {
            lemma_positions_of_or(self.bits, other.bits);
        }
        CXO { bits: self.bits | other.bits }
    }

    /// What is in the set and in `other`.
    pub fn intersection(self, other: CXO) -> (r: CXO)
        ensures
            r@ == self@.intersect(other@),
            r.bits() == self.bits() & other.bits(),
    {
        proof {
            lemma_positions_of_and(self.bits, other.bits);
        }
        CXO { bits: self.bits & other.bits }
    }

    /// What is in the set and not in `other`.
    pub fn difference(self, other: CXO) -> (r: CXO)
        ensures
            r@ == self@.difference(other@),
            r.bits() == self.bits() & !other.bits(),
    {
        proof {
            lemma_positions_of_and_not(self.bits, other.bits);
        }
        CXO { bits: self.bits & !other.bits }
    }

    /// The named flags that are not in the set.
    pub fn complement(self) -> (r: CXO)
        ensures
            r@ == Self::defined().difference(self@),
            r.bits() == 0xC00F & !self.bits(),
    {
        proof {
            Self::lemma_all_bits();
            lemma_positions_of_and_not(0xC00F, self.bits);
        }
        CXO { bits: 0xC00F & !self.bits }
    }

    /// Adds what `other` holds to the set.
    pub fn insert(&mut self, other: CXO)
        ensures
            final(self)@ == old(self)@.union(other@),
            final(self).bits() == old(self).bits() | other.bits(),
    {
        proof {
            lemma_positions_of_or(self.bits, other.bits);
        }
        self.bits = self.bits | other.bits;
    }

    /// Takes what `other` holds out of the set.
    pub fn remove(&mut self, other: CXO)
        ensures
            final(self)@ == old(self)@.difference(other@),
            final(self).bits() == old(self).bits() & !other.bits(),
    {
        proof {
            lemma_positions_of_and_not(self.bits, other.bits);
        }
        self.bits = self.bits & !other.bits;
    }

    /// The context is a system cursor context.
    #[allow(non_snake_case)]
    pub fn SYSTEM() -> (r: CXO)
        ensures
            r.bits() == 0x1,
            r@ == set![0nat],
            r@.subset_of(Self::defined()),
    {
        proof {
            lemma_positions_of_flags();
        }
        CXO { bits: 0x1 }
    }

    /// The context is a Pen Windows context, and with that a system cursor
    /// context.
    #[allow(non_snake_case)]
    pub fn PEN() -> (r: CXO)
        ensures
            r.bits() == 0x2,
            r@ == set![1nat],
            r@.subset_of(Self::defined()),
    {
        proof {
            lemma_positions_of_flags();
        }
        CXO { bits: 0x2 }
    }

    /// The context sends packet messages to its owner.
    #[allow(non_snake_case)]
    pub fn MESSAGES() -> (r: CXO)
        ensures
            r.bits() == 0x4,
            r@ == set![2nat],
            r@.subset_of(Self::defined()),
    {
        proof {
            lemma_positions_of_flags();
        }
        CXO { bits: 0x4 }
    }

    /// The input area has a margin: an area around it whose events are mapped
    /// to its edge.
    #[allow(non_snake_case)]
    pub fn MARGIN() -> (r: CXO)
        ensures
            r.bits() == 0x8000,
            r@ == set![15nat],
            r@.subset_of(Self::defined()),
    {
        proof {
            lemma_positions_of_flags();
        }
        CXO { bits: 0x8000 }
    }

    /// The margin lies inside the input area.
    #[allow(non_snake_case)]
    pub fn MGNINSIDE() -> (r: CXO)
        ensures
            r.bits() == 0x4000,
            r@ == set![14nat],
            r@.subset_of(Self::defined()),
    {
        proof {
            lemma_positions_of_flags();
        }
        CXO { bits: 0x4000 }
    }

    /// The context sends cursor change messages to its owner.
    #[allow(non_snake_case)]
    pub fn CSRMESSAGES() -> (r: CXO)
        ensures
            r.bits() == 0x8,
            r@ == set![3nat],
            r@.subset_of(Self::defined()),
    {
        proof {
            lemma_positions_of_flags();
        }
        CXO { bits: 0x8 }
    }
}

/// The status of a context: the field `lcStatus` of `LOGCONTEXT`.
#[derive(Clone, Copy, Debug, PartialEq, Eq, Structural)]
pub struct CXS {
    bits: u32,
}

impl View for CXS {
    type V = Set<nat>;

    /// The positions of the bits that are one.
    open spec fn view(&self) -> Set<nat> {
        positions(self.spec_bits())
    }
}

impl CXS {
    /// The word that backs the set.
    pub closed spec fn spec_bits(&self) -> u32 {
        self.bits
    }

    /// The positions of the conditions that have a name.
    pub open spec fn defined() -> Set<nat> {
        below(3)
    }

    /// The word with a one for each named flag stands for the named positions.
    proof fn lemma_all_bits()
        ensures
            positions(0x7) == Self::defined(),
    {
        lemma_positions_of_low_mask(3);
        assert(((1u32 << 3u32) - 1) as u32 == 0x7) by (bit_vector);
    }

    /// Two sets with the same positions are the same set.
    pub proof fn lemma_same_view(a: CXS, b: CXS)
        requires
            a@ == b@,
        ensures
            a == b,
    {
        lemma_positions_injective(a.bits, b.bits);
    }

    /// Two sets backed by the same word are the same set.
    pub proof fn lemma_same_bits(a: CXS, b: CXS)
        requires
            a.bits() == b.bits(),
        ensures
            a == b,
    {
    }

    /// A single flag lies in the union of two sets exactly when it lies in
    /// one of them, and it never lies in the empty set.
    pub proof fn lemma_single_flag(a: CXS, b: CXS, f: CXS)
        requires
            is_single(f@),
        ensures
            f@.subset_of(a@.union(b@)) <==> (f@.subset_of(a@) || f@.subset_of(b@)),
            !f@.subset_of(Set::<nat>::empty()),
    {
        lemma_single_in_union(a@, b@, f@);
        lemma_single_not_in_empty(f@);
    }

    /// The set without any flag.
    pub fn empty() -> (r: CXS)
        ensures
            r.bits() == 0,
            r@ == Set::<nat>::empty(),
    {
        proof {
            lemma_positions_of_zero();
        }
        CXS { bits: 0 }
    }

    /// The set of every named flag, and of nothing else.
    pub fn all() -> (r: CXS)
        ensures
            r.bits() == 0x7,
            r@ == Self::defined(),
    {
        proof {
            Self::lemma_all_bits();
        }
        CXS { bits: 0x7 }
    }

    /// The word that backs the set, as it is handed to the driver.
    #[verifier::when_used_as_spec(spec_bits)]
    pub fn bits(&self) -> (r: u32)
        ensures
            r == self.bits(),
    {
        self.bits
    }

    /// The set that `bits` stands for, unless `bits` has a one where no flag
    /// has a name.
    pub fn from_bits(bits: u32) -> (r: Option<CXS>)
        ensures
            r is Some <==> positions(bits).subset_of(Self::defined()),
            r matches Some(set) ==> set.bits() == bits,
    {
        proof {
            Self::lemma_all_bits();
            lemma_positions_within(bits, 0x7);
        }
        if bits & !0x7 == 0 {
            Some(CXS { bits })
        } else {
            None
        }
    }

    /// The named flags among the ones of `bits`; the other ones are dropped.
    pub fn from_bits_truncate(bits: u32) -> (r: CXS)
        ensures
            r.bits() == bits & 0x7,
            r@ == positions(bits).intersect(Self::defined()),
    {
        proof {
            Self::lemma_all_bits();
            lemma_positions_of_and(bits, 0x7);
        }
        CXS { bits: bits & 0x7 }
    }

    /// The set that `bits` stands for, with every one kept, named or not.
    pub fn from_bits_retain(bits: u32) -> (r: CXS)
        ensures
            r.bits() == bits,
    {
        CXS { bits }
    }

    /// True when the set holds nothing.
    pub fn is_empty(&self) -> (r: bool)
        ensures
            r == (self@ == Set::<nat>::empty()),
            r == (self.bits() == 0),
    {
        proof {
            lemma_positions_empty_iff_zero(self.bits);
        }
        self.bits == 0
    }

    /// True when the set holds every named flag.
    pub fn is_all(&self) -> (r: bool)
        ensures
            r == Self::defined().subset_of(self@),
    {
        proof {
            Self::lemma_all_bits();
            lemma_positions_subset(self.bits, 0x7);
        }
        self.bits & 0x7 == 0x7
    }

    /// True when the set holds everything that `other` holds.
    pub fn contains(&self, other: CXS) -> (r: bool)
        ensures
            r == other@.subset_of(self@),
    {
        proof {
            lemma_positions_subset(self.bits, other.bits);
        }
        self.bits & other.bits == other.bits
    }

    /// True when the set and `other` have something in common.
    pub fn intersects(&self, other: CXS) -> (r: bool)
        ensures
            r == !self@.disjoint(other@),
    {
        proof {
            lemma_positions_overlap(self.bits, other.bits);
        }
        self.bits & other.bits != 0
    }

    /// What is in the set or in `other`.
    pub fn union(self, other: CXS) -> (r: CXS)
        ensures
            r@ == self@.union(other@),
            r.bits() == self.bits() | other.bits(),
    {
        proof {
            lemma_positions_of_or(self.bits, other.bits);
        }
        CXS { bits: self.bits | other.bits }
    }

    /// What is in the set and in `other`.
    pub fn intersection(self, other: CXS) -> (r: CXS)
        ensures
            r@ == self@.intersect(other@),
            r.bits() == self.bits() & other.bits(),
    {
        proof {
            lemma_positions_of_and(self.bits, other.bits);
        }
        CXS { bits: self.bits & other.bits }
    }

    /// What is in the set and not in `other`.
    pub fn difference(self, other: CXS) -> (r: CXS)
        ensures
            r@ == self@.difference(other@),
            r.bits() == self.bits() & !other.bits(),
    {
        proof {
            lemma_positions_of_and_not(self.bits, other.bits);
        }
        CXS { bits: self.bits & !other.bits }
    }

    /// The named flags that are not in the set.
    pub fn complement(self) -> (r: CXS)
        ensures
            r@ == Self::defined().difference(self@),
            r.bits() == 0x7 & !self.bits(),
    {
        proof {
            Self::lemma_all_bits();
            lemma_positions_of_and_not(0x7, self.bits);
        }
        CXS { bits: 0x7 & !self.bits }
    }

    /// Adds what `other` holds to the set.
    pub fn insert(&mut self, other: CXS)
        ensures
            final(self)@ == old(self)@.union(other@),
            final(self).bits() == old(self).bits() | other.bits(),
    {
        proof {
            lemma_positions_of_or(self.bits, other.bits);
        }
        self.bits = self.bits | other.bits;
    }

    /// Takes what `other` holds out of the set.
    pub fn remove(&mut self, other: CXS)
        ensures
            final(self)@ == old(self)@.difference(other@),
            final(self).bits() == old(self).bits() & !other.bits(),
    {
        proof {
            lemma_positions_of_and_not(self.bits, other.bits);
        }
        self.bits = self.bits & !other.bits;
    }

    /// The context has been disabled.
    #[allow(non_snake_case)]
    pub fn DISABLED() -> (r: CXS)
        ensures
            r.bits() == 0x1,
            r@ == set![0nat],
            r@.subset_of(Self::defined()),
    {
        proof {
            lemma_positions_of_flags();
        }
        CXS { bits: 0x1 }
    }

    /// The context is at least partly covered by a context above it.
    #[allow(non_snake_case)]
    pub fn OBSCURED() -> (r: CXS)
        ensures
            r.bits() == 0x2,
            r@ == set![1nat],
            r@.subset_of(Self::defined()),
    {
        proof {
            lemma_positions_of_flags();
        }
        CXS { bits: 0x2 }
    }

    /// The context is the topmost context.
    #[allow(non_snake_case)]
    pub fn ONTOP() -> (r: CXS)
        ensures
            r.bits() == 0x4,
            r@ == set![2nat],
            r@.subset_of(Self::defined()),
    {
        proof {
            lemma_positions_of_flags();
        }
        CXS { bits: 0x4 }
    }
}

/// The locks of a context: the field `lcLocks` of `LOGCONTEXT`.
#[derive(Clone, Copy, Debug, PartialEq, Eq, Structural)]
pub struct CXL {
    bits: u32,
}

impl View for CXL {
    type V = Set<nat>;

    /// The positions of the bits that are one.
    open spec fn view(&self) -> Set<nat> {
        positions(self.spec_bits())
    }
}

impl CXL {
    /// The word that backs the set.
    pub closed spec fn spec_bits(&self) -> u32 {
        self.bits
    }

    /// The positions of the locks that have a name.
    pub open spec fn defined() -> Set<nat> {
        below(5)
    }

    /// The word with a one for each named flag stands for the named positions.
    proof fn lemma_all_bits()
        ensures
            positions(0x1F) == Self::defined(),
    {
        lemma_positions_of_low_mask(5);
        assert(((1u32 << 5u32) - 1) as u32 == 0x1F) by (bit_vector);
    }

    /// Two sets with the same positions are the same set.
    pub proof fn lemma_same_view(a: CXL, b: CXL)
        requires
            a@ == b@,
        ensures
            a == b,
    {
        lemma_positions_injective(a.bits, b.bits);
    }

    /// Two sets backed by the same word are the same set.
    pub proof fn lemma_same_bits(a: CXL, b: CXL)
        requires
            a.bits() == b.bits(),
        ensures
            a == b,
    {
    }

    /// A single flag lies in the union of two sets exactly when it lies in
    /// one of them, and it never lies in the empty set.
    pub proof fn lemma_single_flag(a: CXL, b: CXL, f: CXL)
        requires
            is_single(f@),
        ensures
            f@.subset_of(a@.union(b@)) <==> (f@.subset_of(a@) || f@.subset_of(b@)),
            !f@.subset_of(Set::<nat>::empty()),
    {
        lemma_single_in_union(a@, b@, f@);
        lemma_single_not_in_empty(f@);
    }

    /// The set without any flag.
    pub fn empty() -> (r: CXL)
        ensures
            r.bits() == 0,
            r@ == Set::<nat>::empty(),
    {
        proof {
            lemma_positions_of_zero();
        }
        CXL { bits: 0 }
    }

    /// The set of every named flag, and of nothing else.
    pub fn all() -> (r: CXL)
        ensures
            r.bits() == 0x1F,
            r@ == Self::defined(),
    {
        proof {
            Self::lemma_all_bits();
        }
        CXL { bits: 0x1F }
    }

    /// The word that backs the set, as it is handed to the driver.
    #[verifier::when_used_as_spec(spec_bits)]
    pub fn bits(&self) -> (r: u32)
        ensures
            r == self.bits(),
    {
        self.bits
    }

    /// The set that `bits` stands for, unless `bits` has a one where no flag
    /// has a name.
    pub fn from_bits(bits: u32) -> (r: Option<CXL>)
        ensures
            r is Some <==> positions(bits).subset_of(Self::defined()),
            r matches Some(set) ==> set.bits() == bits,
    {
        proof {
            Self::lemma_all_bits();
            lemma_positions_within(bits, 0x1F);
        }
        if bits & !0x1F == 0 {
            Some(CXL { bits })
        } else {
            None
        }
    }

    /// The named flags among the ones of `bits`; the other ones are dropped.
    pub fn from_bits_truncate(bits: u32) -> (r: CXL)
        ensures
            r.bits() == bits & 0x1F,
            r@ == positions(bits).intersect(Self::defined()),
    {
        proof {
            Self::lemma_all_bits();
            lemma_positions_of_and(bits, 0x1F);
        }
        CXL { bits: bits & 0x1F }
    }

    /// The set that `bits` stands for, with every one kept, named or not.
    pub fn from_bits_retain(bits: u32) -> (r: CXL)
        ensures
            r.bits() == bits,
    {
        CXL { bits }
    }

    /// True when the set holds nothing.
    pub fn is_empty(&self) -> (r: bool)
        ensures
            r == (self@ == Set::<nat>::empty()),
            r == (self.bits() == 0),
    {
        proof {
            lemma_positions_empty_iff_zero(self.bits);
        }
        self.bits == 0
    }

    /// True when the set holds every named flag.
    pub fn is_all(&self) -> (r: bool)
        ensures
            r == Self::defined().subset_of(self@),
    {
        proof {
            Self::lemma_all_bits();
            lemma_positions_subset(self.bits, 0x1F);
        }
        self.bits & 0x1F == 0x1F
    }

    /// True when the set holds everything that `other` holds.
    pub fn contains(&self, other: CXL) -> (r: bool)
        ensures
            r == other@.subset_of(self@),
    {
        proof {
            lemma_positions_subset(self.bits, other.bits);
        }
        self.bits & other.bits == other.bits
    }

    /// True when the set and `other` have something in common.
    pub fn intersects(&self, other: CXL) -> (r: bool)
        ensures
            r == !self@.disjoint(other@),
    {
        proof {
            lemma_positions_overlap(self.bits, other.bits);
        }
        self.bits & other.bits != 0
    }

    /// What is in the set or in `other`.
    pub fn union(self, other: CXL) -> (r: CXL)
        ensures
            r@ == self@.union(other@),
            r.bits() == self.bits() | other.bits(),
    {
        proof {
            lemma_positions_of_or(self.bits, other.bits);
        }
        CXL { bits: self.bits | other.bits }
    }

    /// What is in the set and in `other`.
    pub fn intersection(self, other: CXL) -> (r: CXL)
        ensures
            r@ == self@.intersect(other@),
            r.bits() == self.bits() & other.bits(),
    {
        proof {
            lemma_positions_of_and(self.bits, other.bits);
        }
        CXL { bits: self.bits & other.bits }
    }

    /// What is in the set and not in `other`.
    pub fn difference(self, other: CXL) -> (r: CXL)
        ensures
            r@ == self@.difference(other@),
            r.bits() == self.bits() & !other.bits(),
    {
        proof {
            lemma_positions_of_and_not(self.bits, other.bits);
        }
        CXL { bits: self.bits & !other.bits }
    }

    /// The named flags that are not in the set.
    pub fn complement(self) -> (r: CXL)
        ensures
            r@ == Self::defined().difference(self@),
            r.bits() == 0x1F & !self.bits(),
    {
        proof {
            Self::lemma_all_bits();
            lemma_positions_of_and_not(0x1F, self.bits);
        }
        CXL { bits: 0x1F & !self.bits }
    }

    /// Adds what `other` holds to the set.
    pub fn insert(&mut self, other: CXL)
        ensures
            final(self)@ == old(self)@.union(other@),
            final(self).bits() == old(self).bits() | other.bits(),
    {
        proof {
            lemma_positions_of_or(self.bits, other.bits);
        }
        self.bits = self.bits | other.bits;
    }

    /// Takes what `other` holds out of the set.
    pub fn remove(&mut self, other: CXL)
        ensures
            final(self)@ == old(self)@.difference(other@),
            final(self).bits() == old(self).bits() & !other.bits(),
    {
        proof {
            lemma_positions_of_and_not(self.bits, other.bits);
        }
        self.bits = self.bits & !other.bits;
    }

    /// The size of the input area cannot be changed. Its origin always can.
    #[allow(non_snake_case)]
    pub fn INSIZE() -> (r: CXL)
        ensures
            r.bits() == 0x1,
            r@ == set![0nat],
            r@.subset_of(Self::defined()),
    {
        proof {
            lemma_positions_of_flags();
        }
        CXL { bits: 0x1 }
    }

    /// The aspect ratio of the input area cannot be changed.
    #[allow(non_snake_case)]
    pub fn INASPECT() -> (r: CXL)
        ensures
            r.bits() == 0x2,
            r@ == set![1nat],
            r@.subset_of(Self::defined()),
    {
        proof {
            lemma_positions_of_flags();
        }
        CXL { bits: 0x2 }
    }

    /// The sensitivity on the three axes cannot be changed.
    #[allow(non_snake_case)]
    pub fn SENSITIVITY() -> (r: CXL)
        ensures
            r.bits() == 0x4,
            r@ == set![2nat],
            r@.subset_of(Self::defined()),
    {
        proof {
            lemma_positions_of_flags();
        }
        CXL { bits: 0x4 }
    }

    /// The margin options cannot be changed.
    #[allow(non_snake_case)]
    pub fn MARGIN() -> (r: CXL)
        ensures
            r.bits() == 0x8,
            r@ == set![3nat],
            r@.subset_of(Self::defined()),
    {
        proof {
            lemma_positions_of_flags();
        }
        CXL { bits: 0x8 }
    }

    /// For a system cursor context: the settings of system pointing cannot be
    /// changed.
    #[allow(non_snake_case)]
    pub fn SYSOUT() -> (r: CXL)
        ensures
            r.bits() == 0x10,
            r@ == set![4nat],
            r@.subset_of(Self::defined()),
    {
        proof {
            lemma_positions_of_flags();
        }
        CXL { bits: 0x10 }
    }
}

} // verus!
