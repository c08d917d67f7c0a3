//! The numbers by which the driver knows what a query asks for: the
//! categories of information and, for each category, its items.
use crate::bits::{
    below, is_single, lemma_positions_empty_iff_zero, lemma_positions_injective,
    lemma_positions_of_and, lemma_positions_of_and_not, lemma_positions_of_flags,
    lemma_positions_of_low_mask, lemma_positions_of_or, lemma_positions_of_zero,
    lemma_positions_overlap, lemma_positions_subset, lemma_positions_within,
    lemma_single_in_union, lemma_single_not_in_empty, positions,
};
use vstd::prelude::*;

verus! {

/// The category of information that a query asks for: the first argument of the
/// query call.
#[derive(Clone, Copy, Debug, PartialEq, Eq, Structural)]
pub enum WTI {
    /// Identification and capabilities of the interface as a whole. Its items
    /// are those of `IFC`.
    INTERFACE,
    /// How much of the interface's resources is in use. Its items are those of
    /// `STA`.
    STATUS,
    /// The default digitizing context, which reports positions in the tablet's
    /// own coordinates. Its items are those of `CTX`.
    DEFCONTEXT,
    /// The default system context, which reports positions in screen
    /// coordinates. Its items are those of `CTX`.
    DEFSYSCTX,
    /// Capabilities and status of a device. Its items are those of `DVC`. One
    /// category for each device.
    DEVICES,
    /// Capabilities and status of a cursor type. Its items are those of `CSR`.
    /// One category for each cursor type.
    CURSORS,
    /// Description and defaults of an extension. Its items are those of `EXT`.
    /// One category for each extension.
    EXTENSIONS,
    /// The default digitizing context of a device. Its items are those of
    /// `CTX`. One category for each device.
    DDCTXS,
    /// The default system context of a device. Its items are those of `CTX`.
    /// One category for each device.
    DSCTXS,
}

impl WTI {
    /// The number that the driver knows each category by.
    pub open spec fn spec_code(self) -> u32 {
        match self {
            WTI::INTERFACE => 1,
            WTI::STATUS => 2,
            WTI::DEFCONTEXT => 3,
            WTI::DEFSYSCTX => 4,
            WTI::DEVICES => 100,
            WTI::CURSORS => 200,
            WTI::EXTENSIONS => 300,
            WTI::DDCTXS => 400,
            WTI::DSCTXS => 500,
        }
    }

    /// The number that the driver knows this category by.
    #[verifier::when_used_as_spec(spec_code)]
    pub fn code(self) -> (r: u32)
        ensures
            r == self.code(),
    {
        match self {
            WTI::INTERFACE => 1,
            WTI::STATUS => 2,
            WTI::DEFCONTEXT => 3,
            WTI::DEFSYSCTX => 4,
            WTI::DEVICES => 100,
            WTI::CURSORS => 200,
            WTI::EXTENSIONS => 300,
            WTI::DDCTXS => 400,
            WTI::DSCTXS => 500,
        }
    }

    /// The category that the driver knows by `code`, if there is one.
    pub fn from_code(code: u32) -> (r: Option<WTI>)
        ensures
            match r {
                Some(found) => found.code() == code,
                None => forall|other: WTI| other.code() != code,
            },
    {
        match code {
            1 => Some(WTI::INTERFACE),
            2 => Some(WTI::STATUS),
            3 => Some(WTI::DEFCONTEXT),
            4 => Some(WTI::DEFSYSCTX),
            100 => Some(WTI::DEVICES),
            200 => Some(WTI::CURSORS),
            300 => Some(WTI::EXTENSIONS),
            400 => Some(WTI::DDCTXS),
            500 => Some(WTI::DSCTXS),
            _ => None,
        }
    }

    /// No two of them share a number.
    pub proof fn lemma_code_injective(a: WTI, b: WTI)
        requires
            a.code() == b.code(),
        ensures
            a == b,
    {
    }
}

impl WTI {
    /// The number of categories that one multiplexed category may span, so
    /// that no two instances share a number.
    pub const INSTANCES: u32 = 100;

    /// True for a category that exists once for each device, cursor type or
    /// extension: its number addresses the first of them, the number after
    /// it the second, and so on.
    pub open spec fn spec_is_multiplexed(self) -> bool {
        self == WTI::DEVICES || self == WTI::CURSORS || self == WTI::EXTENSIONS || self
            == WTI::DDCTXS || self == WTI::DSCTXS
    }

    /// The number that addresses instance `index` of the category: the
    /// category's own number and `index`. Only a multiplexed category has an
    /// instance after the first, and none has one from 100 on.
    pub open spec fn spec_instance(self, index: u32) -> Option<u32> {
        if index == 0 || (self.spec_is_multiplexed() && index < 100) {
            Some((self.spec_code() + index) as u32)
        } else {
            None
        }
    }

    /// True for a category that exists once for each device, cursor type or
    /// extension.
    #[verifier::when_used_as_spec(spec_is_multiplexed)]
    pub fn is_multiplexed(self) -> (r: bool)
        ensures
            r == self.is_multiplexed(),
    {
        match self {
            WTI::DEVICES | WTI::CURSORS | WTI::EXTENSIONS | WTI::DDCTXS | WTI::DSCTXS => true,
            _ => false,
        }
    }

    /// The number that addresses instance `index` of the category, counted
    /// from zero, if the category has such an instance.
    #[verifier::when_used_as_spec(spec_instance)]
    pub fn instance(self, index: u32) -> (r: Option<u32>)
        ensures
            r == self.instance(index),
    {
        if index == 0 || (self.is_multiplexed() && index < WTI::INSTANCES) {
            Some(self.code() + index)
        } else {
            None
        }
    }

    /// The category and the instance that `code` addresses, if it addresses any.
    pub fn of_instance_code(code: u32) -> (r: Option<(WTI, u32)>)
        ensures
            match r {
                Some((category, index)) => category.instance(index) == Some(code),
                None => forall|category: WTI, index: u32|
                    category.instance(index) != Some(code),
            },
    {
        if let Some(category) = WTI::from_code(code) {
            Some((category, 0))
        } else if 100 < code && code < 600 {
            let index: u32 = code % 100;
            match WTI::from_code(code - index) {
                Some(category) => Some((category, index)),
                None => None,
            }
        } else {
            None
        }
    }

    /// An instance is addressed by one number only: two instances with the
    /// same number are the same instance of the same category.
    pub proof fn lemma_instance_injective(a: WTI, i: u32, b: WTI, j: u32)
        requires
            a.instance(i) is Some,
            a.instance(i) == b.instance(j),
        ensures
            a == b,
            i == j,
    {
    }
}

/// The items of the category `WTI::INTERFACE`.
#[derive(Clone, Copy, Debug, PartialEq, Eq, Structural)]
pub enum IFC {
    /// Text. The identification of the tablet hardware: make, model and
    /// revision.
    WINTABID,
    /// 16 bits. The version of the specification: major number in the high
    /// byte, minor number in the low byte.
    SPECVERSION,
    /// 16 bits. The version of the implementation: major number in the high
    /// byte, minor number in the low byte.
    IMPLVERSION,
    /// `UINT`. The number of devices supported.
    NDEVICES,
    /// `UINT`. The number of cursor types supported.
    NCURSORS,
    /// `UINT`. The number of contexts supported.
    NCONTEXTS,
    /// `UINT`. Which context options are supported.
    CTXOPTIONS,
    /// `UINT`. The size of the information that saving a context returns.
    CTXSAVESIZE,
    /// `UINT`. The number of extension data items supported.
    NEXTENSIONS,
    /// `UINT`. The number of manager handles supported.
    NMANAGERS,
}

impl IFC {
    /// The number that the driver knows each item by.
    pub open spec fn spec_code(self) -> u32 {
        match self {
            IFC::WINTABID => 1,
            IFC::SPECVERSION => 2,
            IFC::IMPLVERSION => 3,
            IFC::NDEVICES => 4,
            IFC::NCURSORS => 5,
            IFC::NCONTEXTS => 6,
            IFC::CTXOPTIONS => 7,
            IFC::CTXSAVESIZE => 8,
            IFC::NEXTENSIONS => 9,
            IFC::NMANAGERS => 10,
        }
    }

    /// The number that the driver knows this item by.
    #[verifier::when_used_as_spec(spec_code)]
    pub fn code(self) -> (r: u32)
        ensures
            r == self.code(),
    {
        match self {
            IFC::WINTABID => 1,
            IFC::SPECVERSION => 2,
            IFC::IMPLVERSION => 3,
            IFC::NDEVICES => 4,
            IFC::NCURSORS => 5,
            IFC::NCONTEXTS => 6,
            IFC::CTXOPTIONS => 7,
            IFC::CTXSAVESIZE => 8,
            IFC::NEXTENSIONS => 9,
            IFC::NMANAGERS => 10,
        }
    }

    /// The item that the driver knows by `code`, if there is one.
    pub fn from_code(code: u32) -> (r: Option<IFC>)
        ensures
            match r {
                Some(found) => found.code() == code,
                None => forall|other: IFC| other.code() != code,
            },
    {
        match code {
            1 => Some(IFC::WINTABID),
            2 => Some(IFC::SPECVERSION),
            3 => Some(IFC::IMPLVERSION),
            4 => Some(IFC::NDEVICES),
            5 => Some(IFC::NCURSORS),
            6 => Some(IFC::NCONTEXTS),
            7 => Some(IFC::CTXOPTIONS),
            8 => Some(IFC::CTXSAVESIZE),
            9 => Some(IFC::NEXTENSIONS),
            10 => Some(IFC::NMANAGERS),
            _ => None,
        }
    }

    /// No two of them share a number.
    pub proof fn lemma_code_injective(a: IFC, b: IFC)
        requires
            a.code() == b.code(),
        ensures
            a == b,
    {
    }
}

/// The items of the category `WTI::STATUS`.
#[derive(Clone, Copy, Debug, PartialEq, Eq, Structural)]
pub enum STA {
    /// `UINT`. The number of contexts that are open.
    CONTEXTS,
    /// `UINT`. The number of system contexts that are open.
    SYSCTXS,
    /// `UINT`. The highest packet rate that any context receives, in Hertz.
    PKTRATE,
    /// `WTPKT`. The data items that at least one context asks for.
    PKTDATA,
    /// `UINT`. The number of manager handles that are open.
    MANAGERS,
    /// `BOOL`. Whether system pointing reaches the whole screen.
    SYSTEM,
    /// `DWORD`. The logical buttons whose events at least one context asks for.
    BUTTONUSE,
    /// `DWORD`. The logical buttons that the current cursor maps to a system
    /// button function.
    SYSBTNUSE,
}

impl STA {
    /// The number that the driver knows each item by.
    pub open spec fn spec_code(self) -> u32 {
        match self {
            STA::CONTEXTS => 1,
            STA::SYSCTXS => 2,
            STA::PKTRATE => 3,
            STA::PKTDATA => 4,
            STA::MANAGERS => 5,
            STA::SYSTEM => 6,
            STA::BUTTONUSE => 7,
            STA::SYSBTNUSE => 8,
        }
    }

    /// The number that the driver knows this item by.
    #[verifier::when_used_as_spec(spec_code)]
    pub fn code(self) -> (r: u32)
        ensures
            r == self.code(),
    {
        match self {
            STA::CONTEXTS => 1,
            STA::SYSCTXS => 2,
            STA::PKTRATE => 3,
            STA::PKTDATA => 4,
            STA::MANAGERS => 5,
            STA::SYSTEM => 6,
            STA::BUTTONUSE => 7,
            STA::SYSBTNUSE => 8,
        }
    }

    /// The item that the driver knows by `code`, if there is one.
    pub fn from_code(code: u32) -> (r: Option<STA>)
        ensures
            match r {
                Some(found) => found.code() == code,
                None => forall|other: STA| other.code() != code,
            },
    {
        match code {
            1 => Some(STA::CONTEXTS),
            2 => Some(STA::SYSCTXS),
            3 => Some(STA::PKTRATE),
            4 => Some(STA::PKTDATA),
            5 => Some(STA::MANAGERS),
            6 => Some(STA::SYSTEM),
            7 => Some(STA::BUTTONUSE),
            8 => Some(STA::SYSBTNUSE),
            _ => None,
        }
    }

    /// No two of them share a number.
    pub proof fn lemma_code_injective(a: STA, b: STA)
        requires
            a.code() == b.code(),
        ensures
            a == b,
    {
    }
}

/// The items of the categories that describe a context: `WTI::DEFCONTEXT`,
/// `WTI::DEFSYSCTX`, `WTI::DDCTXS` and `WTI::DSCTXS`. Each is one field of
/// `LOGCONTEXT`.
#[derive(Clone, Copy, Debug, PartialEq, Eq, Structural)]
pub enum CTX {
    /// 40 bytes of text. The name: up to 39 characters, then zeros.
    NAME,
    /// `UINT`. The option flags.
    OPTIONS,
    /// `UINT`. Zero.
    STATUS,
    /// `UINT`. The attributes of the context that are locked.
    LOCKS,
    /// `UINT`. The first of the message numbers that the context uses.
    MSGBASE,
    /// `UINT`. The device.
    DEVICE,
    /// `UINT`. The packet rate, in Hertz.
    PKTRATE,
    /// `WTPKT`. The optional data items that the context's packets hold.
    PKTDATA,
    /// `WTPKT`. The data items that are reported relative to the packet before.
    PKTMODE,
    /// `WTPKT`. The data items whose change makes a move event.
    MOVEMASK,
    /// `DWORD`. The buttons whose press is an event of the context.
    BTNDNMASK,
    /// `DWORD`. The buttons whose release is an event of the context.
    BTNUPMASK,
    /// `LONG`. The origin of the input area on the x axis, in the tablet's
    /// coordinates.
    INORGX,
    /// `LONG`. The origin of the input area on the y axis, in the tablet's
    /// coordinates.
    INORGY,
    /// `LONG`. The origin of the input area on the z axis, in the tablet's
    /// coordinates.
    INORGZ,
    /// `LONG`. The extent of the input area on the x axis, in the tablet's
    /// coordinates.
    INEXTX,
    /// `LONG`. The extent of the input area on the y axis, in the tablet's
    /// coordinates.
    INEXTY,
    /// `LONG`. The extent of the input area on the z axis, in the tablet's
    /// coordinates.
    INEXTZ,
    /// `LONG`. The origin of the output area on the x axis, in output
    /// coordinates.
    OUTORGX,
    /// `LONG`. The origin of the output area on the y axis, in output
    /// coordinates.
    OUTORGY,
    /// `LONG`. The origin of the output area on the z axis, in output
    /// coordinates.
    OUTORGZ,
    /// `LONG`. The extent of the output area on the x axis, in output
    /// coordinates.
    OUTEXTX,
    /// `LONG`. The extent of the output area on the y axis, in output
    /// coordinates.
    OUTEXTY,
    /// `LONG`. The extent of the output area on the z axis, in output
    /// coordinates.
    OUTEXTZ,
    /// `FIX32`. The sensitivity on the x axis in relative mode.
    SENSX,
    /// `FIX32`. The sensitivity on the y axis in relative mode.
    SENSY,
    /// `FIX32`. The sensitivity on the z axis in relative mode.
    SENSZ,
    /// `BOOL`. How the system cursor is tracked: zero for absolute, anything
    /// else for relative.
    SYSMODE,
    /// `INT`. The origin of the screen mapping area on the x axis.
    SYSORGX,
    /// `INT`. The origin of the screen mapping area on the y axis.
    SYSORGY,
    /// `INT`. The extent of the screen mapping area on the x axis, in pixels.
    SYSEXTX,
    /// `INT`. The extent of the screen mapping area on the y axis, in pixels.
    SYSEXTY,
    /// `FIX32`. The sensitivity of the system cursor on the x axis in relative
    /// mode.
    SYSSENSX,
    /// `FIX32`. The sensitivity of the system cursor on the y axis in relative
    /// mode.
    SYSSENSY,
}

impl CTX {
    /// The number that the driver knows each item by.
    pub open spec fn spec_code(self) -> u32 {
        match self {
            CTX::NAME => 1,
            CTX::OPTIONS => 2,
            CTX::STATUS => 3,
            CTX::LOCKS => 4,
            CTX::MSGBASE => 5,
            CTX::DEVICE => 6,
            CTX::PKTRATE => 7,
            CTX::PKTDATA => 8,
            CTX::PKTMODE => 9,
            CTX::MOVEMASK => 10,
            CTX::BTNDNMASK => 11,
            CTX::BTNUPMASK => 12,
            CTX::INORGX => 13,
            CTX::INORGY => 14,
            CTX::INORGZ => 15,
            CTX::INEXTX => 16,
            CTX::INEXTY => 17,
            CTX::INEXTZ => 18,
            CTX::OUTORGX => 19,
            CTX::OUTORGY => 20,
            CTX::OUTORGZ => 21,
            CTX::OUTEXTX => 22,
            CTX::OUTEXTY => 23,
            CTX::OUTEXTZ => 24,
            CTX::SENSX => 25,
            CTX::SENSY => 26,
            CTX::SENSZ => 27,
            CTX::SYSMODE => 28,
            CTX::SYSORGX => 29,
            CTX::SYSORGY => 30,
            CTX::SYSEXTX => 31,
            CTX::SYSEXTY => 32,
            CTX::SYSSENSX => 33,
            CTX::SYSSENSY => 34,
        }
    }

    /// The number that the driver knows this item by.
    #[verifier::when_used_as_spec(spec_code)]
    pub fn code(self) -> (r: u32)
        ensures
            r == self.code(),
    {
        match self {
            CTX::NAME => 1,
            CTX::OPTIONS => 2,
            CTX::STATUS => 3,
            CTX::LOCKS => 4,
            CTX::MSGBASE => 5,
            CTX::DEVICE => 6,
            CTX::PKTRATE => 7,
            CTX::PKTDATA => 8,
            CTX::PKTMODE => 9,
            CTX::MOVEMASK => 10,
            CTX::BTNDNMASK => 11,
            CTX::BTNUPMASK => 12,
            CTX::INORGX => 13,
            CTX::INORGY => 14,
            CTX::INORGZ => 15,
            CTX::INEXTX => 16,
            CTX::INEXTY => 17,
            CTX::INEXTZ => 18,
            CTX::OUTORGX => 19,
            CTX::OUTORGY => 20,
            CTX::OUTORGZ => 21,
            CTX::OUTEXTX => 22,
            CTX::OUTEXTY => 23,
            CTX::OUTEXTZ => 24,
            CTX::SENSX => 25,
            CTX::SENSY => 26,
            CTX::SENSZ => 27,
            CTX::SYSMODE => 28,
            CTX::SYSORGX => 29,
            CTX::SYSORGY => 30,
            CTX::SYSEXTX => 31,
            CTX::SYSEXTY => 32,
            CTX::SYSSENSX => 33,
            CTX::SYSSENSY => 34,
        }
    }

    /// The item that the driver knows by `code`, if there is one.
    pub fn from_code(code: u32) -> (r: Option<CTX>)
        ensures
            match r {
                Some(found) => found.code() == code,
                None => forall|other: CTX| other.code() != code,
            },
    {
        match code {
            1 => Some(CTX::NAME),
            2 => Some(CTX::OPTIONS),
            3 => Some(CTX::STATUS),
            4 => Some(CTX::LOCKS),
            5 => Some(CTX::MSGBASE),
            6 => Some(CTX::DEVICE),
            7 => Some(CTX::PKTRATE),
            8 => Some(CTX::PKTDATA),
            9 => Some(CTX::PKTMODE),
            10 => Some(CTX::MOVEMASK),
            11 => Some(CTX::BTNDNMASK),
            12 => Some(CTX::BTNUPMASK),
            13 => Some(CTX::INORGX),
            14 => Some(CTX::INORGY),
            15 => Some(CTX::INORGZ),
            16 => Some(CTX::INEXTX),
            17 => Some(CTX::INEXTY),
            18 => Some(CTX::INEXTZ),
            19 => Some(CTX::OUTORGX),
            20 => Some(CTX::OUTORGY),
            21 => Some(CTX::OUTORGZ),
            22 => Some(CTX::OUTEXTX),
            23 => Some(CTX::OUTEXTY),
            24 => Some(CTX::OUTEXTZ),
            25 => Some(CTX::SENSX),
            26 => Some(CTX::SENSY),
            27 => Some(CTX::SENSZ),
            28 => Some(CTX::SYSMODE),
            29 => Some(CTX::SYSORGX),
            30 => Some(CTX::SYSORGY),
            31 => Some(CTX::SYSEXTX),
            32 => Some(CTX::SYSEXTY),
            33 => Some(CTX::SYSSENSX),
            34 => Some(CTX::SYSSENSY),
            _ => None,
        }
    }

    /// No two of them share a number.
    pub proof fn lemma_code_injective(a: CTX, b: CTX)
        requires
            a.code() == b.code(),
        ensures
            a == b,
    {
    }
}

/// The items of the category `WTI::DEVICES`.
#[derive(Clone, Copy, Debug, PartialEq, Eq, Structural)]
pub enum DVC {
    /// Text. The device, its manufacturer and its revision.
    NAME,
    /// `HWC`. What the hardware and the driver can do.
    HARDWARE,
    /// `UINT`. The number of cursor types supported.
    NCSRTYPES,
    /// `UINT`. The number of the device's first cursor type.
    FIRSTCSR,
    /// `UINT`. The highest packet rate, in Hertz.
    PKTRATE,
    /// `WTPKT`. The data items that are always available.
    PKTDATA,
    /// `WTPKT`. The data items of which the hardware reports only the change.
    PKTMODE,
    /// `WTPKT`. The data items that are available only with certain cursors.
    CSRDATA,
    /// `AXIS`. The margin of a context on the x axis, in the tablet's
    /// coordinates.
    XMARGIN,
    /// `AXIS`. The margin of a context on the y axis, in the tablet's
    /// coordinates.
    YMARGIN,
    /// `AXIS`. The margin of a context on the z axis, in the tablet's
    /// coordinates.
    ZMARGIN,
    /// `AXIS`. Range and resolution of the x axis.
    X,
    /// `AXIS`. Range and resolution of the y axis.
    Y,
    /// `AXIS`. Range and resolution of the z axis.
    Z,
    /// `AXIS`. Range and resolution of the normal pressure.
    NPRESSURE,
    /// `AXIS`. Range and resolution of the tangent pressure.
    TPRESSURE,
    /// Three `AXIS`. Range and resolution of the orientation.
    ORIENTATION,
    /// Three `AXIS`. Range and resolution of the rotation.
    ROTATION,
    /// Text. The Plug and Play identifier of the device.
    PNPID,
}

impl DVC {
    /// The number that the driver knows each item by.
    pub open spec fn spec_code(self) -> u32 {
        match self {
            DVC::NAME => 1,
            DVC::HARDWARE => 2,
            DVC::NCSRTYPES => 3,
            DVC::FIRSTCSR => 4,
            DVC::PKTRATE => 5,
            DVC::PKTDATA => 6,
            DVC::PKTMODE => 7,
            DVC::CSRDATA => 8,
            DVC::XMARGIN => 9,
            DVC::YMARGIN => 10,
            DVC::ZMARGIN => 11,
            DVC::X => 12,
            DVC::Y => 13,
            DVC::Z => 14,
            DVC::NPRESSURE => 15,
            DVC::TPRESSURE => 16,
            DVC::ORIENTATION => 17,
            DVC::ROTATION => 18,
            DVC::PNPID => 19,
        }
    }

    /// The number that the driver knows this item by.
    #[verifier::when_used_as_spec(spec_code)]
    pub fn code(self) -> (r: u32)
        ensures
            r == self.code(),
    {
        match self {
            DVC::NAME => 1,
            DVC::HARDWARE => 2,
            DVC::NCSRTYPES => 3,
            DVC::FIRSTCSR => 4,
            DVC::PKTRATE => 5,
            DVC::PKTDATA => 6,
            DVC::PKTMODE => 7,
            DVC::CSRDATA => 8,
            DVC::XMARGIN => 9,
            DVC::YMARGIN => 10,
            DVC::ZMARGIN => 11,
            DVC::X => 12,
            DVC::Y => 13,
            DVC::Z => 14,
            DVC::NPRESSURE => 15,
            DVC::TPRESSURE => 16,
            DVC::ORIENTATION => 17,
            DVC::ROTATION => 18,
            DVC::PNPID => 19,
        }
    }

    /// The item that the driver knows by `code`, if there is one.
    pub fn from_code(code: u32) -> (r: Option<DVC>)
        ensures
            match r {
                Some(found) => found.code() == code,
                None => forall|other: DVC| other.code() != code,
            },
    {
        match code {
            1 => Some(DVC::NAME),
            2 => Some(DVC::HARDWARE),
            3 => Some(DVC::NCSRTYPES),
            4 => Some(DVC::FIRSTCSR),
            5 => Some(DVC::PKTRATE),
            6 => Some(DVC::PKTDATA),
            7 => Some(DVC::PKTMODE),
            8 => Some(DVC::CSRDATA),
            9 => Some(DVC::XMARGIN),
            10 => Some(DVC::YMARGIN),
            11 => Some(DVC::ZMARGIN),
            12 => Some(DVC::X),
            13 => Some(DVC::Y),
            14 => Some(DVC::Z),
            15 => Some(DVC::NPRESSURE),
            16 => Some(DVC::TPRESSURE),
            17 => Some(DVC::ORIENTATION),
            18 => Some(DVC::ROTATION),
            19 => Some(DVC::PNPID),
            _ => None,
        }
    }

    /// No two of them share a number.
    pub proof fn lemma_code_injective(a: DVC, b: DVC)
        requires
            a.code() == b.code(),
        ensures
            a == b,
    {
    }
}

/// What the hardware and the driver of a device can do: the item
/// `DVC::HARDWARE`.
#[derive(Clone, Copy, Debug, PartialEq, Eq, Structural)]
pub struct HWC {
    bits: u32,
}

impl View for HWC {
    type V = Set<nat>;

    /// The positions of the bits that are one.
    open spec fn view(&self) -> Set<nat> {
        positions(self.spec_bits())
    }
}

impl HWC {
    /// The word that backs the set.
    pub closed spec fn spec_bits(&self) -> u32 {
        self.bits
    }

    /// The positions of the capabilities that have a name.
    pub open spec fn defined() -> Set<nat> {
        below(4)
    }

    /// The word with a one for each named flag stands for the named positions.
    proof fn lemma_all_bits()
        ensures
            positions(0xF) == Self::defined(),
    {
        lemma_positions_of_low_mask(4);
        assert(((1u32 << 4u32) - 1) as u32 == 0xF) by (bit_vector);
    }

    /// Two sets with the same positions are the same set.
    pub proof fn lemma_same_view(a: HWC, b: HWC)
        requires
            a@ == b@,
        ensures
            a == b,
    {
        lemma_positions_injective(a.bits, b.bits);
    }

    /// Two sets backed by the same word are the same set.
    pub proof fn lemma_same_bits(a: HWC, b: HWC)
        requires
            a.bits() == b.bits(),
        ensures
            a == b,
    {
    }

    /// A single flag lies in the union of two sets exactly when it lies in
    /// one of them, and it never lies in the empty set.
    pub proof fn lemma_single_flag(a: HWC, b: HWC, f: HWC)
        requires
            is_single(f@),
        ensures
            f@.subset_of(a@.union(b@)) <==> (f@.subset_of(a@) || f@.subset_of(b@)),
            !f@.subset_of(Set::<nat>::empty()),
    {
        lemma_single_in_union(a@, b@, f@);
        lemma_single_not_in_empty(f@);
    }

    /// The set without any flag.
    pub fn empty() -> (r: HWC)
        ensures
            r.bits() == 0,
            r@ == Set::<nat>::empty(),
    {
        proof {
            lemma_positions_of_zero();
        }
        HWC { bits: 0 }
    }

    /// The set of every named flag, and of nothing else.
    pub fn all() -> (r: HWC)
        ensures
            r.bits() == 0xF,
            r@ == Self::defined(),
    {
        proof {
            Self::lemma_all_bits();
        }
        HWC { bits: 0xF }
    }

    /// The word that backs the set, as it is handed to the driver.
    #[verifier::when_used_as_spec(spec_bits)]
    pub fn bits(&self) -> (r: u32)
        ensures
            r == self.bits(),
    {
        self.bits
    }

    /// The set that `bits` stands for, unless `bits` has a one where no flag
    /// has a name.
    pub fn from_bits(bits: u32) -> (r: Option<HWC>)
        ensures
            r is Some <==> positions(bits).subset_of(Self::defined()),
            r matches Some(set) ==> set.bits() == bits,
    {
        proof {
            Self::lemma_all_bits();
            lemma_positions_within(bits, 0xF);
        }
        if bits & !0xF == 0 {
            Some(HWC { bits })
        } else {
            None
        }
    }

    /// The named flags among the ones of `bits`; the other ones are dropped.
    pub fn from_bits_truncate(bits: u32) -> (r: HWC)
        ensures
            r.bits() == bits & 0xF,
            r@ == positions(bits).intersect(Self::defined()),
    {
        proof {
            Self::lemma_all_bits();
            lemma_positions_of_and(bits, 0xF);
        }
        HWC { bits: bits & 0xF }
    }

    /// The set that `bits` stands for, with every one kept, named or not.
    pub fn from_bits_retain(bits: u32) -> (r: HWC)
        ensures
            r.bits() == bits,
    {
        HWC { bits }
    }

    /// True when the set holds nothing.
    pub fn is_empty(&self) -> (r: bool)
        ensures
            r == (self@ == Set::<nat>::empty()),
            r == (self.bits() == 0),
    {
        proof {
            lemma_positions_empty_iff_zero(self.bits);
        }
        self.bits == 0
    }

    /// True when the set holds every named flag.
    pub fn is_all(&self) -> (r: bool)
        ensures
            r == Self::defined().subset_of(self@),
    {
        proof {
            Self::lemma_all_bits();
            lemma_positions_subset(self.bits, 0xF);
        }
        self.bits & 0xF == 0xF
    }

    /// True when the set holds everything that `other` holds.
    pub fn contains(&self, other: HWC) -> (r: bool)
        ensures
            r == other@.subset_of(self@),
    {
        proof {
            lemma_positions_subset(self.bits, other.bits);
        }
        self.bits & other.bits == other.bits
    }

    /// True when the set and `other` have something in common.
    pub fn intersects(&self, other: HWC) -> (r: bool)
        ensures
            r == !self@.disjoint(other@),
    {
        proof {
            lemma_positions_overlap(self.bits, other.bits);
        }
        self.bits & other.bits != 0
    }

    /// What is in the set or in `other`.
    pub fn union(self, other: HWC) -> (r: HWC)
        ensures
            r@ == self@.union(other@),
            r.bits() == self.bits() | other.bits(),
    {
        proof {
            lemma_positions_of_or(self.bits, other.bits);
        }
        HWC { bits: self.bits | other.bits }
    }

    /// What is in the set and in `other`.
    pub fn intersection(self, other: HWC) -> (r: HWC)
        ensures
            r@ == self@.intersect(other@),
            r.bits() == self.bits() & other.bits(),
    {
        proof {
            lemma_positions_of_and(self.bits, other.bits);
        }
        HWC { bits: self.bits & other.bits }
    }

    /// What is in the set and not in `other`.
    pub fn difference(self, other: HWC) -> (r: HWC)
        ensures
            r@ == self@.difference(other@),
            r.bits() == self.bits() & !other.bits(),
    {
        proof {
            lemma_positions_of_and_not(self.bits, other.bits);
        }
        HWC { bits: self.bits & !other.bits }
    }

    /// The named flags that are not in the set.
    pub fn complement(self) -> (r: HWC)
        ensures
            r@ == Self::defined().difference(self@),
            r.bits() == 0xF & !self.bits(),
    {
        proof {
            Self::lemma_all_bits();
            lemma_positions_of_and_not(0xF, self.bits);
        }
        HWC { bits: 0xF & !self.bits }
    }

    /// Adds what `other` holds to the set.
    pub fn insert(&mut self, other: HWC)
        ensures
            final(self)@ == old(self)@.union(other@),
            final(self).bits() == old(self).bits() | other.bits(),
    {
        proof {
            lemma_positions_of_or(self.bits, other.bits);
        }
        self.bits = self.bits | other.bits;
    }

    /// Takes what `other` holds out of the set.
    pub fn remove(&mut self, other: HWC)
        ensures
            final(self)@ == old(self)@.difference(other@),
            final(self).bits() == old(self).bits() & !other.bits(),
    {
        proof {
            lemma_positions_of_and_not(self.bits, other.bits);
        }
        self.bits = self.bits & !other.bits;
    }

    /// The display and the digitizer share one surface.
    #[allow(non_snake_case)]
    pub fn INTEGRATED() -> (r: HWC)
        ensures
            r.bits() == 0x1,
            r@ == set![0nat],
            r@.subset_of(Self::defined()),
    {
        proof {
            lemma_positions_of_flags();
        }
        HWC { bits: 0x1 }
    }

    /// The cursor must touch the device to report its position.
    #[allow(non_snake_case)]
    pub fn TOUCH() -> (r: HWC)
        ensures
            r.bits() == 0x2,
            r@ == set![1nat],
            r@.subset_of(Self::defined()),
    {
        proof {
            lemma_positions_of_flags();
        }
        HWC { bits: 0x2 }
    }

    /// The device can tell when the cursor enters and leaves the range in which
    /// it is detected.
    #[allow(non_snake_case)]
    pub fn HARDPROX() -> (r: HWC)
        ensures
            r.bits() == 0x4,
            r@ == set![2nat],
            r@.subset_of(Self::defined()),
    {
        proof {
            lemma_positions_of_flags();
        }
        HWC { bits: 0x4 }
    }

    /// The hardware can tell the active cursor from every other.
    #[allow(non_snake_case)]
    pub fn PHYSID_CURSORS() -> (r: HWC)
        ensures
            r.bits() == 0x8,
            r@ == set![3nat],
            r@.subset_of(Self::defined()),
    {
        proof {
            lemma_positions_of_flags();
        }
        HWC { bits: 0x8 }
    }
}

/// The items of the category `WTI::CURSORS`.
#[derive(Clone, Copy, Debug, PartialEq, Eq, Structural)]
pub enum CSR {
    /// Text. The name of the cursor.
    NAME,
    /// `BOOL`. Whether the cursor is connected.
    ACTIVE,
    /// `WTPKT`. The data items supported while this cursor is connected.
    PKTDATA,
    /// One byte. The number of buttons on the cursor.
    BUTTONS,
    /// One byte. The number of bits of raw button data that the hardware
    /// returns.
    BUTTONBITS,
    /// Text. The names of the buttons, each ended by a zero, the list ended by
    /// one more zero.
    BTNNAMES,
    /// 32 bytes. The logical button number of each physical button.
    BUTTONMAP,
    /// 32 bytes. The action code of each logical button.
    SYSBTNMAP,
    /// One byte. The physical button that the normal pressure controls.
    NPBUTTON,
    /// Two `UINT`. The release mark and the press mark of the normal pressure
    /// button.
    NPBTNMARKS,
    /// `UINT`s. The response curve of the normal pressure.
    NPRESPONSE,
    /// One byte. The physical button that the tangent pressure controls.
    TPBUTTON,
    /// Two `UINT`. The release mark and the press mark of the tangent pressure
    /// button.
    TPBTNMARKS,
    /// `UINT`s. The response curve of the tangent pressure.
    TPRESPONSE,
    /// `DWORD`. The manufacturer's identifier of the physical cursor.
    PHYSID,
    /// `UINT`. The mode number of this cursor type, where the type has several
    /// modes.
    MODE,
    /// `UINT`. The least set of data available from a physical cursor of this
    /// type, where the type stands for several cursors.
    MINPKTDATA,
    /// `UINT`. The least number of buttons of a physical cursor of this type,
    /// where the type stands for several cursors.
    MINBUTTONS,
    /// `CRC`. What the cursor can do.
    CAPABILITIES,
    /// The type of the cursor.
    TYPE,
}

impl CSR {
    /// The number that the driver knows each item by.
    pub open spec fn spec_code(self) -> u32 {
        match self {
            CSR::NAME => 1,
            CSR::ACTIVE => 2,
            CSR::PKTDATA => 3,
            CSR::BUTTONS => 4,
            CSR::BUTTONBITS => 5,
            CSR::BTNNAMES => 6,
            CSR::BUTTONMAP => 7,
            CSR::SYSBTNMAP => 8,
            CSR::NPBUTTON => 9,
            CSR::NPBTNMARKS => 10,
            CSR::NPRESPONSE => 11,
            CSR::TPBUTTON => 12,
            CSR::TPBTNMARKS => 13,
            CSR::TPRESPONSE => 14,
            CSR::PHYSID => 15,
            CSR::MODE => 16,
            CSR::MINPKTDATA => 17,
            CSR::MINBUTTONS => 18,
            CSR::CAPABILITIES => 19,
            CSR::TYPE => 20,
        }
    }

    /// The number that the driver knows this item by.
    #[verifier::when_used_as_spec(spec_code)]
    pub fn code(self) -> (r: u32)
        ensures
            r == self.code(),
    {
        match self {
            CSR::NAME => 1,
            CSR::ACTIVE => 2,
            CSR::PKTDATA => 3,
            CSR::BUTTONS => 4,
            CSR::BUTTONBITS => 5,
            CSR::BTNNAMES => 6,
            CSR::BUTTONMAP => 7,
            CSR::SYSBTNMAP => 8,
            CSR::NPBUTTON => 9,
            CSR::NPBTNMARKS => 10,
            CSR::NPRESPONSE => 11,
            CSR::TPBUTTON => 12,
            CSR::TPBTNMARKS => 13,
            CSR::TPRESPONSE => 14,
            CSR::PHYSID => 15,
            CSR::MODE => 16,
            CSR::MINPKTDATA => 17,
            CSR::MINBUTTONS => 18,
            CSR::CAPABILITIES => 19,
            CSR::TYPE => 20,
        }
    }

    /// The item that the driver knows by `code`, if there is one.
    pub fn from_code(code: u32) -> (r: Option<CSR>)
        ensures
            match r {
                Some(found) => found.code() == code,
                None => forall|other: CSR| other.code() != code,
            },
    {
        match code {
            1 => Some(CSR::NAME),
            2 => Some(CSR::ACTIVE),
            3 => Some(CSR::PKTDATA),
            4 => Some(CSR::BUTTONS),
            5 => Some(CSR::BUTTONBITS),
            6 => Some(CSR::BTNNAMES),
            7 => Some(CSR::BUTTONMAP),
            8 => Some(CSR::SYSBTNMAP),
            9 => Some(CSR::NPBUTTON),
            10 => Some(CSR::NPBTNMARKS),
            11 => Some(CSR::NPRESPONSE),
            12 => Some(CSR::TPBUTTON),
            13 => Some(CSR::TPBTNMARKS),
            14 => Some(CSR::TPRESPONSE),
            15 => Some(CSR::PHYSID),
            16 => Some(CSR::MODE),
            17 => Some(CSR::MINPKTDATA),
            18 => Some(CSR::MINBUTTONS),
            19 => Some(CSR::CAPABILITIES),
            20 => Some(CSR::TYPE),
            _ => None,
        }
    }

    /// No two of them share a number.
    pub proof fn lemma_code_injective(a: CSR, b: CSR)
        requires
            a.code() == b.code(),
        ensures
            a == b,
    {
    }
}

/// What a cursor can do: the item `CSR::CAPABILITIES`.
#[derive(Clone, Copy, Debug, PartialEq, Eq, Structural)]
pub struct CRC {
    bits: u32,
}

impl View for CRC {
    type V = Set<nat>;

    /// The positions of the bits that are one.
    open spec fn view(&self) -> Set<nat> {
        positions(self.spec_bits())
    }
}

impl CRC {
    /// The word that backs the set.
    pub closed spec fn spec_bits(&self) -> u32 {
        self.bits
    }

    /// The positions of the capabilities that have a name.
    pub open spec fn defined() -> Set<nat> {
        below(3)
    }

    /// The word with a one for each named flag stands for the named positions.
    proof fn lemma_all_bits()
        ensures
            positions(0x7) == Self::defined(),
    {
        lemma_positions_of_low_mask(3);
        assert(((1u32 << 3u32) - 1) as u32 == 0x7) by (bit_vector);
    }

    /// Two sets with the same positions are the same set.
    pub proof fn lemma_same_view(a: CRC, b: CRC)
        requires
            a@ == b@,
        ensures
            a == b,
    {
        lemma_positions_injective(a.bits, b.bits);
    }

    /// Two sets backed by the same word are the same set.
    pub proof fn lemma_same_bits(a: CRC, b: CRC)
        requires
            a.bits() == b.bits(),
        ensures
            a == b,
    {
    }

    /// A single flag lies in the union of two sets exactly when it lies in
    /// one of them, and it never lies in the empty set.
    pub proof fn lemma_single_flag(a: CRC, b: CRC, f: CRC)
        requires
            is_single(f@),
        ensures
            f@.subset_of(a@.union(b@)) <==> (f@.subset_of(a@) || f@.subset_of(b@)),
            !f@.subset_of(Set::<nat>::empty()),
    {
        lemma_single_in_union(a@, b@, f@);
        lemma_single_not_in_empty(f@);
    }

    /// The set without any flag.
    pub fn empty() -> (r: CRC)
        ensures
            r.bits() == 0,
            r@ == Set::<nat>::empty(),
    {
        proof {
            lemma_positions_of_zero();
        }
        CRC { bits: 0 }
    }

    /// The set of every named flag, and of nothing else.
    pub fn all() -> (r: CRC)
        ensures
            r.bits() == 0x7,
            r@ == Self::defined(),
    {
        proof {
            Self::lemma_all_bits();
        }
        CRC { bits: 0x7 }
    }

    /// The word that backs the set, as it is handed to the driver.
    #[verifier::when_used_as_spec(spec_bits)]
    pub fn bits(&self) -> (r: u32)
        ensures
            r == self.bits(),
    {
        self.bits
    }

    /// The set that `bits` stands for, unless `bits` has a one where no flag
    /// has a name.
    pub fn from_bits(bits: u32) -> (r: Option<CRC>)
        ensures
            r is Some <==> positions(bits).subset_of(Self::defined()),
            r matches Some(set) ==> set.bits() == bits,
    {
        proof {
            Self::lemma_all_bits();
            lemma_positions_within(bits, 0x7);
        }
        if bits & !0x7 == 0 {
            Some(CRC { bits })
        } else {
            None
        }
    }

    /// The named flags among the ones of `bits`; the other ones are dropped.
    pub fn from_bits_truncate(bits: u32) -> (r: CRC)
        ensures
            r.bits() == bits & 0x7,
            r@ == positions(bits).intersect(Self::defined()),
    {
        proof {
            Self::lemma_all_bits();
            lemma_positions_of_and(bits, 0x7);
        }
        CRC { bits: bits & 0x7 }
    }

    /// The set that `bits` stands for, with every one kept, named or not.
    pub fn from_bits_retain(bits: u32) -> (r: CRC)
        ensures
            r.bits() == bits,
    {
        CRC { bits }
    }

    /// True when the set holds nothing.
    pub fn is_empty(&self) -> (r: bool)
        ensures
            r == (self@ == Set::<nat>::empty()),
            r == (self.bits() == 0),
    {
        proof {
            lemma_positions_empty_iff_zero(self.bits);
        }
        self.bits == 0
    }

    /// True when the set holds every named flag.
    pub fn is_all(&self) -> (r: bool)
        ensures
            r == Self::defined().subset_of(self@),
    {
        proof {
            Self::lemma_all_bits();
            lemma_positions_subset(self.bits, 0x7);
        }
        self.bits & 0x7 == 0x7
    }

    /// True when the set holds everything that `other` holds.
    pub fn contains(&self, other: CRC) -> (r: bool)
        ensures
            r == other@.subset_of(self@),
    {
        proof {
            lemma_positions_subset(self.bits, other.bits);
        }
        self.bits & other.bits == other.bits
    }

    /// True when the set and `other` have something in common.
    pub fn intersects(&self, other: CRC) -> (r: bool)
        ensures
            r == !self@.disjoint(other@),
    {
        proof {
            lemma_positions_overlap(self.bits, other.bits);
        }
        self.bits & other.bits != 0
    }

    /// What is in the set or in `other`.
    pub fn union(self, other: CRC) -> (r: CRC)
        ensures
            r@ == self@.union(other@),
            r.bits() == self.bits() | other.bits(),
    {
        proof {
            lemma_positions_of_or(self.bits, other.bits);
        }
        CRC { bits: self.bits | other.bits }
    }

    /// What is in the set and in `other`.
    pub fn intersection(self, other: CRC) -> (r: CRC)
        ensures
            r@ == self@.intersect(other@),
            r.bits() == self.bits() & other.bits(),
    {
        proof {
            lemma_positions_of_and(self.bits, other.bits);
        }
        CRC { bits: self.bits & other.bits }
    }

    /// What is in the set and not in `other`.
    pub fn difference(self, other: CRC) -> (r: CRC)
        ensures
            r@ == self@.difference(other@),
            r.bits() == self.bits() & !other.bits(),
    {
        proof {
            lemma_positions_of_and_not(self.bits, other.bits);
        }
        CRC { bits: self.bits & !other.bits }
    }

    /// The named flags that are not in the set.
    pub fn complement(self) -> (r: CRC)
        ensures
            r@ == Self::defined().difference(self@),
            r.bits() == 0x7 & !self.bits(),
    {
        proof {
            Self::lemma_all_bits();
            lemma_positions_of_and_not(0x7, self.bits);
        }
        CRC { bits: 0x7 & !self.bits }
    }

    /// Adds what `other` holds to the set.
    pub fn insert(&mut self, other: CRC)
        ensures
            final(self)@ == old(self)@.union(other@),
            final(self).bits() == old(self).bits() | other.bits(),
    {
        proof {
            lemma_positions_of_or(self.bits, other.bits);
        }
        self.bits = self.bits | other.bits;
    }

    /// Takes what `other` holds out of the set.
    pub fn remove(&mut self, other: CRC)
        ensures
            final(self)@ == old(self)@.difference(other@),
            final(self).bits() == old(self).bits() & !other.bits(),
    {
        proof {
            lemma_positions_of_and_not(self.bits, other.bits);
        }
        self.bits = self.bits & !other.bits;
    }

    /// The cursor type is one of several modes of one physical cursor.
    #[allow(non_snake_case)]
    pub fn CRC_MULTIMODE() -> (r: CRC)
        ensures
            r.bits() == 0x1,
            r@ == set![0nat],
            r@.subset_of(Self::defined()),
    {
        proof {
            lemma_positions_of_flags();
        }
        CRC { bits: 0x1 }
    }

    /// The cursor type stands for several physical cursors that software cannot
    /// tell apart.
    #[allow(non_snake_case)]
    pub fn CRC_AGGREGATE() -> (r: CRC)
        ensures
            r.bits() == 0x2,
            r@ == set![1nat],
            r@.subset_of(Self::defined()),
    {
        proof {
            lemma_positions_of_flags();
        }
        CRC { bits: 0x2 }
    }

    /// The cursor type is the inverted orientation of the type before it.
    #[allow(non_snake_case)]
    pub fn CRC_INVERT() -> (r: CRC)
        ensures
            r.bits() == 0x4,
            r@ == set![2nat],
            r@.subset_of(Self::defined()),
    {
        proof {
            lemma_positions_of_flags();
        }
        CRC { bits: 0x4 }
    }
}

/// The items of the category `WTI::EXTENSIONS`.
#[derive(Clone, Copy, Debug, PartialEq, Eq, Structural)]
pub enum EXT {
    /// Text. The unique name of the extension.
    NAME,
    /// `UINT`. The unique identifier of the extension.
    TAG,
    /// `WTPKT`. The bits that select the extension in a set of data items.
    MASK,
    /// Two `UINT`. The size of the extension's data in a packet, in bytes: in
    /// absolute mode, then in relative mode.
    SIZE,
    /// `AXIS`s. The axes of the extension.
    AXES,
    /// Bytes. The global default data of the extension.
    DEFAULT,
    /// Bytes. The default data of the extension for the system context.
    DEFSYSCTX,
    /// Bytes. The default data of the extension for the digitizing context.
    DEFCONTEXT,
    /// Bytes. The first of the items that hold the default data for each cursor
    /// type, one item for each type.
    CURSORS,
    /// The first of the items that hold the default data for each device.
    DEVICES,
}

impl EXT {
    /// The number that the driver knows each item by.
    pub open spec fn spec_code(self) -> u32 {
        match self {
            EXT::NAME => 1,
            EXT::TAG => 2,
            EXT::MASK => 3,
            EXT::SIZE => 4,
            EXT::AXES => 5,
            EXT::DEFAULT => 6,
            EXT::DEFSYSCTX => 7,
            EXT::DEFCONTEXT => 8,
            EXT::CURSORS => 9,
            EXT::DEVICES => 110,
        }
    }

    /// The number that the driver knows this item by.
    #[verifier::when_used_as_spec(spec_code)]
    pub fn code(self) -> (r: u32)
        ensures
            r == self.code(),
    {
        match self {
            EXT::NAME => 1,
            EXT::TAG => 2,
            EXT::MASK => 3,
            EXT::SIZE => 4,
            EXT::AXES => 5,
            EXT::DEFAULT => 6,
            EXT::DEFSYSCTX => 7,
            EXT::DEFCONTEXT => 8,
            EXT::CURSORS => 9,
            EXT::DEVICES => 110,
        }
    }

    /// The item that the driver knows by `code`, if there is one.
    pub fn from_code(code: u32) -> (r: Option<EXT>)
        ensures
            match r {
                Some(found) => found.code() == code,
                None => forall|other: EXT| other.code() != code,
            },
    {
        match code {
            1 => Some(EXT::NAME),
            2 => Some(EXT::TAG),
            3 => Some(EXT::MASK),
            4 => Some(EXT::SIZE),
            5 => Some(EXT::AXES),
            6 => Some(EXT::DEFAULT),
            7 => Some(EXT::DEFSYSCTX),
            8 => Some(EXT::DEFCONTEXT),
            9 => Some(EXT::CURSORS),
            110 => Some(EXT::DEVICES),
            _ => None,
        }
    }

    /// No two of them share a number.
    pub proof fn lemma_code_injective(a: EXT, b: EXT)
        requires
            a.code() == b.code(),
        ensures
            a == b,
    {
    }
}

} // verus!
