//! The numbers of the messages by which the driver tells a window what
//! happened to a context: the window that owns the context, and every
//! manager window.
use vstd::prelude::*;

verus! {

/// The first message number of a context with the default message base.
pub const WT_DEFBASE: u32 = 32752;

/// A packet is waiting. The message carries the packet's serial number and
/// the handle of the context that processed it.
pub const PACKET: u32 = WT_DEFBASE + 0;

/// A context was opened. The message carries the handle of the context and
/// its status.
pub const CTXOPEN: u32 = WT_DEFBASE + 1;

/// A context is about to be closed. The message carries the handle of the
/// context and its status.
pub const CTXCLOSE: u32 = WT_DEFBASE + 2;

/// A context was changed. The message carries the handle of the context and
/// its status.
pub const CTXUPDATE: u32 = WT_DEFBASE + 3;

/// A context was moved in the overlap order. The message carries the handle
/// of the context and its status.
pub const CTXOVERLAP: u32 = WT_DEFBASE + 4;

/// The cursor enters or leaves a context. The message carries the handle of
/// the context; the low word of its second value is zero when the cursor
/// leaves the context, the high word is other than zero when the cursor
/// enters or leaves the range in which the hardware detects it.
pub const PROXIMITY: u32 = WT_DEFBASE + 5;

/// The number of connected tablets has changed. The message carries the
/// handle of the manager that made the change, or zero for the hardware, and
/// the category and item of what changed.
pub const INFOCHANGE: u32 = WT_DEFBASE + 6;

/// A new cursor enters the context. The message carries the serial number of
/// the packet that caused it and the handle of the context. Only a context
/// with the option `CXO::CSRMESSAGES` sends it.
pub const CSRCHANGE: u32 = WT_DEFBASE + 7;

/// A packet of an extension is waiting.
pub const PACKETEXT: u32 = WT_DEFBASE + 8;

} // verus!
