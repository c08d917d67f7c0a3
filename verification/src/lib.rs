//! The records that an application exchanges with the driver of a digitizer
//! tablet through the Wintab interface, and the rules of that exchange.
//!
//! Each record has a fixed image in bytes, which is what the driver reads and
//! writes: `to_bytes` gives it, `from_bytes` reads it back, and the two are
//! proved to undo each other. The flag sets are sets of bit positions, the
//! enumerations carry the numbers that the driver knows them by, and
//! `Connection` follows a context through its life, from the query for a
//! default to the closing of the handle.
pub mod axis;
pub mod bitmask;
pub mod bits;
pub mod c_string_types;
pub mod c_type_aliases;
pub mod coordinate;
pub mod information_categories;
pub mod layout;
pub mod log_context;
pub mod packet;
pub mod protocol;
mod text;
pub mod window_message;
pub mod wire;
pub mod wtpkt;

pub use axis::{AXIS, TU};
pub use bitmask::Bitmask;
pub use c_string_types::CString40;
pub use c_type_aliases::{BOOL, DWORD, FIX32, HCTX, HWND, INT, LONG, UINT};
pub use coordinate::{XY, XYZ};
pub use information_categories::{CRC, CSR, CTX, DVC, EXT, HWC, IFC, STA, WTI};
pub use log_context::{CXL, CXO, CXS, LOGCONTEXT};
pub use packet::{ButtonChange, ButtonChangeType, Orientation, Packet, Rotation, TPS};
pub use protocol::{Connection, Event, ProtocolError, Stage};
pub use window_message as WT;
pub use wtpkt::WTPKT;
