//! The integer types of the tablet interface, its two handles and its
//! fixed-point number.
use vstd::prelude::*;

verus! {

/// A signed 32-bit integer.
pub type LONG = i32;

/// An unsigned 32-bit integer.
pub type DWORD = u32;

/// An unsigned 32-bit integer.
pub type UINT = u32;

/// A signed 32-bit integer.
pub type INT = i32;

/// A truth value in 32 bits: zero is false, anything else is true.
pub type BOOL = i32;

/// The identity of the window that owns a context.
#[derive(Clone, Copy, Debug, PartialEq, Eq, Structural)]
pub struct HWND(isize);

impl HWND {
    /// The number that identifies the window.
    pub closed spec fn spec_raw(self) -> isize {
        self.0
    }

    /// Wraps the number by which the window system knows a window.
    pub fn new(raw: isize) -> (r: HWND)
        ensures
            r.raw() == raw,
    {
        HWND(raw)
    }

    /// The number by which the window system knows the window.
    #[verifier::when_used_as_spec(spec_raw)]
    pub fn raw(self) -> (r: isize)
        ensures
            r == self.raw(),
    {
        self.0
    }
}

/// The handle of a context: the address under which the driver knows an
/// open connection. The null handle (zero) stands for no connection.
#[derive(Clone, Copy, Debug, PartialEq, Eq, Structural)]
pub struct HCTX(usize);

impl HCTX {
    /// The address that makes up the handle.
    pub closed spec fn spec_raw(self) -> usize {
        self.0
    }

    /// Wraps an address that the driver gave out.
    pub fn new(raw: usize) -> (r: HCTX)
        ensures
            r.raw() == raw,
    {
        HCTX(raw)
    }

    /// The null handle.
    pub fn null() -> (r: HCTX)
        ensures
            r.raw() == 0,
    {
        HCTX(0)
    }

    /// The address that makes up the handle.
    #[verifier::when_used_as_spec(spec_raw)]
    pub fn raw(self) -> (r: usize)
        ensures
            r == self.raw(),
    {
        self.0
    }

    /// True for the null handle, which the driver returns when it opens nothing.
    pub fn is_null(self) -> (r: bool)
        ensures
            r == (self.raw() == 0),
    {
        self.0 == 0
    }
}

impl Default for HCTX {
    /// The null handle.
    fn default() -> (r: HCTX)
        ensures
            r.raw() == 0,
    {
        HCTX(0)
    }
}

/// A 32-bit fixed-point number with the radix point between its two words:
/// 16 bits to the left of the point and 16 bits to the right of it. The
/// number it stands for is `raw / 65536`.
#[derive(Clone, Copy, Debug, PartialEq, Eq, Structural)]
pub struct FIX32(DWORD);

impl FIX32 {
    /// The 32 bits that make up the number.
    pub closed spec fn spec_raw(self) -> u32 {
        self.0
    }

    /// Creates a fixed-point number from its 32 bits. Nothing is lost.
    pub fn new(value: DWORD) -> (r: FIX32)
        ensures
            r.raw() == value,
    {
        FIX32(value)
    }

    /// The 32 bits that make up the number.
    #[verifier::when_used_as_spec(spec_raw)]
    pub fn raw(self) -> (r: DWORD)
        ensures
            r == self.raw(),
    {
        self.0
    }

    /// The integer part: the high word, with no rounding.
    pub fn int_part(self) -> (r: u32)
        ensures
            r == self.raw() >> 16,
            r == self.raw() / 65536,
    {
        let value: u32 = self.0;
        assert(value >> 16 == value / 65536) by (bit_vector);
        value >> 16
    }

    /// The fractional part, in units of 1/65536: the low word, with no rounding.
    pub fn frac_part(self) -> (r: u32)
        ensures
            r == self.raw() & 0xFFFF,
            r == self.raw() % 65536,
    {
        let value: u32 = self.0;
        assert(value & 0xFFFF == value % 65536) by (bit_vector);
        value & 0xFFFF
    }

    /// The 32 bits nearest to `scaled`: itself where it fits, zero below
    /// zero, and all ones above the largest 32-bit number.
    pub open spec fn saturate(scaled: int) -> u32 {
        if scaled <= 0 {
            0
        } else if scaled >= u32::MAX {
            u32::MAX
        } else {
            scaled as u32
        }
    }

    /// The fixed-point number nearest to `scaled / 65536`, where `scaled` is a
    /// number that was multiplied by 65536 and rounded to an integer. A
    /// number below zero becomes zero and one above the largest fixed-point
    /// number becomes that largest number: the conversion saturates.
    pub fn from_scaled(scaled: i64) -> (r: FIX32)
        ensures
            r.raw() == Self::saturate(scaled as int),
    {
        if scaled <= 0 {
            FIX32(0)
        } else if scaled >= 0xFFFF_FFFF {
            FIX32(0xFFFF_FFFF)
        } else {
            FIX32(scaled as u32)
        }
    }

    /// The number multiplied by 65536, which is an integer: the inverse of
    /// `from_scaled` on the numbers that it does not saturate.
    pub fn to_scaled(self) -> (r: i64)
        ensures
            r == self.raw(),
    {
        self.0 as i64
    }
}

impl Default for FIX32 {
    /// The number zero.
    fn default() -> (r: FIX32)
        ensures
            r.raw() == 0,
    {
        FIX32(0)
    }
}

/// Two fixed-point numbers made up of the same 32 bits are the same number.
pub proof fn lemma_fix32_same_raw(a: FIX32, b: FIX32)
    requires
        a.raw() == b.raw(),
    ensures
        a == b,
{
}

/// Two handles made up of the same address are the same handle.
pub proof fn lemma_hctx_same_raw(a: HCTX, b: HCTX)
    requires
        a.raw() == b.raw(),
    ensures
        a == b,
{
}

/// The two parts of a fixed-point number make up its 32 bits again, and each
/// fits in one word.
pub proof fn lemma_fix32_parts(value: FIX32)
    ensures
        value.raw() == (value.raw() >> 16) * 65536 + (value.raw() & 0xFFFF),
        (value.raw() >> 16) <= 0xFFFF,
        (value.raw() & 0xFFFF) <= 0xFFFF,
{
    let v: u32 = value.raw();
    assert(v == (v >> 16) * 65536 + (v & 0xFFFF) && (v >> 16) <= 0xFFFF && (v & 0xFFFF) <= 0xFFFF)
        by (bit_vector);
}

/// A fixed-point number that is scaled and converted back is the same
/// number: on its own range the conversion loses nothing.
pub proof fn lemma_fix32_scaled_round_trip(value: FIX32)
    ensures
        FIX32::saturate(value.raw() as int) == value.raw(),
{
}

} // verus!
