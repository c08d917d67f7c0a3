//! A word of bits that is shown as ones and zeros.
use crate::bits::has_bit;
use crate::text::push_char;
use vstd::prelude::*;

verus! {

/// A wrapper for an unsigned integer whose bits each stand for something,
/// such as the buttons of a cursor. It holds the integer as it is, and shows
/// it bit by bit.
#[derive(Clone, Copy, Debug, PartialEq, Eq)]
pub struct Bitmask<T>(pub T);

impl<T: Default> Default for Bitmask<T> {
    /// The mask around the integer's own default, which is zero.
    fn default() -> (r: Bitmask<T>)
        ensures
            call_ensures(T::default, (), r.0),
    {
        Bitmask(T::default())
    }
}

impl<T> core::ops::Deref for Bitmask<T> {
    type Target = T;

    /// The integer inside the mask.
    fn deref(&self) -> (r: &T)
        ensures
            *r == self.0,
    {
        &self.0
    }
}

/// The digit that shows bit number `bit` of `value`.
pub open spec fn digit_of(value: u64, bit: int) -> char {
    if (value >> (bit as u64)) & 1 == 1 {
        '1'
    } else {
        '0'
    }
}

/// The binary digits of the lowest `width` bits of `value`, the highest of
/// them first.
pub open spec fn binary_digits(value: u64, width: nat) -> Seq<char> {
    Seq::new(width, |i: int| digit_of(value, width - 1 - i))
}

/// The digits of a mask of 32 bits show its positions: there is a one for
/// each position of the mask, and a zero for every other.
pub proof fn lemma_digits_show_positions(mask: u32, bit: nat)
    requires
        bit < 32,
    ensures
        binary_digits(mask as u64, 32)[31 - bit] == (if has_bit(mask, bit) {
            '1'
        } else {
            '0'
        }),
{
    let wide: u64 = mask as u64;
    let shift: u32 = bit as u32;
    assert(((wide >> (shift as u64)) & 1 == 1) <==> ((mask >> shift) & 1 == 1)) by (bit_vector)
        requires
            wide == mask as u64,
            shift < 32,
    ;
}

/// Appends the `width` lowest binary digits of `value` to `text`.
fn push_digits(text: &mut String, value: u64, width: u32)
    requires
        width <= 64,
    ensures
        final(text)@ == old(text)@ + binary_digits(value, width as nat),
{
    let ghost before = text@;
    let mut i: u32 = 0;
    while i < width
        invariant
            i <= width <= 64,
            text@ == before + binary_digits(value, width as nat).take(i as int),
        decreases width - i,
    {
        let shift: u32 = width - 1 - i;
        let digit: char = if (value >> shift) & 1 == 1 {
            '1'
        } else {
            '0'
        };
        assert((value >> shift) == (value >> (shift as u64))) by (bit_vector);
        push_char(text, digit);
        assert(text@ =~= before + binary_digits(value, width as nat).take(i + 1));
        i += 1;
    }
    assert(text@ =~= before + binary_digits(value, width as nat));
}

impl Bitmask<u8> {
    /// The mask as text: its 8 binary digits, the highest bit first, with
    /// every leading zero written out.
    pub fn to_binary_string(&self) -> (r: String)
        ensures
            r@ == binary_digits(self.0 as u64, 8),
    {
        let mut text: String = String::new();
        push_digits(&mut text, self.0 as u64, 8);
        assert(text@ =~= binary_digits(self.0 as u64, 8));
        text
    }

    /// The mask as text for a programmer: `0b` and then its 8 binary
    /// digits.
    pub fn to_debug_string(&self) -> (r: String)
        ensures
            r@ == seq!['0', 'b'] + binary_digits(self.0 as u64, 8),
    {
        let mut text: String = String::new();
        push_char(&mut text, '0');
        push_char(&mut text, 'b');
        assert(text@ =~= seq!['0', 'b']);
        push_digits(&mut text, self.0 as u64, 8);
        text
    }
}

impl Bitmask<u16> {
    /// The mask as text: its 16 binary digits, the highest bit first, with
    /// every leading zero written out.
    pub fn to_binary_string(&self) -> (r: String)
        ensures
            r@ == binary_digits(self.0 as u64, 16),
    {
        let mut text: String = String::new();
        push_digits(&mut text, self.0 as u64, 16);
        assert(text@ =~= binary_digits(self.0 as u64, 16));
        text
    }

    /// The mask as text for a programmer: `0b` and then its 16 binary
    /// digits.
    pub fn to_debug_string(&self) -> (r: String)
        ensures
            r@ == seq!['0', 'b'] + binary_digits(self.0 as u64, 16),
    {
        let mut text: String = String::new();
        push_char(&mut text, '0');
        push_char(&mut text, 'b');
        assert(text@ =~= seq!['0', 'b']);
        push_digits(&mut text, self.0 as u64, 16);
        text
    }
}

impl Bitmask<u32> {
    /// The mask as text: its 32 binary digits, the highest bit first, with
    /// every leading zero written out.
    pub fn to_binary_string(&self) -> (r: String)
        ensures
            r@ == binary_digits(self.0 as u64, 32),
    {
        let mut text: String = String::new();
        push_digits(&mut text, self.0 as u64, 32);
        assert(text@ =~= binary_digits(self.0 as u64, 32));
        text
    }

    /// The mask as text for a programmer: `0b` and then its 32 binary
    /// digits.
    pub fn to_debug_string(&self) -> (r: String)
        ensures
            r@ == seq!['0', 'b'] + binary_digits(self.0 as u64, 32),
    {
        let mut text: String = String::new();
        push_char(&mut text, '0');
        push_char(&mut text, 'b');
        assert(text@ =~= seq!['0', 'b']);
        push_digits(&mut text, self.0 as u64, 32);
        text
    }
}

impl Bitmask<u64> {
    /// The mask as text: its 64 binary digits, the highest bit first, with
    /// every leading zero written out.
    pub fn to_binary_string(&self) -> (r: String)
        ensures
            r@ == binary_digits(self.0 as u64, 64),
    {
        let mut text: String = String::new();
        push_digits(&mut text, self.0 as u64, 64);
        assert(text@ =~= binary_digits(self.0 as u64, 64));
        text
    }

    /// The mask as text for a programmer: `0b` and then its 64 binary
    /// digits.
    pub fn to_debug_string(&self) -> (r: String)
        ensures
            r@ == seq!['0', 'b'] + binary_digits(self.0 as u64, 64),
    {
        let mut text: String = String::new();
        push_char(&mut text, '0');
        push_char(&mut text, 'b');
        assert(text@ =~= seq!['0', 'b']);
        push_digits(&mut text, self.0 as u64, 64);
        text
    }
}

} // verus!
