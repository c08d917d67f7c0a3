//! The fixed buffer of 40 bytes that holds a context's name.
use crate::text::push_char;
use vstd::prelude::*;

verus! {

/// The byte that stands for a character: the character's own code where it
/// is an ASCII character, and a space for every other character.
pub open spec fn byte_of_char(c: char) -> u8 {
    if (c as u32) < 128 {
        c as u8
    } else {
        32
    }
}

/// The 40 bytes that writing `source` leaves in the buffer: the bytes of its
/// first 39 characters, then zeros up to the end.
pub open spec fn written(source: Seq<char>) -> Seq<u8> {
    Seq::new(
        40,
        |i: int|
            if i < 39 && i < source.len() {
                byte_of_char(source[i])
            } else {
                0u8
            },
    )
}

/// The first position from `from` on at which `bytes` holds a zero, or the
/// length of `bytes` where it holds none there.
pub open spec fn zero_from(bytes: Seq<u8>, from: int) -> int
    decreases bytes.len() - from,
{
    if from < 0 || from >= bytes.len() {
        bytes.len() as int
    } else if bytes[from] == 0 {
        from
    } else {
        zero_from(bytes, from + 1)
    }
}

/// The bytes that a reader sees: those before the first zero byte. A buffer
/// without any zero byte shows nothing.
pub open spec fn visible(bytes: Seq<u8>) -> Seq<u8> {
    let end = zero_from(bytes, 0);
    if end >= bytes.len() {
        Seq::<u8>::empty()
    } else {
        bytes.take(end)
    }
}

/// The characters that stand for the bytes, one for one.
pub open spec fn chars_of(bytes: Seq<u8>) -> Seq<char> {
    Seq::new(bytes.len(), |i: int| bytes[i] as char)
}

/// `zero_from` finds the first zero: no byte between `from` and the result
/// is zero, and the result, where it lies inside `bytes`, holds a zero.
pub proof fn lemma_zero_from(bytes: Seq<u8>, from: int)
    requires
        0 <= from <= bytes.len(),
    ensures
        from <= zero_from(bytes, from) <= bytes.len(),
        forall|i: int| from <= i < zero_from(bytes, from) ==> bytes[i] != 0,
        zero_from(bytes, from) < bytes.len() ==> bytes[zero_from(bytes, from)] == 0,
    decreases bytes.len() - from,
{
    if from < bytes.len() && bytes[from] != 0 {
        lemma_zero_from(bytes, from + 1);
    }
}

/// A position that holds a zero, with none before it, is what `zero_from` finds.
pub proof fn lemma_zero_from_is(bytes: Seq<u8>, from: int, end: int)
    requires
        0 <= from <= end <= bytes.len(),
        forall|i: int| from <= i < end ==> bytes[i] != 0,
        end < bytes.len() ==> bytes[end] == 0,
    ensures
        zero_from(bytes, from) == end,
    decreases end - from,
{
    if from < end {
        lemma_zero_from_is(bytes, from + 1, end);
    }
}

/// A buffer of 40 bytes that holds a run of single-byte characters, ended by
/// a zero byte.
#[derive(Clone, Copy, Debug, PartialEq, Eq)]
pub struct CString40 {
    inner: [u8; 40],
}

impl CString40 {
    /// The 40 bytes of the buffer.
    pub closed spec fn spec_bytes(self) -> Seq<u8> {
        self.inner@
    }

    /// The text that the buffer shows.
    pub open spec fn text(self) -> Seq<char> {
        chars_of(visible(self.spec_bytes()))
    }

    /// True when the last byte of the buffer is zero, so that the text ends
    /// inside the buffer.
    pub open spec fn is_terminated(self) -> bool {
        self.spec_bytes()[39] == 0
    }

    /// The buffer has 40 bytes.
    pub proof fn lemma_len(self)
        ensures
            self.spec_bytes().len() == 40,
    {
    }

    /// Wraps 40 bytes as they stand, such as a name that the driver wrote.
    pub fn from_bytes(bytes: [u8; 40]) -> (r: CString40)
        ensures
            r.spec_bytes() == bytes@,
    {
        CString40 { inner: bytes }
    }

    /// The 40 bytes of the buffer.
    pub fn as_bytes(&self) -> (r: [u8; 40])
        ensures
            r@ == self.spec_bytes(),
    {
        self.inner
    }

    /// Appends the 40 bytes of the buffer to `out`.
    pub fn write_to(&self, out: &mut Vec<u8>)
        ensures
            final(out)@ == old(out)@ + self.spec_bytes(),
    {
        let ghost before = out@;
        let mut i: usize = 0;
        while i < 40
            invariant
                i <= 40,
                self.inner@.len() == 40,
                out@ == before + self.inner@.take(i as int),
            decreases 40 - i,
        {
            out.push(self.inner[i]);
            assert(out@ =~= before + self.inner@.take(i + 1));
            i += 1;
        }
        assert(out@ =~= before + self.inner@);
    }

    /// The buffer whose 40 bytes stand at `at` in `bytes`.
    pub fn read_at(bytes: &[u8], at: usize) -> (r: CString40)
        requires
            at + 40 <= bytes.len(),
        ensures
            r.spec_bytes() == bytes@.subrange(at as int, at + 40),
    {
        let mut inner: [u8; 40] = [0u8; 40];
        let mut i: usize = 0;
        while i < 40
            invariant
                i <= 40,
                at + 40 <= bytes.len(),
                inner@.len() == 40,
                forall|j: int| 0 <= j < i ==> inner@[j] == bytes@[at + j],
            decreases 40 - i,
        {
            inner[i] = bytes[at + i];
            i += 1;
        }
        assert(inner@ =~= bytes@.subrange(at as int, at + 40));
        CString40 { inner }
    }

    /// Writes `new_value` into the buffer over what it held. Of a longer text
    /// only the first 39 characters are kept; a shorter one is followed by
    /// zero bytes up to the end. A character that is no ASCII character is
    /// written as a space. The last byte is zero in any case.
    pub fn write_str(&mut self, new_value: &str)
        ensures
            final(self).spec_bytes() == written(new_value@),
            final(self).is_terminated(),
    {
        let count: usize = new_value.unicode_len();
        let mut i: usize = 0;
        while i < 40
            invariant
                i <= 40,
                count == new_value@.len(),
                self.inner@.len() == 40,
                forall|j: int| 0 <= j < i ==> self.inner@[j] == written(new_value@)[j],
            decreases 40 - i,
        {
            let byte: u8 = if i < 39 && i < count {
                let c: char = new_value.get_char(i);
                if (c as u32) < 128 {
                    c as u8
                } else {
                    32
                }
            } else {
                0
            };
            self.inner[i] = byte;
            i += 1;
        }
        assert(self.inner@ =~= written(new_value@));
    }

    /// The number of bytes that the buffer shows: those before its first
    /// zero byte, or none where it holds no zero byte at all.
    pub fn len(&self) -> (r: usize)
        ensures
            r == visible(self.spec_bytes()).len(),
            r <= 39,
    {
        let mut end: usize = 0;
        proof {
            lemma_zero_from(self.inner@, 0);
        }
        while end < 40 && self.inner[end] != 0
            invariant
                end <= 40,
                self.inner@.len() == 40,
                forall|j: int| 0 <= j < end ==> self.inner@[j] != 0,
            decreases 40 - end,
        {
            end += 1;
        }
        proof {
            lemma_zero_from_is(self.inner@, 0, end as int);
        }
        if end == 40 {
            0
        } else {
            end
        }
    }

    /// True when the buffer shows no text.
    pub fn is_empty(&self) -> (r: bool)
        ensures
            r == (self.text().len() == 0),
    {
        self.len() == 0
    }

    /// The text that the buffer shows: the characters before the first zero
    /// byte, one for each byte. It is empty where the first byte is zero, and
    /// where no byte is zero.
    pub fn read(&self) -> (r: String)
        ensures
            r@ == self.text(),
    {
        let shown: usize = self.len();
        let mut text: String = String::new();
        let mut i: usize = 0;
        while i < shown
            invariant
                i <= shown <= 39,
                shown == visible(self.inner@).len(),
                self.inner@.len() == 40,
                text@ == chars_of(visible(self.inner@)).take(i as int),
            decreases shown - i,
        {
            proof {
                lemma_zero_from(self.inner@, 0);
            }
            let c: char = self.inner[i] as char;
            push_char(&mut text, c);
            assert(text@ =~= chars_of(visible(self.inner@)).take(i + 1));
            i += 1;
        }
        assert(text@ =~= chars_of(visible(self.inner@)));
        text
    }
}

impl Default for CString40 {
    /// The empty buffer: 40 zero bytes.
    fn default() -> (r: CString40)
        ensures
            r.spec_bytes() == Seq::new(40, |i: int| 0u8),
            r.is_terminated(),
            r.text() == Seq::<char>::empty(),
    {
        let r = CString40 { inner: [0u8; 40] };
        assert(r.inner@ =~= Seq::new(40, |i: int| 0u8));
        assert(chars_of(visible(r.inner@)) =~= Seq::<char>::empty());
        r
    }
}

/// Two buffers that hold the same bytes are the same buffer.
pub proof fn lemma_same_bytes(a: CString40, b: CString40)
    requires
        a.spec_bytes() == b.spec_bytes(),
    ensures
        a == b,
{
    assert(a.inner =~= b.inner);
}

/// A buffer shows at most 39 bytes: its text ends before its last byte.
pub proof fn lemma_text_is_short(bytes: Seq<u8>)
    requires
        bytes.len() == 40,
    ensures
        visible(bytes).len() <= 39,
{
    lemma_zero_from(bytes, 0);
}

/// What is written can be read back: a text without a zero character shows
/// again as its first 39 characters, each as the byte that stands for it.
pub proof fn lemma_write_then_read(source: Seq<char>)
    requires
        forall|i: int| 0 <= i < source.len() && i < 39 ==> byte_of_char(source[i]) != 0,
    ensures
        visible(written(source)) == Seq::new(
            if source.len() < 39 {
                source.len()
            } else {
                39
            },
            |i: int| byte_of_char(source[i]),
        ),
{
    let kept: int = if source.len() < 39 {
        source.len() as int
    } else {
        39
    };
    lemma_zero_from_is(written(source), 0, kept);
    assert(visible(written(source)) =~= Seq::new(kept as nat, |i: int| byte_of_char(source[i])));
}

/// Writing the empty text leaves nothing to read.
pub proof fn lemma_write_empty()
    ensures
        visible(written(Seq::<char>::empty())) == Seq::<u8>::empty(),
{
    lemma_zero_from_is(written(Seq::<char>::empty()), 0, 0);
}

} // verus!
