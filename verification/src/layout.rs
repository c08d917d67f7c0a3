//! Where the fields of a record stand in memory.
//!
//! The driver is written in C, and it finds a field where the rules of C put
//! it: each field stands at the first position behind the field before it
//! that is a multiple of the field's alignment, and the record ends at the
//! first multiple of its own alignment, which is the greatest alignment among
//! its fields. A record may be packed: then no alignment counts for more than
//! the packing.
use vstd::arithmetic::div_mod::{lemma_fundamental_div_mod, lemma_mod_multiples_vanish};
use vstd::prelude::*;

verus! {

/// The shape of one field: the number of its bytes, and its alignment.
#[derive(Clone, Copy, Debug, PartialEq, Eq, Structural)]
pub struct FieldShape {
    /// The number of bytes of the field.
    pub size: usize,
    /// The field stands at a multiple of this number.
    pub align: usize,
}

/// The shape of a record: where each of its fields stands, how many bytes it
/// has with the bytes that fill it up, and its alignment.
#[derive(Clone, Debug, PartialEq, Eq)]
pub struct RecordShape {
    /// The position of each field, counted in bytes from the start.
    pub offsets: Vec<usize>,
    /// The number of bytes of the record.
    pub size: usize,
    /// The record stands at a multiple of this number.
    pub align: usize,
}

/// The first multiple of `unit` that is not below `n`.
pub open spec fn round_up(n: int, unit: int) -> int {
    if unit <= 0 || n % unit == 0 {
        n
    } else {
        n + unit - n % unit
    }
}

/// The alignment that counts for a field in a record that is packed to
/// `pack`: never more than `pack`. A `pack` of zero is no packing.
pub open spec fn capped(align: int, pack: int) -> int {
    if 0 < pack < align {
        pack
    } else {
        align
    }
}

/// True when every field has an alignment, which is a number above zero.
pub open spec fn shapes_valid(fields: Seq<FieldShape>) -> bool {
    forall|k: int| 0 <= k < fields.len() ==> (#[trigger] fields[k]).align > 0
}

/// The position behind the first `k` fields.
pub open spec fn end_of(fields: Seq<FieldShape>, pack: int, k: int) -> int
    decreases k,
{
    if k <= 0 {
        0
    } else {
        round_up(end_of(fields, pack, k - 1), capped(fields[k - 1].align as int, pack)) + fields[k
            - 1].size
    }
}

/// The position of field `k`.
pub open spec fn offset_of(fields: Seq<FieldShape>, pack: int, k: int) -> int {
    round_up(end_of(fields, pack, k), capped(fields[k].align as int, pack))
}

/// The greatest alignment among the first `k` fields, and one where there is
/// no field.
pub open spec fn align_of(fields: Seq<FieldShape>, pack: int, k: int) -> int
    decreases k,
{
    if k <= 0 {
        1
    } else {
        let before = align_of(fields, pack, k - 1);
        let own = capped(fields[k - 1].align as int, pack);
        if own > before {
            own
        } else {
            before
        }
    }
}

/// The number of bytes of the record.
pub open spec fn size_of(fields: Seq<FieldShape>, pack: int) -> int {
    round_up(end_of(fields, pack, fields.len() as int), align_of(fields, pack, fields.len() as int))
}

/// Rounding up goes to a multiple of the unit, and adds less than one unit.
pub proof fn lemma_round_up(n: int, unit: int)
    requires
        0 <= n,
        0 < unit,
    ensures
        n <= round_up(n, unit) < n + unit,
        round_up(n, unit) % unit == 0,
{
    lemma_fundamental_div_mod(n, unit);
    if n % unit != 0 {
        let q = n / unit;
        assert(n + unit - n % unit == unit * (q + 1) + 0) by (nonlinear_arith)
            requires
                n == unit * q + n % unit,
        ;
        lemma_mod_multiples_vanish(q + 1, 0, unit);
    }
}

/// The alignment that counts is above zero where the field's own is.
proof fn lemma_capped_positive(align: int, pack: int)
    requires
        align > 0,
    ensures
        0 < capped(align, pack) <= align,
{
}

/// The fields follow one another: no position lies before zero, and the end
/// of more fields is not before the end of fewer.
pub proof fn lemma_end_monotone(fields: Seq<FieldShape>, pack: int, j: int, k: int)
    requires
        shapes_valid(fields),
        0 <= j <= k <= fields.len(),
    ensures
        0 <= end_of(fields, pack, j) <= end_of(fields, pack, k),
    decreases k,
{
    if k > 0 {
        if j < k {
            lemma_end_monotone(fields, pack, j, k - 1);
        } else {
            lemma_end_monotone(fields, pack, k - 1, k - 1);
        }
        lemma_capped_positive(fields[k - 1].align as int, pack);
        lemma_round_up(end_of(fields, pack, k - 1), capped(fields[k - 1].align as int, pack));
    }
}

/// The alignment of a record is above zero, and no field of it has one that
/// counts for more.
pub proof fn lemma_align_bounds(fields: Seq<FieldShape>, pack: int, j: int, k: int)
    requires
        shapes_valid(fields),
        0 <= j < k <= fields.len(),
    ensures
        0 < capped(fields[j].align as int, pack) <= align_of(fields, pack, k),
    decreases k,
{
    lemma_capped_positive(fields[j].align as int, pack);
    if j < k - 1 {
        lemma_align_bounds(fields, pack, j, k - 1);
    }
}

/// The alignment of a record is at least one.
pub proof fn lemma_align_positive(fields: Seq<FieldShape>, pack: int, k: int)
    requires
        0 <= k <= fields.len(),
    ensures
        1 <= align_of(fields, pack, k),
    decreases k,
{
    if k > 0 {
        lemma_align_positive(fields, pack, k - 1);
    }
}

/// Each field stands at a multiple of the alignment that counts for it, as
/// near behind the field before it as that allows, and the fields do not
/// overlap.
pub proof fn lemma_field_position(fields: Seq<FieldShape>, pack: int, k: int)
    requires
        shapes_valid(fields),
        0 <= k < fields.len(),
    ensures
        offset_of(fields, pack, k) % capped(fields[k].align as int, pack) == 0,
        end_of(fields, pack, k) <= offset_of(fields, pack, k) < end_of(fields, pack, k) + capped(
            fields[k].align as int,
            pack,
        ),
        end_of(fields, pack, k + 1) == offset_of(fields, pack, k) + fields[k].size,
        k > 0 ==> offset_of(fields, pack, k - 1) + fields[k - 1].size <= offset_of(fields, pack, k),
{
    lemma_end_monotone(fields, pack, k, k);
    lemma_capped_positive(fields[k].align as int, pack);
    lemma_round_up(end_of(fields, pack, k), capped(fields[k].align as int, pack));
}

/// The record ends at a multiple of its alignment, as near behind its last
/// field as that allows.
pub proof fn lemma_record_size(fields: Seq<FieldShape>, pack: int)
    requires
        shapes_valid(fields),
    ensures
        size_of(fields, pack) % align_of(fields, pack, fields.len() as int) == 0,
        end_of(fields, pack, fields.len() as int) <= size_of(fields, pack) < end_of(
            fields,
            pack,
            fields.len() as int,
        ) + align_of(fields, pack, fields.len() as int),
{
    let n = fields.len() as int;
    lemma_end_monotone(fields, pack, n, n);
    lemma_align_positive(fields, pack, n);
    lemma_round_up(end_of(fields, pack, n), align_of(fields, pack, n));
}

/// The first multiple of `unit` that is not below `n`, if it is a number of
/// the machine.
fn round_up_to(n: usize, unit: usize) -> (r: Option<usize>)
    requires
        unit > 0,
    ensures
        r is Some <==> round_up(n as int, unit as int) <= usize::MAX,
        r matches Some(rounded) ==> rounded == round_up(n as int, unit as int),
{
    let over: usize = n % unit;
    if over == 0 {
        Some(n)
    } else {
        n.checked_add(unit - over)
    }
}

/// Lays out a record with the given fields, in their order, by the rules of
/// C. A `pack` above zero packs the record: no field's alignment counts for
/// more than `pack`. There is no layout where a field has the alignment
/// zero, and none where the record would have more bytes than the machine
/// can count.
pub fn lay_out(fields: &Vec<FieldShape>, pack: usize) -> (r: Option<RecordShape>)
    ensures
        r is Some <==> shapes_valid(fields@) && size_of(fields@, pack as int) <= usize::MAX,
        r matches Some(shape) ==> {
            &&& shape.size == size_of(fields@, pack as int)
            &&& shape.align == align_of(fields@, pack as int, fields@.len() as int)
            &&& shape.offsets@.len() == fields@.len()
            &&& forall|k: int|
                0 <= k < fields@.len() ==> #[trigger] shape.offsets@[k] == offset_of(
                    fields@,
                    pack as int,
                    k,
                )
        },
{
    let count: usize = fields.len();
    let mut offsets: Vec<usize> = Vec::new();
    let mut end: usize = 0;
    let mut align: usize = 1;
    let mut k: usize = 0;
    while k < count
        invariant
            k <= count,
            count == fields@.len(),
            offsets@.len() == k,
            forall|j: int| 0 <= j < k ==> (#[trigger] fields@[j]).align > 0,
            forall|j: int| 0 <= j < k ==> #[trigger] offsets@[j] == offset_of(fields@, pack as int, j),
            end == end_of(fields@, pack as int, k as int),
            align == align_of(fields@, pack as int, k as int),
        decreases count - k,
    {
        let field: FieldShape = fields[k];
        if field.align == 0 {
            return None;
        }
        let counted: usize = if 0 < pack && pack < field.align {
            pack
        } else {
            field.align
        };
        proof {
            if shapes_valid(fields@) {
                lemma_end_monotone(fields@, pack as int, k + 1, count as int);
                lemma_record_size(fields@, pack as int);
            }
        }
        let offset: usize = match round_up_to(end, counted) {
            Some(offset) => offset,
            None => {
                return None;
            },
        };
        let next: usize = match offset.checked_add(field.size) {
            Some(next) => next,
            None => {
                return None;
            },
        };
        offsets.push(offset);
        end = next;
        if counted > align {
            align = counted;
        }
        k += 1;
    }
    assert(shapes_valid(fields@));
    proof {
        lemma_align_positive(fields@, pack as int, count as int);
    }
    match round_up_to(end, align) {
        Some(size) => Some(RecordShape { offsets, size, align }),
        None => None,
    }
}

} // verus!
