//! Layout calculator: computes the exact storage size of a record schema
//! ahead of allocation, so that a slot is allocated once and never resized.

use vstd::prelude::*;

use crate::defs::{ChristmasError, DISCRIMINATOR_SIZE};

verus! {

/// The storage width a single field contributes to its record: a fixed
/// width, a declared maximum for variable-length data, or no declared bound
/// at all (which the calculator rejects).
#[derive(Clone, Copy, PartialEq, Eq, Structural, Debug)]
pub enum FieldWidth {
    Fixed(usize),
    Bounded(usize),
    Unbounded,
}

/// Whether a field declares a width the calculator can allocate for.
pub open spec fn field_bounded(f: FieldWidth) -> bool {
    !(f is Unbounded)
}

/// The width in bytes a field contributes to its record's storage.
pub open spec fn field_width(f: FieldWidth) -> int {
    match f {
        FieldWidth::Fixed(n) => n as int,
        FieldWidth::Bounded(n) => n as int,
        FieldWidth::Unbounded => 0,
    }
}

/// Whether every field of a schema declares a width.
pub open spec fn all_bounded(fields: Seq<FieldWidth>) -> bool {
    forall|i: int| 0 <= i < fields.len() ==> field_bounded(fields[i])
}

/// Total width in bytes of a schema's fields, not counting the discriminator.
pub open spec fn total_width(fields: Seq<FieldWidth>) -> int
    decreases fields.len(),
{
    if fields.len() == 0 {
        0
    } else {
        total_width(fields.drop_last()) + field_width(fields.last())
    }
}

/// Every prefix of a schema is at most as wide as the whole schema.
proof fn lemma_total_width_take_le(fields: Seq<FieldWidth>, i: int)
    requires
        0 <= i <= fields.len(),
    ensures
        total_width(fields.take(i)) <= total_width(fields),
    decreases fields.len() - i,
{
    if i < fields.len() {
        assert(fields.take(i + 1).drop_last() =~= fields.take(i));
        assert(fields.take(i + 1).last() == fields[i]);
        assert(field_width(fields[i]) >= 0);
        lemma_total_width_take_le(fields, i + 1);
        assert(fields.take(fields.len() as int) =~= fields);
    } else {
        assert(fields.take(i) =~= fields);
    }
}

/// Exact storage size of a record with the given schema: the discriminator
/// width plus the sum of each field's declared width. Rejects a schema in
/// which some field lacks a bound, or whose total does not fit the machine.
pub fn record_size(fields: &Vec<FieldWidth>) -> (r: Result<usize, ChristmasError>)
    ensures
        r is Ok <==> (all_bounded(fields@) && DISCRIMINATOR_SIZE + total_width(fields@)
            <= usize::MAX),
        r matches Ok(n) ==> n == DISCRIMINATOR_SIZE + total_width(fields@),
        r matches Err(e) ==> e == ChristmasError::SchemaOverflow,
{
    let mut total: usize = DISCRIMINATOR_SIZE;
    let mut i: usize = 0;
    while i < fields.len()
        invariant
            0 <= i <= fields@.len(),
            all_bounded(fields@.take(i as int)),
            total == DISCRIMINATOR_SIZE + total_width(fields@.take(i as int)),
        decreases fields@.len() - i,
    {
        let w: usize = match fields[i] {
            FieldWidth::Fixed(n) => n,
            FieldWidth::Bounded(n) => n,
            FieldWidth::Unbounded => {
                return Err(ChristmasError::SchemaOverflow);
            },
        };
        proof {
            assert(fields@.take(i + 1).drop_last() =~= fields@.take(i as int));
            assert(fields@.take(i + 1).last() == fields@[i as int]);
        }
        if w > usize::MAX - total {
            proof {
                lemma_total_width_take_le(fields@, i + 1);
            }
            return Err(ChristmasError::SchemaOverflow);
        }
        total = total + w;
        i = i + 1;
    }
    proof {
        assert(fields@.take(i as int) =~= fields@);
    }
    Ok(total)
}

} // verus!
