//! Shared constants and the error taxonomy.

use vstd::prelude::*;

verus! {

/// Width in bytes of the schema discriminator that prefixes every record.
pub const DISCRIMINATOR_SIZE: usize = 8;

/// Width in bytes of a region code (fixed-width short code).
pub const REGION_SIZE: usize = 3;

/// Width in bytes of the length prefix that precedes each stored
/// variable-length text field.
pub const STRING_PREFIX_SIZE: usize = 4;

/// Declared bound on the text of a `uri` field, in bytes.
pub const URI_BOUND: usize = 200;

/// Maximum stored width in bytes of a `uri` field: length prefix plus text.
pub const URI_SIZE: usize = STRING_PREFIX_SIZE + URI_BOUND;

/// Declared bound on the text of a `name` field, in bytes.
pub const NAME_BOUND: usize = 32;

/// Maximum stored width in bytes of a `name` field: length prefix plus text.
pub const NAME_SIZE: usize = STRING_PREFIX_SIZE + NAME_BOUND;

/// Declared bound on the text of a `symbol` field, in bytes.
pub const SYMBOL_BOUND: usize = 10;

/// Maximum stored width in bytes of a `symbol` field: length prefix plus text.
pub const SYMBOL_SIZE: usize = STRING_PREFIX_SIZE + SYMBOL_BOUND;

/// Declared bound on the text of a `geo` field, in bytes.
pub const GEO_BOUND: usize = 8;

/// Maximum stored width in bytes of a `geo` field: length prefix plus text.
pub const GEO_SIZE: usize = STRING_PREFIX_SIZE + GEO_BOUND;

/// Width in bytes of a stored public key.
pub const KEY_SIZE: usize = 32;

/// Width in bytes of the stored disambiguation bump.
pub const BUMP_SIZE: usize = 1;

/// Everything that can make a request abort; no partial writes are ever left
/// behind when one of these is returned.
#[derive(Clone, Copy, PartialEq, Eq, Structural, Debug)]
pub enum ChristmasError {
    /// A record schema holds a field without a declared bound, or its total
    /// size does not fit the machine.
    SchemaOverflow,
    /// No bump in the search space yields a usable derived address.
    DerivationExhausted,
    /// Storage already exists at the derived address but disagrees with the
    /// expected schema (wrong size or wrong record kind).
    SizeMismatch,
    /// The requesting identity does not reproduce the record's address.
    Unauthorized,
}

} // verus!
