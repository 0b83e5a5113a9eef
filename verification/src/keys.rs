//! Entity-id validation and the storage key scheme.
//!
//! A field's log lives under one storage key: the reserved prefix, the
//! entity id, a separator, and the field name. Because the reserved prefix
//! demarcates that namespace, an entity id may not start with it; such ids
//! are rejected before any storage access.

use vstd::prelude::*;

verus! {

/// The character that opens every storage key; ids starting with it are
/// rejected.
pub const RESERVED_PREFIX: char = '_';

/// The character that separates the entity id from the field name inside a
/// storage key.
pub const KEY_SEPARATOR: char = '-';

/// An entity id is valid iff it does not start with the reserved prefix.
pub open spec fn valid_entity_id(id: Seq<char>) -> bool {
    id.len() == 0 || id[0] != RESERVED_PREFIX
}

/// The storage key of one `(entity id, field name)` pair.
pub open spec fn spec_field_key(entity_id: Seq<char>, field: Seq<char>) -> Seq<char> {
    seq![RESERVED_PREFIX] + entity_id + seq![KEY_SEPARATOR] + field
}

/// The pattern that matches every storage key of one entity: its key
/// prefix followed by the wildcard.
pub open spec fn spec_fields_wildcard(entity_id: Seq<char>) -> Seq<char> {
    seq![RESERVED_PREFIX] + entity_id + seq![KEY_SEPARATOR] + seq!['*']
}

/// Whether `entity_id` may be used: true iff it does not start with the
/// reserved prefix.
pub fn validate_entity_id(entity_id: &str) -> (r: bool)
    ensures
        r == valid_entity_id(entity_id@),
{
    if entity_id.unicode_len() == 0 {
        true
    } else {
        entity_id.get_char(0) != RESERVED_PREFIX
    }
}

/// Builds the storage key under which `(entity_id, field)`'s log lives.
pub fn mk_field_key(entity_id: &str, field: &str) -> (r: String)
    ensures
        r@ == spec_field_key(entity_id@, field@),
{
    proof {
        reveal_strlit("_");
        reveal_strlit("-");
    }
    let mut r = String::from_str("_");
    r.append(entity_id);
    r.append("-");
    r.append(field);
    proof {
        assert(r@ =~= spec_field_key(entity_id@, field@));
    }
    r
}

/// Builds the pattern that enumerates every field key of `entity_id`.
pub fn mk_fields_wildcard(entity_id: &str) -> (r: String)
    ensures
        r@ == spec_fields_wildcard(entity_id@),
{
    proof {
        reveal_strlit("_");
        reveal_strlit("-*");
    }
    let mut r = String::from_str("_");
    r.append(entity_id);
    r.append("-*");
    proof {
        assert(r@ =~= spec_fields_wildcard(entity_id@));
    }
    r
}

} // verus!
