//! Identifiers of definitions.

use vstd::prelude::*;

verus! {

/// A definition by its type and subtype.
#[derive(Debug)]
pub struct Id {
    pub type_id: String,
    pub subtype_id: String,
}

} // verus!
