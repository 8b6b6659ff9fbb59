//! Structural validation of configuration documents against a reference
//! schema: a document tree is checked for the `required` keys the schema
//! lists and, key by key, against the nested `properties` sub-schemas.

pub mod locate;
pub mod node;
pub mod report;
pub mod store;
pub mod validate;

use vstd::prelude::*;

verus! {

} // verus!
