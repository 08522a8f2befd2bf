//! Declarations of outside-crate types that appear in the library's fields
//! and signatures. Verus treats a declared type as opaque: values of it are
//! carried, never inspected.
use vstd::prelude::*;

verus! {

#[verifier::external_type_specification]
#[verifier::external_body]
pub struct ExGlobPattern(glob::Pattern);

} // verus!
