//! Declarations of the outside library types that appear in this crate's
//! signatures and error variants.  Verus treats values of these types as
//! opaque; they are carried through, never inspected.

use vstd::prelude::*;

verus! {

#[verifier::external_type_specification]
#[verifier::external_body]
pub struct ExKeyFromSliceError(bitcoin::key::FromSliceError);

} // verus!
