//! Fresh identifiers, for bindings without a name, for connections and for
//! the threads of the worker pool.

use vstd::prelude::*;

verus! {

/// `uuid::Uuid`, the identifier carried by each connection's metadata.
#[verifier::external_type_specification]
#[verifier::external_body]
pub struct ExUuid(uuid::Uuid);

/// `uuid::Uuid::new_v4`: a random identifier. Nothing is claimed of its value.
pub assume_specification[ uuid::Uuid::new_v4 ]() -> (id: uuid::Uuid)
;

/// `Uuid::to_string`, through the crate's `Display`, on a fresh `new_v4`: the
/// lower-case hyphenated form, which is 36 characters long whatever the
/// random value.
#[verifier::external_body]
pub(crate) fn fresh_identifier() -> (text: String)
    ensures
        text@.len() == 36,
{
    uuid::Uuid::new_v4().to_string()
}

} // verus!
