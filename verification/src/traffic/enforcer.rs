//! Where the rules of the bindings are to be put into effect. Only the data
//! is laid down here; nothing applies a rule yet.

use crate::traffic::bindingset::BindingRules;
use vstd::prelude::*;

verus! {

/// The rules that are enforced, and whether enforcing is switched on.
pub struct Enforcer {
    active: bool,
    bindings: BindingRules,
}

} // verus!
