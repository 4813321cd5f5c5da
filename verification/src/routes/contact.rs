//! Route marker for the contact index page.

use vstd::prelude::*;

verus! {

/// Typed path marker for the contact index page.
pub struct Index {}

} // verus!
