//! Route marker for the pricing index page.

use vstd::prelude::*;

verus! {

/// Typed path marker for the pricing index page.
pub struct Index {}

} // verus!
