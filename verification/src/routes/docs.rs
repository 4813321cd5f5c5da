//! Route marker for the docs index page.

use vstd::prelude::*;

verus! {

/// Typed path marker for the docs index page.
pub struct Index {}

} // verus!
