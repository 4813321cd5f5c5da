//! Route marker for the marketing index page.

use vstd::prelude::*;

verus! {

/// Typed path marker for the marketing index page.
pub struct Index {}

} // verus!
