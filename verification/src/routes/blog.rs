//! Route marker for the blog index page.

use vstd::prelude::*;

verus! {

/// Typed path marker for the blog index page.
pub struct Index {}

} // verus!
