//! Administrative dataset operations.
//!
//! Deleting a dataset is handled by the web layer, an external collaborator
//! of the pipeline; only the form value it receives is modelled here.

use vstd::prelude::*;

verus! {

/// The form a dataset-deletion request carries: the dataset to delete and
/// the team it belongs to.
#[derive(Debug, Default)]
pub struct Delete {
    pub id: i32,
    pub team_id: i32,
}

} // verus!
