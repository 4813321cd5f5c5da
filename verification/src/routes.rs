//! Typed route markers for the public site, an external collaborator of the
//! pipeline; routing and rendering stay in the web layer.

pub mod blog;
pub mod contact;
pub mod docs;
pub mod marketing;
pub mod pricing;
