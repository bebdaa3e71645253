//! State-transition logic of a small social ledger: profiles, posts and likes,
//! each stored at an address derived from its seeds.

pub mod address;
pub mod instructions;
pub mod state;
pub mod ledger;
pub mod laws;
