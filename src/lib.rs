use vstd::prelude::*;

pub mod bus;
pub mod config;
pub mod endpoint;
pub mod hub;
pub mod ids;

pub use ids::generate_uid;

verus! {

} // verus!
