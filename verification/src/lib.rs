//! Verified core of a multi-tenant overlay-network inventory.
//!
//! The library models three related entities — tenants, VRFs and SVIs —
//! together with the validation rules, uniqueness and referential-integrity
//! invariants, and the repository operations (create / get / update /
//! delete / list) that an HTTP host exposes over them.

pub mod cidr;
pub mod errors;
pub mod inventory;
pub mod laws;
pub mod model;
pub mod order;
pub mod tags;
