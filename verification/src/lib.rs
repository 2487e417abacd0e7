//! A single-writer, in-memory registry of human-readable names.
//!
//! Names are allocated to identities under a tiered, capacity-limited
//! pricing scheme ("seasons"). The registry tracks ownership,
//! administration, expiry and renewal of every name, and keeps an index of
//! the one name that an identity holds.
//!
//! The caller and the time are arguments of every operation, and the
//! provisioning of the resource that backs a name happens outside: an
//! allocation is admitted by a first step and committed or given up by a
//! second one.
//!
//! Every function carries a contract over a mathematical view of the data
//! it touches. The module [`model`] holds the registry as a mathematical
//! state with its transitions, [`invariants`] shows that every transition
//! keeps the state well-formed, and [`laws`] holds what is proved of the
//! model beyond that.

pub mod allowlist;
pub mod collections;
pub mod identity;
pub mod invariants;
pub mod laws;
pub mod messages;
pub mod model;
pub mod names;
pub mod policy;
pub mod records;
pub mod registry;
pub mod season;

pub use identity::Identity;
pub use policy::RegistrationMode;
pub use records::{
    AdminCreateDomainRequest, AdminGiftRequest, DomainInfo, DomainRecord, DomainStatus,
    RegistrationRequest, SearchResult,
};
pub use registry::Registry;
pub use season::{CreateSeasonRequest, RegistrationSeason, SeasonStats, SeasonStatus};
