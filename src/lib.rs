//! Harvests map metadata from a paginated catalog, keeps the eligible maps,
//! encodes each into a compact record and compresses the collected snapshot.
pub mod catalog;
pub mod eligibility;
pub mod mods;
pub mod record;
pub mod hex;
pub mod encode;
pub mod snapshot;
pub mod harvest;
pub mod writer;
