//! A catalogue of installable command plugins for a host CLI: manifests,
//! compatibility with the running host, install planning, the update lock and
//! the listing shown to the user.
//!
//! The logic is verified against the contracts that it is written with. What
//! semantic versions, addresses, lowercase and SHA-256 are is left to the
//! crates and the standard library that define them: each such call is made
//! by a small function whose contract is taken on trust, and gives the result
//! a name that the verified contracts speak of.

pub mod address;
pub mod checksum;
pub mod commands;
pub mod database;
pub mod descriptor;
pub mod error;
pub mod install;
pub mod listing;
pub mod location;
pub mod lock;
pub mod lookup;
pub mod manager;
pub mod store;
pub mod manifest;
pub mod text;
pub mod upgrade;
pub mod version;
