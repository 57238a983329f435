//! Bridges between decoded blockchain data, a versioned key-value store and
//! the dynamic values of an embedded scripting environment.
//!
//! There are two phases. Before any script runs, [`json`] and
//! [`descriptor`] load the interface of a contract, [`types`] projects its
//! types, and [`generator`] derives the table of accessors. While scripts
//! run, [`builtins`] matches and decodes the logs of a block, with [`abi`]
//! for the binary decoding, [`bridge`] and [`custom_serde`] carry values to
//! and from the [`dynamic`] value model, over [`scalar`] and [`hex`] for big
//! integers and byte arrays, and [`store`] records writes and projects
//! deltas. What is fatal while generating is in [`error`]; while scripts
//! run, nothing is.

pub mod abi;
pub mod bridge;
pub mod builtins;
pub mod custom_serde;
pub mod descriptor;
pub mod dynamic;
pub mod error;
pub mod generator;
pub mod hex;
pub mod json;
pub mod scalar;
pub mod store;
pub mod types;
