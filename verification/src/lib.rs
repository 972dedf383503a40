//! studio-core: the verified core of a studio for signed `.aion` policy artifacts.
//!
//! The library holds the studio's own logic — policy ids and workspace layout, the line diff
//! used for the pre-commit preview, key encoding, the first-match rule evaluator, K-of-N
//! governance bookkeeping, registry timelines, the copilot context and the relay of the model's
//! streamed answer — with contracts that Verus proves. Reading and writing files, the OS
//! keyring, the HTTP server and the model call live in the application crate around it.

pub mod artifact;
pub mod audit;
pub mod author_index;
pub mod config;
pub mod authoring;
pub mod copilot;
pub mod custody;
pub mod diff;
pub mod error;
pub mod evaluate;
pub mod keystore;
pub mod order;
pub mod policies;
pub mod relay;
pub mod multisig_store;
pub mod registry_admin;
pub mod registry_store;
pub mod seed;
pub mod text;
pub mod workspace;
