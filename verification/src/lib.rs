//! ONVM core logic: content-addressed hashing, Merkle commitments, protocol
//! data model and the decision rules of the node, with their contracts.

pub mod hashing;
pub mod merkle;
pub mod bloom;
pub mod content;
pub mod detection_laws;
pub mod chunks;
pub mod types;
pub mod dag;
pub mod manifest;
pub mod bls;
pub mod bls_identity;
pub mod keys;
pub mod committee;
pub mod runtime;
pub mod protocol;
pub mod fingerprint;
pub mod transition;
pub mod proposal;
pub mod engine;
pub mod ingestion;
pub mod frost;
pub mod pex;
pub mod ping;
pub mod service;
pub mod peer_cache;
pub mod table;
pub mod coordination;
pub mod jobs;
pub mod messages;
pub mod gateway;
pub mod programs;
pub mod config;
pub mod toml_doc;
pub mod rpc_auth;
pub mod node;
pub mod leader_forward;
pub mod scalar;
pub mod vss;
pub mod frost_sign;
