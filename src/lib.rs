//! Network status of a peer-to-peer mesh instance: per-destination views with the
//! reconstructed hop path from the local node.
pub mod config;
pub mod hops;
pub mod instance;
pub mod local;
pub mod model;
pub mod render;
pub mod stats;
pub mod status;
