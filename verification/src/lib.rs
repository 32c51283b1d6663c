//! Verified core of Isotopia, a small build orchestrator which hands image
//! build requests to worker processes.

pub mod alarm;
pub mod api;
pub mod cache;
pub mod checksums;
pub mod db;
pub mod delivery;
pub mod digest;
pub mod download;
pub mod error;
pub mod lifecycle;
pub mod order;
pub mod packages;
pub mod paths;
pub mod rows;
pub mod text;
pub mod upload;
