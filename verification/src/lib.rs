//! Lifecycle and registry of daps: self-contained sub-applications that a host
//! platform discovers, configures and serves.

pub mod access;
pub mod dap;
pub mod daps;
pub mod error;
pub mod handler;
pub mod manager;
pub mod module;
pub mod service;
pub mod settings;
pub mod text;
