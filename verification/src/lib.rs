//! Composition engine for a bridgehead deployment: configuration store, secret
//! mint, service registry, dependency graph and the bookkeeping around an
//! apply run.

pub mod address;
pub mod bridgehead;
pub mod config;
pub mod git;
pub mod graph;
pub mod identity;
pub mod modules;
pub mod ordered_map;
pub mod registry;
pub mod secret;
pub mod services;
pub mod utils;
