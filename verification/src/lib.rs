//! Module-resolution and caching core of a bytecode virtual machine.
//!
//! The crate turns symbolic on-chain module handles (address + name, possibly
//! generic) into concrete, verified, cached definitions.  A registry owns the
//! loaded modules of one scope and hands out stable index handles; a
//! single-scope cache fetches, verifies and inserts modules on a miss; a
//! recursive resolver walks signature tokens and struct definitions, memoizing
//! struct shapes and charging a gas meter at every recursive step; and two
//! wrapper tiers (block scope and transaction scope) compose caches with
//! different lifetimes and fallback order.

pub mod errors;
pub mod fetcher;
pub mod file_format;
pub mod gas_meter;
pub mod ids;
pub mod loaded_module;
pub mod module_cache;
pub mod natives;
pub mod registry;
pub mod tables;
pub mod types;
pub mod validator;
