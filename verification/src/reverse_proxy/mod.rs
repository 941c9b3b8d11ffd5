//! The proxy binary's own address table and configuration handling.
pub mod addresses;
pub mod config;
