//! The decisions of a broker that hands out GitHub App installation tokens, and
//! of the Git credential helper that fetches them.

pub mod access;
pub mod algorithm;
pub mod audit;
pub mod checks;
pub mod claims;
pub mod config;
pub mod error;
pub mod github;
pub mod glob;
pub mod helper;
pub mod hexadecimal;
pub mod human;
pub mod human_validation;
pub mod jwks;
pub mod laws;
pub mod load_test;
pub mod lookup;
pub mod minting;
pub mod permissions;
pub mod proxy;
pub mod requests;
pub mod roles;
pub mod service;
pub mod string_map;
pub mod text;
pub mod token_cache;
pub mod validation;
pub mod webhook;
