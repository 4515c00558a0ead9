//! Local identity, alias resolution and claim bookkeeping for a ledger client.

pub mod accounts;
pub mod alias;
pub mod claims;
pub mod commands;
pub mod config;
pub mod error;
pub mod keys;
pub mod networks;
pub mod numbers;
pub mod registry;
pub mod requests;
pub mod table;
pub mod text;
pub mod words;
