use vstd::prelude::*;

pub mod ai;
pub mod auth;
pub mod bundle_upload;
pub mod cli;
pub mod config_file;
pub mod laws;
pub mod credentials;
pub mod mcp;
pub mod messages;
pub mod paths;
pub mod project;
pub mod text;
pub mod user_commands;
pub mod workflow;

verus! {

} // verus!
