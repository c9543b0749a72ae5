//! gwx: multi-account, policy-governed access to Google Workspace for AI agents.
//!
//! The library holds the decisions and the text the tool produces: which command runs
//! for which account, how a draft is assembled, how links are pulled out of a mail
//! body, and how results of the `gws` engine are judged. Running processes, reading
//! the environment and printing stay with the caller.

pub mod text;
pub mod config;
pub mod draft;
pub mod links;
pub mod gws;
pub mod commands;
pub mod policy;
pub mod report;
