//! Bulk provisioning of objectives, epics and stories: the retry policy of
//! the transport, the resolution of names to identifiers, and the pipeline
//! that creates a batch tier by tier.

pub mod api;
pub mod cli;
pub mod commands;
pub mod config;
pub mod error;
pub mod input;
pub mod name_map;
pub mod resolver;
pub mod template;
pub mod text;
