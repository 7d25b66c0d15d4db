//! Verified core of the Flare deployment platform: parsing of repository
//! references and git output, build planning, static-file routing rules,
//! webhook event handling and host normalization.

pub mod analytics;
pub mod deploy;
pub mod domains;
pub mod framework;
pub mod git;
pub mod models;
pub mod serve;
pub mod text;
pub mod webhooks;
