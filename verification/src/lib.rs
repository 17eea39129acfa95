//! A rule-driven file organizer: a crawler walks a directory model, classifies
//! each regular file by type, size and age, evaluates the rules' filters
//! against it, and applies the matching rule's actions (echo, move, copy,
//! delete, rename with collision avoidance).
//!
//! The filesystem itself is represented by an explicit model (`fs_model`),
//! so every decision the library makes — which files match, which action
//! succeeds, what name a colliding rename picks — is stated in contracts and
//! verified. Callers that work against a real filesystem build the model from
//! it and replay the recorded effects.
pub mod cli;
pub mod config;
pub mod content_info;
pub mod crawl;
pub mod file_detector;
pub mod file_metadata;
pub mod fs_model;
pub mod handlers;
pub mod metrics;
pub mod rule;
pub mod strutil;
pub mod utils;
