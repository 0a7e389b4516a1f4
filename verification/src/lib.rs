//! Core logic of the DeepCanvas command-line client: task codes, project
//! bindings, request paths, task context rendering, transcript usage
//! aggregation and credential markers.

pub mod active_task;
pub mod api;
pub mod config;
pub mod context;
pub mod error;
pub mod flow;
pub mod gitignore;
pub mod project;
pub mod task_code;
pub mod tasks;
pub mod text;
pub mod token;
pub mod transcript;
pub mod types;
