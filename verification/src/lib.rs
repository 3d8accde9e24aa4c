//! The decision logic of the Cube API server: which example a request means,
//! which template and interpreter run it, how a code snippet is sent to a
//! sandbox and how the answer is read, and what the template store replies.

pub mod text;
pub mod json;
pub mod error;
pub mod envd;
pub mod jupyter;
pub mod exec_code;
pub mod topology;
pub mod registry;
pub mod examples;
pub mod store;
pub mod images;
pub mod templates;
pub mod paths;
pub mod requirements;
pub mod plan;
pub mod run;
pub mod replies;
pub mod environment;
pub mod endpoint;
pub mod sources;
pub mod service;
pub mod sandboxes;
