//! Session orchestration for language-analysis projects: a registry of
//! projects keyed by root directory, the indexing-progress state of each
//! analysis session, and the notifications that report on both; with the
//! rules of the collaborators around it (documentation index, build-tool
//! runner, tool requests).

pub mod cargo_remote;
pub mod client_state;
pub mod context;
pub mod docs;
pub mod manifest;
pub mod markdown;
pub mod path;
pub mod progress;
pub mod project;
pub mod session;
pub mod text;
pub mod tools;
