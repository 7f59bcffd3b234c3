//! The runtime of a dev container command line tool: Dockerfile analysis,
//! mount handling, engine and compose arguments, finding, starting and
//! inspecting the dev container, the compose override and project files, the
//! remote user's UID update and home folder, and the parsers and formatters
//! around them. Processes, files and the environment are reached through
//! closures that the caller passes in.

pub mod text;
pub mod dockerfile;
pub mod options;
pub mod engine;
pub mod exec;
pub mod user_resolution;
pub mod mounts;
pub mod image_build;
pub mod image;
pub mod paths;
pub mod workspace;
pub mod engine_run;
pub mod discovery;
pub mod json;
pub mod compose;
pub mod uid_update;
pub mod lifecycle;
pub mod compose_override;
pub mod metadata;
pub mod inspection;
pub mod compose_services;
pub mod compose_definition;
pub mod compose_project;
pub mod up_container;
pub mod compose_profiles;
pub mod yaml;
pub mod outcome;
