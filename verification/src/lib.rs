//! Verified core of the rsground collaborative playground backend: access
//! to projects, collaborative documents and their edits, the language-server
//! session and the producer of runs, runner containers, session tokens, and
//! the text and URL helpers they share.
pub mod access;
pub mod auth;
pub mod collab;
pub mod communication;
pub mod crdt;
pub mod docker;
pub mod docker_session;
pub mod document;
pub mod file_node;
pub mod files;
pub mod http_errors;
pub mod links;
pub mod lsp;
pub mod lsp_session;
pub mod optional;
pub mod ot;
pub mod outside;
pub mod producer;
pub mod project;
pub mod project_access;
pub mod project_manager;
pub mod rsground;
pub mod runner;
pub mod strs;
pub mod text;
