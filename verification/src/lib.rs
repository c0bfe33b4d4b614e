//! A verified core for a Usenet-backed WebDAV virtual filesystem: byte-range
//! parsing, path handling, the PROPFIND response format, the data model of
//! the virtual tree, the queue and history, configuration, and the decisions
//! of the WebDAV store and of the background services.

pub mod text;
pub mod models;
pub mod error;
pub mod range;
pub mod byte_counts;
pub mod name_case;
pub mod bindings;
pub mod util;
pub mod store;
pub mod propfind;
pub mod sab;
pub mod config;
pub mod settings;
pub mod servers;
pub mod arr;
pub mod health;
pub mod logs;
pub mod queue;
pub mod ws;
pub mod auth;
pub mod handler;
pub mod blob;
pub mod cli;
pub mod rows;
pub mod seed;
