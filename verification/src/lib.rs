//! Supervision and access control for a fleet of dedicated game servers that offer no
//! control interface of their own.

pub mod config;
pub mod config_file;
pub mod decimal;
pub mod enforce;
pub mod inject;
pub mod ipc;
pub mod kicked;
pub mod launch;
pub mod mpmaplist;
pub mod policy;
pub mod prereqs;
pub mod roster;
pub mod script;
pub mod server;
pub mod supervisor;
pub mod text;
pub mod trusted;
pub mod web;
pub mod window;
