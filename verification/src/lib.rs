//! Opie: the verified core of a local-first coding assistant.

pub mod agent;
pub mod chat;
pub mod config;
pub mod inference;
pub mod paths;
pub mod session;
pub mod storage;
pub mod text;
pub mod tools;
