//! A customizable shell prompt library: environment snapshot caching,
//! git status probing and parsing, persisted configuration, and prompt
//! rendering in several styles.

pub mod branches;
pub mod cache;
pub mod config;
pub mod environ;
pub mod gitstatus;
pub mod render;
pub mod strutil;
