//! Server management platform: the rules, parsers and decisions behind its API.
pub mod text;
pub mod access;
pub mod user;
pub mod clock;
pub mod auth;
pub mod services;
pub mod updates;
pub mod storage;
pub mod logs;
pub mod audit;
pub mod backup;
pub mod config;
pub mod system;
pub mod console;
pub mod accounts;
