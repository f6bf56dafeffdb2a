//! Message handling core of a WeChat iLink bot: message parsing, routing,
//! the per-user stores and the command modules, with their contracts.
pub mod api;
pub mod auth;
pub mod bot;
pub mod config;
pub mod crypto;
pub mod http;
pub mod json;
pub mod modules;
pub mod nickname_store;
pub mod parser;
pub mod router;
pub mod session;
pub mod strmap;
pub mod text;
pub mod todo_store;
pub mod xhs_client;
