//! The bot's command modules: what each answers to a message.
pub mod echo_module;
pub mod help_module;
pub mod nickname_module;
pub mod notify_module;
pub mod query_module;
pub mod todo_module;
pub mod xhs_module;
