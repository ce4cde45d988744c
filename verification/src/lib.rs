//! Decisions of a chat bot that downloads a file from a link and uploads it back to the chat.
pub mod text;
pub mod command;
pub mod foreign;
pub mod file_info;
pub mod bot;
pub mod registry;
pub mod upload;
pub mod credentials;
