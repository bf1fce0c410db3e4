//! The moderation core of a chat bot that bans, on arrival, every member whose
//! name is on the server's block list.

pub mod block_list;
pub mod command;
pub mod discord;
pub mod format;
pub mod handler;
pub mod store;
