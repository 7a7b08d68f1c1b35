//! The rules of a bot for the chat of a network of nodes: when to announce
//! the directory address of a user who writes, how to make one line of what
//! the directory holds for the user, and how to talk with a user in private
//! about the text that follows the address and about the interval between
//! two announcements.
//!
//! Nothing here reads or sends: the functions take what was read and say
//! what is to be sent and stored.

pub mod database;
pub mod nodelist;
pub mod settings;
pub mod states;
pub mod text;
