//! What the IRC front-end takes from the library: the grammar of commands
//! and of user prefixes, and the decisions of the bot.

pub mod bot;
pub mod parsing;
