pub mod bot_commands_parser;
pub mod client;
pub mod init;
pub mod message_parser;
pub mod moderation;
