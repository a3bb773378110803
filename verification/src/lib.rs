//! A Twitch chat bot's core: the IRC line parser, the chat moderation filter, the
//! per-channel command registry, and the decisions of the websocket client and of
//! the OAuth web flow.
pub mod clock;
pub mod commands;
pub mod text;
pub mod webserver;
pub mod websocket;
