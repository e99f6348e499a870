//! A bridge between group chat and a language-model backend: message types of
//! the chat API, per-conversation sessions, the routing state machine that
//! serialises every round trip, command parsing and the heartbeat relay.
pub mod chat;
pub mod command;
pub mod relay;
pub mod router;
pub mod store;
