//! Presence and messaging core of a shared listening service: a registry of
//! listening rooms (lobbies), a registry of live connections, the typed
//! request/reply protocol and the handlers that route requests between them.
pub mod connections;
pub mod expiry;
pub mod hub;
pub mod laws;
pub mod lobby;
pub mod protocol;
pub mod registry;
pub mod session;
