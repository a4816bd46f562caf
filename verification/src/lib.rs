//! Termote: the verified core of a terminal-multiplexer backend.
pub mod auth;
pub mod bindings;
pub mod cli;
pub mod git;
pub mod handler;
pub mod laws;
pub mod listing;
pub mod messages;
pub mod ports;
pub mod protocol;
pub mod state;
pub mod terminal;
pub mod text;
pub mod upload;
pub mod web;

pub use auth::{validate_token, AuthResult};
pub use messages::{ClientMessage, PaneGroupInfo, PaneInfo, ServerMessage};
pub use state::{AppState, Pane, PaneGroup};
