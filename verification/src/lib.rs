//! Keyboard-driven editing of a paginated table of remote records.
//!
//! - `focus`: clamped index arithmetic for every navigable collection.
//! - `text`: byte offsets and character positions in UTF-8 text.
//! - `editable`: fields with a text cursor, a baseline and revert.
//! - `prompt`: the modal prompt over fields and buttons.
//! - `users`: the table of users, its focus, edit mode and paging.
//! - `backend`: the session with the remote service and its credentials.
//! - `state`: the top level and the routing of keys.
//! - `metrics`: how much room a text takes on screen.
//! - `render`: what is to be drawn, worked out from the state.
//!
//! Reading keys, talking to the service and drawing are left to the caller,
//! who hands keys and outcomes in and gets back what to do and what to show.

pub mod backend;
pub mod editable;
pub mod focus;
pub mod metrics;
pub mod prompt;
pub mod render;
pub mod state;
pub mod text;
pub mod users;
