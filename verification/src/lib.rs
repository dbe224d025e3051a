//! Pane orchestration for a terminal browser of OpenAPI documents.
//!
//! The crate holds the state that the panes of the browser share, the
//! mapping from keys to actions, the focus and fullscreen state machine of
//! the home page, and the partition of the frame among the panes.

pub mod action;
pub mod focus;
pub mod home;
pub mod key;
pub mod layout;
pub mod pane;
pub mod state;

pub use action::{Action, EventResponse};
pub use home::Home;
pub use pane::Pane;
pub use state::State;
