//! A client library for the Triad compositor's native IPC protocol: the
//! requests it sends, the replies and events it reads, the state it caches
//! from events, and the projection of that state for Eww widgets.

pub mod cli;
pub mod client;
pub mod error;
pub mod ipc;
pub mod json;
pub mod protocol;
pub mod state;
pub mod text;
pub mod view;

pub use client::{AsyncClient, BindingKind, Client, EventFilter, LayoutTarget, QueryRequest};
pub use error::{Error, Result};
pub use json::{Json, Member, Number};
pub use view::{EwwState, OutputFormat};
