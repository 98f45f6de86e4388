//! Core domain model — game-agnostic types used everywhere.

pub mod types;

pub use types::{Card, CardCondition, CardId, Game, PrintingId};
pub mod error;

pub use error::{Error, Result};
