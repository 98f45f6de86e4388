//! Bookkeeping rules of a bulk import run: how a finished run is logged.
//! The `catalog_imports` table itself is written by the application shell.

use vstd::prelude::*;

use crate::domain::error::error_text;
use crate::catalog::bulk::controller::ImportRunSummary;
use crate::catalog::{game_from_stored_slug, stored_game};
use crate::collection::{is_hyphenated_uuid, new_entry_id};
use crate::domain::Result;

verus! {

/// A fresh id for an import run: a random (version 4) UUID as text. It
/// panics if the operating system's random source fails (see
/// `new_entry_id`).
pub fn new_import_id() -> (r: String)
    ensures
        is_hyphenated_uuid(r@),
{
    new_entry_id()
}

/// How a finished import run is logged: `(status, cards_imported,
/// error_message)`.
pub struct ImportOutcome {
    pub status: &'static str,
    pub cards_imported: u64,
    pub error_message: Option<String>,
}

/// The outcome of a run: `completed` with its count on success; otherwise
/// `cancelled` when cancellation was requested, else `failed`, with no cards
/// counted and the error's text as message.
pub fn import_outcome(result: &Result<u64>, cancelled: bool) -> (r: ImportOutcome)
    ensures
        match result {
            Ok(n) => r.status@ == "completed"@ && r.cards_imported == n && r.error_message is None,
            Err(e) => {
                &&& r.status@ == (if cancelled {
                    "cancelled"@
                } else {
                    "failed"@
                })
                &&& r.cards_imported == 0
                &&& r.error_message matches Some(m) && m@ == error_text(*e)
            },
        },
{
    match result {
        Ok(n) => ImportOutcome { status: "completed", cards_imported: *n, error_message: None },
        Err(e) => {
            let status = if cancelled {
                "cancelled"
            } else {
                "failed"
            };
            ImportOutcome { status, cards_imported: 0, error_message: Some(e.to_string()) }
        },
    }
}

/// A `catalog_imports` row as the database returns it.
pub struct StoredRunRow {
    pub game: String,
    pub started_at: String,
    pub finished_at: Option<String>,
    pub status: String,
    pub cards_imported: i64,
    pub error_message: Option<String>,
}

/// Decodes a stored import run: unknown games read as MTG and the count is
/// reinterpreted as unsigned, as the row was written from one.
pub fn run_summary_from_row(row: StoredRunRow) -> (r: ImportRunSummary)
    ensures
        r.game == stored_game(row.game@),
        r.started_at == row.started_at,
        r.finished_at == row.finished_at,
        r.status == row.status,
        r.cards_imported == row.cards_imported as u64,
        r.error_message == row.error_message,
{
    ImportRunSummary {
        game: game_from_stored_slug(row.game.as_str()),
        started_at: row.started_at,
        finished_at: row.finished_at,
        status: row.status,
        cards_imported: row.cards_imported as u64,
        error_message: row.error_message,
    }
}

} // verus!
