//! Import controller and progress reporting.
//!
//! [`ImportController`] enforces single-import-at-a-time semantics and holds
//! the cancellation flag. [`ProgressSink`] abstracts where progress events go.

use vstd::prelude::*;

use crate::control::{after_cancel, after_finish, after_start, idle, start_succeeds, RunState};
use crate::domain::Game;
use crate::text::{copy_opt_string, copy_string};

verus! {

/// Snapshot of where an import currently is.
///
/// `stage` is a stable short string the UI can branch on:
/// `"fetching_bulk_index"`, `"downloading"`, `"parsing"`, `"importing"`,
/// `"finished"`, `"cancelled"`, `"failed"`.
#[derive(Debug, Clone, PartialEq, Eq)]
pub struct ImportProgress {
    pub game: Option<Game>,
    pub stage: String,
    pub processed: u64,
    pub total: Option<u64>,
    pub message: Option<String>,
}

/// Two progress values carry the same data.
pub open spec fn same_import_progress(a: ImportProgress, b: ImportProgress) -> bool {
    &&& a.game == b.game
    &&& a.stage@ == b.stage@
    &&& a.processed == b.processed
    &&& a.total == b.total
    &&& (a.message is Some <==> b.message is Some)
    &&& (a.message is Some ==> a.message->0@ == b.message->0@)
}

impl ImportProgress {
    pub fn duplicate(&self) -> (r: ImportProgress)
        ensures
            same_import_progress(r, *self),
    {
        ImportProgress {
            game: self.game,
            stage: copy_string(&self.stage),
            processed: self.processed,
            total: self.total,
            message: copy_opt_string(&self.message),
        }
    }
}

/// Public import status: live progress plus the last run of each game.
#[derive(Debug, Clone)]
pub struct ImportStatus {
    pub in_progress: bool,
    pub progress: Option<ImportProgress>,
    pub last_mtg: Option<ImportRunSummary>,
    pub last_pokemon: Option<ImportRunSummary>,
}

/// Slice of a row from `catalog_imports`.
#[derive(Debug, Clone)]
pub struct ImportRunSummary {
    pub game: Game,
    pub started_at: String,
    pub finished_at: Option<String>,
    /// `"running"` | `"completed"` | `"cancelled"` | `"failed"`
    pub status: String,
    pub cards_imported: u64,
    pub error_message: Option<String>,
}

/// Handle to the current (or most recent) import: one import at a time,
/// with a cancellation flag and the latest progress.
pub struct ImportController {
    cancel_flag: bool,
    in_progress: bool,
    latest_progress: Option<ImportProgress>,
}

impl ImportController {
    /// The controller's run state.
    pub closed spec fn state(&self) -> RunState {
        RunState { in_progress: self.in_progress, cancelled: self.cancel_flag }
    }

    /// The latest recorded progress.
    pub closed spec fn latest(&self) -> Option<ImportProgress> {
        self.latest_progress
    }

    pub fn new() -> (r: Self)
        ensures
            r.state() == idle(),
            r.latest() is None,
    {
        ImportController { cancel_flag: false, in_progress: false, latest_progress: None }
    }

    /// Takes the import slot if it is free. A successful start clears the
    /// cancel flag and the recorded progress.
    pub fn try_start(&mut self) -> (r: bool)
        ensures
            r == start_succeeds(old(self).state()),
            final(self).state() == after_start(old(self).state()),
            r ==> final(self).latest() is None,
            !r ==> final(self).latest() == old(self).latest(),
    {
        if self.in_progress {
            false
        } else {
            self.in_progress = true;
            self.cancel_flag = false;
            self.latest_progress = None;
            true
        }
    }

    /// Releases the import slot.
    pub fn finish(&mut self)
        ensures
            final(self).state() == after_finish(old(self).state()),
            final(self).latest() == old(self).latest(),
    {
        self.in_progress = false;
    }

    pub fn is_in_progress(&self) -> (r: bool)
        ensures
            r == self.state().in_progress,
    {
        self.in_progress
    }

    /// Requests cancellation of the running import.
    pub fn cancel(&mut self)
        ensures
            final(self).state() == after_cancel(old(self).state()),
            final(self).latest() == old(self).latest(),
    {
        self.cancel_flag = true;
    }

    pub fn is_cancelled(&self) -> (r: bool)
        ensures
            r == self.state().cancelled,
    {
        self.cancel_flag
    }

    /// Records `progress` as the latest progress.
    pub fn record_progress(&mut self, progress: ImportProgress)
        ensures
            final(self).state() == old(self).state(),
            final(self).latest() == Some(progress),
    {
        self.latest_progress = Some(progress);
    }

    /// A copy of the latest recorded progress, if any.
    pub fn snapshot(&self) -> (r: Option<ImportProgress>)
        ensures
            r is Some <==> self.latest() is Some,
            r is Some ==> same_import_progress(r->0, self.latest()->0),
    {
        match &self.latest_progress {
            Some(p) => Some(p.duplicate()),
            None => None,
        }
    }
}

/// Where progress updates go (an event channel in the application, a
/// recording list in tests).
pub trait ProgressSink {
    fn emit(&self, progress: ImportProgress);
}

} // verus!
