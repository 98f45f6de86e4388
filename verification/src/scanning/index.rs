//! Scan index bookkeeping: the progress model and the controller that keeps
//! index builds one-at-a-time and cancellable. The downloads and hashing of
//! the build itself run in the application shell.

use vstd::prelude::*;

use crate::control::{after_cancel, after_finish, after_start, idle, start_succeeds, RunState};
use crate::domain::error::error_text;
use crate::domain::{Error, Game, Result};
use crate::text::{copy_opt_string, copy_str, copy_string};

verus! {

/// Progress of an index build.
#[derive(Debug, Clone)]
pub struct IndexProgress {
    pub game: Game,
    pub processed: u64,
    pub total: u64,
    /// `"downloading"` | `"finished"` | `"cancelled"` | `"failed"`
    pub stage: String,
    pub message: Option<String>,
}

/// Two progress values carry the same data.
pub open spec fn same_index_progress(a: IndexProgress, b: IndexProgress) -> bool {
    &&& a.game == b.game
    &&& a.processed == b.processed
    &&& a.total == b.total
    &&& a.stage@ == b.stage@
    &&& (a.message is Some <==> b.message is Some)
    &&& (a.message is Some ==> a.message->0@ == b.message->0@)
}

impl IndexProgress {
    pub fn duplicate(&self) -> (r: IndexProgress)
        ensures
            same_index_progress(r, *self),
    {
        IndexProgress {
            game: self.game,
            processed: self.processed,
            total: self.total,
            stage: copy_string(&self.stage),
            message: copy_opt_string(&self.message),
        }
    }
}

/// Status snapshot returned by the index-status query.
#[derive(Debug, Clone)]
pub struct IndexStatus {
    pub in_progress: bool,
    pub progress: Option<IndexProgress>,
    pub mtg_hashed: u64,
    pub mtg_total: u64,
    pub pokemon_hashed: u64,
    pub pokemon_total: u64,
}

/// Handle to the current (or most recent) index build: one build at a time,
/// with a cancellation flag and the latest progress.
pub struct IndexController {
    cancel_flag: bool,
    in_progress: bool,
    latest_progress: Option<IndexProgress>,
}

impl IndexController {
    /// The controller's run state.
    pub closed spec fn state(&self) -> RunState {
        RunState { in_progress: self.in_progress, cancelled: self.cancel_flag }
    }

    /// The latest recorded progress.
    pub closed spec fn latest(&self) -> Option<IndexProgress> {
        self.latest_progress
    }

    pub fn new() -> (r: Self)
        ensures
            r.state() == idle(),
            r.latest() is None,
    {
        IndexController { cancel_flag: false, in_progress: false, latest_progress: None }
    }

    /// Takes the build slot if it is free. A successful start clears the
    /// cancel flag and the recorded progress.
    pub fn try_start(&mut self) -> (r: bool)
        ensures
            r == start_succeeds(old(self).state()),
            final(self).state() == after_start(old(self).state()),
            r ==> final(self).latest() is None,
            !r ==> final(self).latest() == old(self).latest(),
    {
        if self.in_progress {
            false
        } else {
            self.in_progress = true;
            self.cancel_flag = false;
            self.latest_progress = None;
            true
        }
    }

    /// Releases the build slot.
    pub fn finish(&mut self)
        ensures
            final(self).state() == after_finish(old(self).state()),
            final(self).latest() == old(self).latest(),
    {
        self.in_progress = false;
    }

    pub fn is_in_progress(&self) -> (r: bool)
        ensures
            r == self.state().in_progress,
    {
        self.in_progress
    }

    /// Requests cancellation of the running build.
    pub fn cancel(&mut self)
        ensures
            final(self).state() == after_cancel(old(self).state()),
            final(self).latest() == old(self).latest(),
    {
        self.cancel_flag = true;
    }

    pub fn is_cancelled(&self) -> (r: bool)
        ensures
            r == self.state().cancelled,
    {
        self.cancel_flag
    }

    /// Records `progress` as the latest progress.
    pub fn record_progress(&mut self, progress: IndexProgress)
        ensures
            final(self).state() == old(self).state(),
            final(self).latest() == Some(progress),
    {
        self.latest_progress = Some(progress);
    }

    /// A copy of the latest recorded progress, if any.
    pub fn snapshot(&self) -> (r: Option<IndexProgress>)
        ensures
            r is Some <==> self.latest() is Some,
            r is Some ==> same_index_progress(r->0, self.latest()->0),
    {
        match &self.latest_progress {
            Some(p) => Some(p.duplicate()),
            None => None,
        }
    }
}

/// Event name the UI subscribes to for index-build progress.
pub const INDEX_PROGRESS_EVENT: &'static str = "scan:index:progress";

/// How many images are downloaded concurrently per chunk.
pub const CONCURRENT_DOWNLOADS: usize = 10;

/// A progress event of an index build.
pub open spec fn index_progress(
    p: IndexProgress,
    game: Game,
    processed: nat,
    total: nat,
    stage: Seq<char>,
) -> bool {
    &&& p.game == game
    &&& p.processed == processed
    &&& p.total == total
    &&& p.stage@ == stage
    &&& p.message is None
}

fn progress(game: Game, processed: u64, total: u64, stage: &str) -> (r: IndexProgress)
    ensures
        index_progress(r, game, processed as nat, total as nat, stage@),
{
    IndexProgress { game, processed, total, stage: copy_str(stage), message: None }
}

/// Progress of an index build over the `total` cards that still lack a
/// hash. Cards are downloaded in chunks of `CONCURRENT_DOWNLOADS`; every
/// card of a chunk counts as processed once its download finished, whether
/// or not it could be hashed. Cards hashed before a cancel stay hashed, so
/// a later build resumes where this one stopped.
pub struct IndexBuild {
    game: Game,
    total: usize,
    processed: usize,
}

impl IndexBuild {
    pub closed spec fn game(&self) -> Game {
        self.game
    }

    pub closed spec fn total(&self) -> nat {
        self.total as nat
    }

    pub closed spec fn processed(&self) -> nat {
        self.processed as nat
    }

    pub open spec fn wf(&self) -> bool {
        self.processed() <= self.total()
    }

    /// Starts a build over `total` cards, with its first event: `finished`
    /// at once when there is nothing to do, otherwise `downloading` 0 of
    /// `total`.
    pub fn start(game: Game, total: usize) -> (r: (IndexBuild, IndexProgress))
        ensures
            r.0.wf(),
            r.0.game() == game,
            r.0.total() == total,
            r.0.processed() == 0,
            total == 0 ==> index_progress(r.1, game, 0, 0, "finished"@),
            total > 0 ==> index_progress(r.1, game, 0, total as nat, "downloading"@),
    {
        let build = IndexBuild { game, total, processed: 0 };
        let first = if total == 0 {
            progress(game, 0, 0, "finished")
        } else {
            progress(game, 0, total as u64, "downloading")
        };
        (build, first)
    }

    /// The next chunk `[start, end)` of cards to download: none when all are
    /// processed; otherwise a cancel request stops the build.
    pub fn next_chunk(&self, cancel_requested: bool) -> (r: Result<Option<(usize, usize)>>)
        requires
            self.wf(),
        ensures
            self.processed() == self.total() ==> (r matches Ok(None)),
            self.processed() < self.total() && cancel_requested ==> (r matches Err(
                Error::Internal(m),
            ) && m@ == "index build cancelled"@),
            self.processed() < self.total() && !cancel_requested ==> (r matches Ok(Some(c))
                && c.0 == self.processed() && c.1 as int == (if self.processed()
                + CONCURRENT_DOWNLOADS <= self.total() {
                self.processed() + CONCURRENT_DOWNLOADS
            } else {
                self.total() as int
            })),
    {
        if self.processed == self.total {
            return Ok(None);
        }
        if cancel_requested {
            return Err(Error::Internal(copy_str("index build cancelled")));
        }
        let end = if self.total - self.processed >= CONCURRENT_DOWNLOADS {
            self.processed + CONCURRENT_DOWNLOADS
        } else {
            self.total
        };
        Ok(Some((self.processed, end)))
    }

    /// Records that the chunk ending at `end` was downloaded (and its good
    /// hashes stored); returns the `downloading` event to emit.
    pub fn chunk_done(&mut self, end: usize) -> (r: IndexProgress)
        requires
            old(self).wf(),
            old(self).processed() < end <= old(self).total(),
        ensures
            final(self).wf(),
            final(self).game() == old(self).game(),
            final(self).total() == old(self).total(),
            final(self).processed() == end,
            index_progress(r, old(self).game(), end as nat, old(self).total(), "downloading"@),
    {
        self.processed = end;
        progress(self.game, end as u64, self.total as u64, "downloading")
    }

    /// The `finished` event, and the number of cards processed.
    pub fn finish(&self) -> (r: (IndexProgress, u64))
        ensures
            index_progress(r.0, self.game(), self.processed(), self.total(), "finished"@),
            r.1 == self.processed(),
    {
        (progress(self.game, self.processed as u64, self.total as u64, "finished"), self.processed as u64)
    }
}

/// The event recorded when a build ends in an error: `cancelled` when a
/// cancel was requested, `failed` otherwise, with the error's text.
pub fn index_failure_progress(game: Game, cancel_requested: bool, err: &Error) -> (r: IndexProgress)
    ensures
        r.game == game,
        r.processed == 0,
        r.total == 0,
        r.stage@ == (if cancel_requested {
            "cancelled"@
        } else {
            "failed"@
        }),
        r.message matches Some(m) && m@ == error_text(*err),
{
    let stage = if cancel_requested {
        "cancelled"
    } else {
        "failed"
    };
    IndexProgress {
        game,
        processed: 0,
        total: 0,
        stage: copy_str(stage),
        message: Some(err.to_string()),
    }
}

} // verus!
