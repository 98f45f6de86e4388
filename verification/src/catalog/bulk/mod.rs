//! Bulk catalog import.
//!
//! Pulls the full card list for each supported game into the local `cards`
//! table. MTG comes from Scryfall's single bulk download; Pokémon from the
//! paginated Pokémon TCG API.
//!
//! The network and database work runs in the application shell; this module
//! holds the decisions of each pipeline as small state machines:
//!
//! * [`PersistRun`] — batched upsert of a card list: one progress event up
//!   front, then one per committed batch of [`BATCH_SIZE`] cards, with a
//!   cancellation check before each batch. Batches committed before a
//!   cancel stay committed.
//! * [`PokemonPager`] — pagination: fetch page 1, 2, ... while pages are
//!   full; stop at the first empty or short page; check for cancellation
//!   before every fetch.
//! * [`terminal_progress`] — the final `finished` / `cancelled` / `failed`
//!   event of a run.

pub mod controller;
pub mod http;
pub mod persist;

pub use controller::{
    ImportController, ImportProgress, ImportRunSummary, ImportStatus, ProgressSink,
};
pub use http::{PtcgCard, ScryfallCard};
pub use persist::{import_outcome, ImportOutcome};

use vstd::prelude::*;

use crate::domain::error::error_text;
use crate::domain::{Error, Game, Result};
use crate::text::{copy_str, decimal, decimal_string, push_str};

verus! {

// ---------- constants ----------

pub const SCRYFALL_BULK_INDEX_URL: &'static str = "https://api.scryfall.com/bulk-data";

pub const PTCGAPI_BASE: &'static str = "https://api.pokemontcg.io/v2";

/// Event name the UI subscribes to for import progress.
pub const PROGRESS_EVENT: &'static str = "catalog:import:progress";

/// How many cards to upsert per database transaction.
pub const BATCH_SIZE: usize = 1000;

/// Max page size the Pokémon TCG API accepts.
pub const PTCGAPI_PAGE_SIZE: u32 = 250;

/// The text of the error a cancelled run returns.
pub open spec fn cancelled_error(e: Error) -> bool {
    e matches Error::Internal(m) && m@ == "import cancelled"@
}

fn cancelled() -> (r: Error)
    ensures
        cancelled_error(r),
{
    Error::Internal(copy_str("import cancelled"))
}

/// An `"importing"` progress event.
pub open spec fn importing_progress(
    p: ImportProgress,
    game: Game,
    processed: nat,
    total: Option<u64>,
) -> bool {
    &&& p.game == Some(game)
    &&& p.stage@ == "importing"@
    &&& p.processed == processed
    &&& p.total == total
    &&& p.message is None
}

// ---------- batched persistence ----------

/// Progress of a batched upsert of `count` cards.
pub struct PersistRun {
    game: Game,
    count: usize,
    processed: usize,
}

impl PersistRun {
    pub closed spec fn game(&self) -> Game {
        self.game
    }

    /// Number of cards to write.
    pub closed spec fn count(&self) -> nat {
        self.count as nat
    }

    /// Number of cards written so far (a prefix of the list).
    pub closed spec fn processed(&self) -> nat {
        self.processed as nat
    }

    pub open spec fn wf(&self) -> bool {
        self.processed() <= self.count()
    }

    /// Starts a run over `count` cards, with its first progress event
    /// (`0` of `count`).
    pub fn start(game: Game, count: usize) -> (r: (PersistRun, ImportProgress))
        ensures
            r.0.wf(),
            r.0.game() == game,
            r.0.count() == count,
            r.0.processed() == 0,
            importing_progress(r.1, game, 0, Some(count as u64)),
    {
        let run = PersistRun { game, count, processed: 0 };
        let progress = ImportProgress {
            game: Some(game),
            stage: copy_str("importing"),
            processed: 0,
            total: Some(count as u64),
            message: None,
        };
        (run, progress)
    }

    /// The next batch `[start, end)` to write: none when every card is
    /// written; otherwise a cancel request aborts the run, else the next
    /// `BATCH_SIZE` cards (fewer at the end).
    pub fn next_batch(&self, cancel_requested: bool) -> (r: Result<Option<(usize, usize)>>)
        requires
            self.wf(),
        ensures
            self.processed() == self.count() ==> (r matches Ok(None)),
            self.processed() < self.count() && cancel_requested ==> (r matches Err(e)
                && cancelled_error(e)),
            self.processed() < self.count() && !cancel_requested ==> (r matches Ok(Some(b)) && b.0
                == self.processed() && b.1 as int == (if self.processed() + BATCH_SIZE <= self.count() {
                self.processed() + BATCH_SIZE
            } else {
                self.count() as int
            })),
    {
        if self.processed == self.count {
            return Ok(None);
        }
        if cancel_requested {
            return Err(cancelled());
        }
        let end = if self.count - self.processed >= BATCH_SIZE {
            self.processed + BATCH_SIZE
        } else {
            self.count
        };
        Ok(Some((self.processed, end)))
    }

    /// Records that the batch ending at `end` was committed, and returns the
    /// progress event to emit (`end` of `count`).
    pub fn batch_written(&mut self, end: usize) -> (r: ImportProgress)
        requires
            old(self).wf(),
            old(self).processed() < end <= old(self).count(),
        ensures
            final(self).wf(),
            final(self).game() == old(self).game(),
            final(self).count() == old(self).count(),
            final(self).processed() == end,
            importing_progress(r, old(self).game(), end as nat, Some(old(self).count() as u64)),
    {
        self.processed = end;
        ImportProgress {
            game: Some(self.game),
            stage: copy_str("importing"),
            processed: end as u64,
            total: Some(self.count as u64),
            message: None,
        }
    }

    /// Number of cards written so far.
    pub fn written(&self) -> (r: u64)
        ensures
            r == self.processed(),
    {
        self.processed as u64
    }
}

/// `BATCH_SIZE` as a natural number.
pub open spec fn batch() -> nat {
    BATCH_SIZE as nat
}

/// Where the batch that starts at `p` ends, in a list of `count` cards.
pub open spec fn batch_end(p: nat, count: nat) -> nat {
    if p + batch() <= count {
        p + batch()
    } else {
        count
    }
}

/// Cards written after `k` batches of a run over `count` cards.
pub open spec fn written_after(count: nat, k: nat) -> nat
    decreases k,
{
    if k == 0 {
        0
    } else {
        batch_end(written_after(count, (k - 1) as nat), count)
    }
}

/// Number of batches a run over `count` cards takes.
pub open spec fn batch_count(count: nat) -> nat {
    ((count + batch() - 1) as nat) / batch()
}

/// Batched writing covers the list in order: after `k` batches exactly
/// `min(k * BATCH_SIZE, count)` cards are written; a run over `count` cards
/// is complete after `batch_count(count)` batches and not before, so it
/// emits that many progress events after its first one.
pub proof fn lemma_batches_cover(count: nat, k: nat)
    ensures
        written_after(count, k) == (if k * batch() <= count {
            k * batch()
        } else {
            count
        }),
        written_after(count, batch_count(count)) == count,
        k < batch_count(count) ==> written_after(count, k) < count,
{
    lemma_written_after_closed(count, k);
    let n = batch_count(count);
    lemma_written_after_closed(count, n);
    assert(n * 1000 >= count) by (nonlinear_arith)
        requires
            n == ((count + 999) as nat) / 1000nat,
    ;
    if k < n {
        assert(k * 1000 < count) by (nonlinear_arith)
            requires
                k < n,
                n == ((count + 999) as nat) / 1000nat,
        ;
    }
}

proof fn lemma_written_after_closed(count: nat, k: nat)
    ensures
        written_after(count, k) == (if k * batch() <= count {
            k * batch()
        } else {
            count
        }),
    decreases k,
{
    if k > 0 {
        lemma_written_after_closed(count, (k - 1) as nat);
        assert((k - 1) * 1000 + 1000 == k * 1000) by (nonlinear_arith)
            requires
                k > 0,
        ;
        if (k - 1) * 1000 > count {
            assert(k * 1000 > count) by (nonlinear_arith)
                requires
                    (k - 1) * 1000 > count,
                    k > 0,
            ;
        }
    }
}

// ---------- Pokémon pagination ----------

/// URL of one page of the Pokémon TCG API card list.
pub open spec fn pokemon_page_url_spec(page: nat) -> Seq<char> {
    PTCGAPI_BASE@ + "/cards?page="@ + decimal(page) + "&pageSize="@ + decimal(
        PTCGAPI_PAGE_SIZE as nat,
    )
}

pub fn pokemon_page_url(page: u32) -> (r: String)
    ensures
        r@ == pokemon_page_url_spec(page as nat),
{
    let mut s = copy_str(PTCGAPI_BASE);
    push_str(&mut s, "/cards?page=");
    let p = decimal_string(page as u64);
    push_str(&mut s, p.as_str());
    push_str(&mut s, "&pageSize=");
    let n = decimal_string(PTCGAPI_PAGE_SIZE as u64);
    push_str(&mut s, n.as_str());
    s
}

/// State of a paginated Pokémon import.
pub struct PokemonPager {
    page: u32,
    total_imported: u64,
    announced_total: Option<u64>,
}

impl PokemonPager {
    /// The next page to fetch (pages are numbered from 1).
    pub closed spec fn page(&self) -> nat {
        self.page as nat
    }

    /// Cards imported so far.
    pub closed spec fn imported(&self) -> nat {
        self.total_imported as nat
    }

    /// The catalog size announced by the first non-empty page that had one.
    pub closed spec fn announced(&self) -> Option<u64> {
        self.announced_total
    }

    pub fn new() -> (r: PokemonPager)
        ensures
            r.page() == 1,
            r.imported() == 0,
            r.announced() is None,
    {
        PokemonPager { page: 1, total_imported: 0, announced_total: None }
    }

    /// The page to fetch next, unless cancellation was requested.
    pub fn next_page(&self, cancel_requested: bool) -> (r: Result<u32>)
        ensures
            cancel_requested ==> (r matches Err(e) && cancelled_error(e)),
            !cancel_requested ==> (r matches Ok(p) && p == self.page()),
    {
        if cancel_requested {
            Err(cancelled())
        } else {
            Ok(self.page)
        }
    }

    /// Takes in a fetched page of `count` cards. Returns `false` when the
    /// page is empty (the import is over); otherwise the page is to be
    /// written, and its announced total is kept if none was known yet.
    pub fn page_fetched(&mut self, count: usize, maybe_total: Option<u64>) -> (r: bool)
        ensures
            r == (count > 0),
            final(self).page() == old(self).page(),
            final(self).imported() == old(self).imported(),
            final(self).announced() == (if count > 0 && old(self).announced() is None {
                maybe_total
            } else {
                old(self).announced()
            }),
    {
        if count == 0 {
            return false;
        }
        if self.announced_total.is_none() {
            self.announced_total = maybe_total;
        }
        true
    }

    /// Records that a page of `count` cards was committed. Returns the
    /// progress event and whether to go on: a page shorter than
    /// `PTCGAPI_PAGE_SIZE` is the last one.
    pub fn page_written(&mut self, count: usize) -> (r: (ImportProgress, bool))
        requires
            old(self).imported() + count <= u64::MAX,
            count >= PTCGAPI_PAGE_SIZE ==> old(self).page() < u32::MAX,
        ensures
            final(self).imported() == old(self).imported() + count,
            final(self).announced() == old(self).announced(),
            r.1 == (count >= PTCGAPI_PAGE_SIZE),
            final(self).page() == (if r.1 {
                old(self).page() + 1
            } else {
                old(self).page()
            }),
            importing_progress(r.0, Game::Pokemon, final(self).imported(), old(self).announced()),
    {
        self.total_imported = self.total_imported + count as u64;
        let more = count >= PTCGAPI_PAGE_SIZE as usize;
        if more {
            self.page = self.page + 1;
        }
        let progress = ImportProgress {
            game: Some(Game::Pokemon),
            stage: copy_str("importing"),
            processed: self.total_imported,
            total: self.announced_total,
            message: None,
        };
        (progress, more)
    }

    /// Cards imported so far.
    pub fn total(&self) -> (r: u64)
        ensures
            r == self.imported(),
    {
        self.total_imported
    }
}

// ---------- importing every game ----------

/// Whether an import of every game stops after the MTG run: it does when
/// that run failed or a cancel was requested; otherwise the Pokémon run
/// follows.
pub fn stops_after_first_game(failed: bool, cancel_requested: bool) -> (r: bool)
    ensures
        r == (failed || cancel_requested),
{
    failed || cancel_requested
}

// ---------- terminal event ----------

/// The last progress event of a run: `cancelled` when it failed after a
/// cancel request, `failed` on any other error, `finished` on success; the
/// error's text travels as the message.
pub fn terminal_progress(game: Option<Game>, cancel_requested: bool, err: Option<&Error>) -> (r:
    ImportProgress)
    ensures
        r.game == game,
        r.processed == 0,
        r.total is None,
        r.stage@ == (match err {
            Some(_) => if cancel_requested {
                "cancelled"@
            } else {
                "failed"@
            },
            None => "finished"@,
        }),
        match err {
            Some(e) => r.message matches Some(m) && m@ == error_text(*e),
            None => r.message is None,
        },
{
    let stage = match err {
        Some(_) => if cancel_requested {
            "cancelled"
        } else {
            "failed"
        },
        None => "finished",
    };
    let message = match err {
        Some(e) => Some(e.to_string()),
        None => None,
    };
    ImportProgress { game, stage: copy_str(stage), processed: 0, total: None, message }
}

} // verus!
