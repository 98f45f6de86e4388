//! Decisions of the command surface that the UI calls: search limits, the
//! app-info record, and the card list of a collection-wide price refresh.
//! The commands themselves are dispatched by the application shell.

use vstd::prelude::*;

use crate::collection::CollectionEntry;
use crate::domain::{CardId, Game};
use crate::games::{describe, GameDescriptor};
use crate::text::str_eq;

verus! {

/// Default page size of a catalog search.
pub const DEFAULT_CATALOG_SEARCH_LIMIT: u32 = 25;

/// Hard cap that protects the UI from a runaway request.
pub const MAX_CATALOG_SEARCH_LIMIT: u32 = 200;

/// The limit a catalog search runs with: the requested one (default 25),
/// clamped to 200.
pub fn effective_search_limit(limit: Option<u32>) -> (r: u32)
    ensures
        r == (match limit {
            Some(l) => if l < MAX_CATALOG_SEARCH_LIMIT {
                l
            } else {
                MAX_CATALOG_SEARCH_LIMIT
            },
            None => DEFAULT_CATALOG_SEARCH_LIMIT,
        }),
{
    let l = match limit {
        Some(l) => l,
        None => DEFAULT_CATALOG_SEARCH_LIMIT,
    };
    if l < MAX_CATALOG_SEARCH_LIMIT {
        l
    } else {
        MAX_CATALOG_SEARCH_LIMIT
    }
}

/// Application facts shown on the About screen.
#[derive(Debug)]
pub struct AppInfo {
    pub name: &'static str,
    pub version: &'static str,
    pub db_path: String,
    pub supported_games: Vec<GameDescriptor>,
}

pub fn app_info(version: &'static str, db_path: String) -> (r: AppInfo)
    ensures
        r.name@ == "Binderbase"@,
        r.version == version,
        r.db_path == db_path,
        r.supported_games@.len() == 2,
        r.supported_games@[0].game == Game::Mtg,
        r.supported_games@[1].game == Game::Pokemon,
{
    let games = Game::all();
    let mut supported: Vec<GameDescriptor> = Vec::new();
    let mut i: usize = 0;
    while i < games.len()
        invariant
            games@ == seq![Game::Mtg, Game::Pokemon],
            i <= games@.len(),
            supported@.len() == i,
            forall|j: int| 0 <= j < i ==> (#[trigger] supported@[j]).game == games@[j],
        decreases games@.len() - i,
    {
        supported.push(describe(games[i]));
        i = i + 1;
    }
    AppInfo { name: "Binderbase", version, db_path, supported_games: supported }
}

/// Progress payload emitted once per card during a collection-wide price
/// refresh.
#[derive(Debug, Clone)]
pub struct RefreshProgress {
    pub done: u32,
    pub total: u32,
    pub card_id: String,
    pub game: Game,
    pub ok: bool,
    pub error: Option<String>,
}

/// The `(game, card id)` of an entry.
pub open spec fn card_key(e: CollectionEntry) -> (Game, Seq<char>) {
    (e.game, e.card_id.0@)
}

/// The distinct `(game, card id)` pairs of a list of entries, each at the
/// position of its first occurrence.
pub open spec fn distinct_keys(s: Seq<CollectionEntry>) -> Seq<(Game, Seq<char>)>
    decreases s.len(),
{
    if s.len() == 0 {
        Seq::empty()
    } else {
        let d = distinct_keys(s.drop_last());
        if d.contains(card_key(s.last())) {
            d
        } else {
            d.push(card_key(s.last()))
        }
    }
}

pub open spec fn keys_view(s: Seq<(Game, CardId)>) -> Seq<(Game, Seq<char>)> {
    Seq::new(s.len(), |i: int| (s[i].0, s[i].1.0@))
}

/// The cards a collection-wide price refresh visits: each distinct
/// `(game, card id)` once, in collection order.
pub fn distinct_cards(entries: &Vec<CollectionEntry>) -> (r: Vec<(Game, CardId)>)
    ensures
        keys_view(r@) == distinct_keys(entries@),
{
    let mut out: Vec<(Game, CardId)> = Vec::new();
    let mut i: usize = 0;
    while i < entries.len()
        invariant
            i <= entries@.len(),
            keys_view(out@) == distinct_keys(entries@.take(i as int)),
        decreases entries@.len() - i,
    {
        let e = &entries[i];
        assert(entries@.take(i + 1).drop_last() =~= entries@.take(i as int));
        assert(entries@.take(i + 1).last() == entries@[i as int]);
        let ghost key = card_key(*e);
        let ghost seen = keys_view(out@);
        let mut found = false;
        let mut j: usize = 0;
        while j < out.len()
            invariant
                seen == keys_view(out@),
                key == card_key(*e),
                j <= out@.len(),
                found == (exists|k: int| 0 <= k < j && seen[k] == key),
            decreases out@.len() - j,
        {
            let same = out[j].0 == e.game && str_eq(out[j].1.0.as_str(), e.card_id.0.as_str());
            assert(seen[j as int] == (out@[j as int].0, out@[j as int].1.0@));
            assert(same == (seen[j as int] == key));
            if same {
                found = true;
            }
            j = j + 1;
        }
        proof {
            if found {
                let k = choose|k: int| 0 <= k < seen.len() && seen[k] == key;
                assert(seen.contains(key));
            } else {
                assert(!seen.contains(key));
            }
        }
        if !found {
            out.push((e.game, e.card_id.duplicate()));
            assert(keys_view(out@) =~= seen.push(key));
        }
        i = i + 1;
    }
    assert(entries@.take(entries@.len() as int) =~= entries@);
    out
}

/// A collection-wide refresh visits every card of the collection exactly
/// once: the distinct keys hold no key twice, every entry's key, and only
/// keys of entries.
pub proof fn lemma_distinct_keys(s: Seq<CollectionEntry>)
    ensures
        forall|a: int, b: int|
            0 <= a < b < distinct_keys(s).len() ==> distinct_keys(s)[a] != distinct_keys(s)[b],
        forall|i: int| 0 <= i < s.len() ==> distinct_keys(s).contains(#[trigger] card_key(s[i])),
        forall|k: int|
            0 <= k < distinct_keys(s).len() ==> exists|i: int|
                0 <= i < s.len() && card_key(s[i]) == #[trigger] distinct_keys(s)[k],
    decreases s.len(),
{
    if s.len() > 0 {
        let init = s.drop_last();
        lemma_distinct_keys(init);
        let d = distinct_keys(init);
        let key = card_key(s.last());
        assert forall|i: int| 0 <= i < s.len() implies distinct_keys(s).contains(
            #[trigger] card_key(s[i]),
        ) by {
            if i < init.len() {
                assert(card_key(init[i]) == card_key(s[i]));
                assert(d.contains(card_key(init[i])));
                if !d.contains(key) {
                    let j = choose|j: int| 0 <= j < d.len() && d[j] == card_key(init[i]);
                    assert(d.push(key)[j] == d[j]);
                }
            } else {
                if !d.contains(key) {
                    assert(d.push(key)[d.len() as int] == key);
                }
            }
        }
        assert forall|k: int| 0 <= k < distinct_keys(s).len() implies exists|i: int|
            0 <= i < s.len() && card_key(s[i]) == #[trigger] distinct_keys(s)[k] by {
            if k < d.len() {
                let i = choose|i: int| 0 <= i < init.len() && card_key(init[i]) == d[k];
                assert(card_key(s[i]) == card_key(init[i]));
                if !d.contains(key) {
                    assert(d.push(key)[k] == d[k]);
                }
            } else {
                assert(card_key(s[s.len() - 1]) == key);
            }
        }
    }
}

} // verus!
