//! Price records. Prices stay as integer cents; the local cache itself is
//! read and written by the application shell.

use vstd::prelude::*;

use crate::catalog::{game_from_stored_slug, stored_game};
use crate::domain::{CardId, Game};

verus! {

#[derive(Debug, Clone)]
pub struct Price {
    pub game: Game,
    pub card_id: CardId,
    pub currency: String,
    pub source: String,
    pub cents: u64,
    pub foil: bool,
    pub fetched_at: String,
}

/// The plain contents of a price record.
pub struct PriceView {
    pub game: Game,
    pub card_id: Seq<char>,
    pub currency: Seq<char>,
    pub source: Seq<char>,
    pub cents: u64,
    pub foil: bool,
    pub fetched_at: Seq<char>,
}

pub open spec fn price_view(p: Price) -> PriceView {
    PriceView {
        game: p.game,
        card_id: p.card_id.0@,
        currency: p.currency@,
        source: p.source@,
        cents: p.cents,
        foil: p.foil,
        fetched_at: p.fetched_at@,
    }
}

pub open spec fn price_views(s: Seq<Price>) -> Seq<PriceView> {
    Seq::new(s.len(), |i: int| price_view(s[i]))
}

/// A `prices` row as the database returns it.
pub struct StoredPriceRow {
    pub game: String,
    pub card_id: String,
    pub currency: String,
    pub source: String,
    pub cents: i64,
    pub foil: i64,
    pub fetched_at: String,
}

/// Decodes a stored price: unknown games read as MTG, negative amounts as
/// zero, any non-zero flag as foil.
pub fn price_from_row(row: StoredPriceRow) -> (r: Price)
    ensures
        r.game == stored_game(row.game@),
        r.card_id == CardId(row.card_id),
        r.currency == row.currency,
        r.source == row.source,
        r.cents == (if row.cents < 0 {
            0
        } else {
            row.cents as u64
        }),
        r.foil == (row.foil != 0),
        r.fetched_at == row.fetched_at,
{
    let game = game_from_stored_slug(row.game.as_str());
    let cents: u64 = if row.cents < 0 {
        0
    } else {
        row.cents as u64
    };
    Price {
        game,
        card_id: CardId(row.card_id),
        currency: row.currency,
        source: row.source,
        cents,
        foil: row.foil != 0,
        fetched_at: row.fetched_at,
    }
}

} // verus!
