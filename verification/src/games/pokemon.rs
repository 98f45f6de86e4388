//! Pokémon TCG adapter (Pokémon TCG API).
//!
//! Single-card lookups go to `GET /cards/{id}`; the response carries the
//! card and TCGplayer-derived market prices. The HTTP request and JSON
//! decoding run in the application shell; this module turns the decoded
//! response into a catalog card and price records.

use vstd::prelude::*;

use crate::catalog::bulk::http::{or_string, ptcg_image, PtcgImages, PtcgSet};
use crate::domain::{Card, CardId, Game};
use crate::games::mtg::{positive, positive_cents, price_entry, push_price};
use crate::games::{push_urlencoded, url_path_escape};
use crate::pricing::{price_views, Price, PriceView};
use crate::text::{copy_str, push_str};

verus! {

pub const POKEMONTCG_BASE: &'static str = "https://api.pokemontcg.io/v2";

/// URL of the single-card lookup for `id`.
pub fn card_url(id: &CardId) -> (r: String)
    ensures
        r@ == POKEMONTCG_BASE@ + "/cards/"@ + url_path_escape(id.0@),
{
    let mut s = copy_str(POKEMONTCG_BASE);
    push_str(&mut s, "/cards/");
    push_urlencoded(&mut s, id.0.as_str());
    s
}

/// A market price, in whole cents as rounded from the API's dollar amount
/// (`None` when absent).
pub struct PtcgPriceFields {
    pub market: Option<u64>,
}

pub struct PtcgPriceVariants {
    pub normal: Option<PtcgPriceFields>,
    pub holo_foil: Option<PtcgPriceFields>,
    pub reverse_holo_foil: Option<PtcgPriceFields>,
    pub first_edition_holofoil: Option<PtcgPriceFields>,
}

pub struct PtcgTcgplayer {
    pub prices: Option<PtcgPriceVariants>,
}

/// A Pokémon TCG API card response.
pub struct PtcgCard {
    pub id: String,
    pub name: String,
    pub number: String,
    pub rarity: Option<String>,
    pub set: PtcgSet,
    pub images: Option<PtcgImages>,
    pub tcgplayer: Option<PtcgTcgplayer>,
}

pub open spec fn market(v: Option<PtcgPriceFields>) -> Option<u64> {
    match v {
        Some(f) => f.market,
        None => None,
    }
}

/// The foil price: the first positive market price among holo foil,
/// reverse holo foil and first-edition holo foil, in that order.
pub open spec fn first_foil(
    a: Option<PtcgPriceFields>,
    b: Option<PtcgPriceFields>,
    c: Option<PtcgPriceFields>,
) -> Option<u64> {
    if positive(market(a)) is Some {
        positive(market(a))
    } else if positive(market(b)) is Some {
        positive(market(b))
    } else {
        positive(market(c))
    }
}

/// The prices of a Pokémon card: the normal price, then one foil price.
pub open spec fn ptcg_price_views(id: Seq<char>, tp: Option<PtcgTcgplayer>) -> Seq<PriceView> {
    match tp {
        Some(t) => match t.prices {
            Some(v) => price_entry(
                Game::Pokemon,
                id,
                "usd"@,
                "tcgplayer"@,
                market(v.normal),
                false,
            ) + price_entry(
                Game::Pokemon,
                id,
                "usd"@,
                "tcgplayer"@,
                first_foil(v.holo_foil, v.reverse_holo_foil, v.first_edition_holofoil),
                true,
            ),
            None => Seq::empty(),
        },
        None => Seq::empty(),
    }
}

/// The prices taken from one set of TCGplayer variants.
pub open spec fn variant_price_views(id: Seq<char>, v: PtcgPriceVariants) -> Seq<PriceView> {
    ptcg_price_views(id, Some(PtcgTcgplayer { prices: Some(v) }))
}

/// What a Pokémon card's prices are: every record is a positive TCGplayer
/// USD price of the card; the non-foil record carries the normal market
/// price; the foil record carries the holo foil market price when that is
/// positive, else the reverse holo foil one when that is positive, else the
/// first-edition holo foil one; there is at most one record of each finish,
/// and each finish with a positive price has its record.
pub proof fn lemma_ptcg_foil_price_order(id: Seq<char>, v: PtcgPriceVariants)
    ensures
        forall|i: int|
            0 <= i < variant_price_views(id, v).len() ==> {
                let r = #[trigger] variant_price_views(id, v)[i];
                &&& r.game == Game::Pokemon
                &&& r.card_id == id
                &&& r.currency == "usd"@
                &&& r.source == "tcgplayer"@
                &&& r.cents > 0
                &&& !r.foil ==> positive(market(v.normal)) == Some(r.cents)
                &&& r.foil && positive(market(v.holo_foil)) is Some ==> positive(
                    market(v.holo_foil),
                ) == Some(r.cents)
                &&& r.foil && positive(market(v.holo_foil)) is None && positive(
                    market(v.reverse_holo_foil),
                ) is Some ==> positive(market(v.reverse_holo_foil)) == Some(r.cents)
                &&& r.foil && positive(market(v.holo_foil)) is None && positive(
                    market(v.reverse_holo_foil),
                ) is None ==> positive(market(v.first_edition_holofoil)) == Some(r.cents)
            },
        forall|i: int, j: int|
            0 <= i < j < variant_price_views(id, v).len() ==> #[trigger] variant_price_views(
                id,
                v,
            )[i].foil != #[trigger] variant_price_views(id, v)[j].foil,
        positive(market(v.normal)) is Some ==> exists|i: int|
            0 <= i < variant_price_views(id, v).len() && !(#[trigger] variant_price_views(
                id,
                v,
            )[i]).foil,
        positive(market(v.holo_foil)) is Some || positive(market(v.reverse_holo_foil)) is Some
            || positive(market(v.first_edition_holofoil)) is Some ==> exists|i: int|
            0 <= i < variant_price_views(id, v).len() && (#[trigger] variant_price_views(
                id,
                v,
            )[i]).foil,
{
    let a = price_entry(Game::Pokemon, id, "usd"@, "tcgplayer"@, market(v.normal), false);
    let b = price_entry(
        Game::Pokemon,
        id,
        "usd"@,
        "tcgplayer"@,
        first_foil(v.holo_foil, v.reverse_holo_foil, v.first_edition_holofoil),
        true,
    );
    let ps = variant_price_views(id, v);
    assert(ps == a + b);
    assert(a.len() <= 1 && b.len() <= 1);
    if positive(market(v.normal)) is Some {
        assert(ps[0] == a[0]);
    }
    if positive(market(v.holo_foil)) is Some || positive(market(v.reverse_holo_foil)) is Some
        || positive(market(v.first_edition_holofoil)) is Some {
        assert(ps[a.len() as int] == b[0]);
    }
}

fn market_of(v: &Option<PtcgPriceFields>) -> (r: Option<u64>)
    ensures
        r == market(*v),
{
    match v {
        Some(f) => f.market,
        None => None,
    }
}

fn first_foil_cents(v: &PtcgPriceVariants) -> (r: Option<u64>)
    ensures
        r == first_foil(v.holo_foil, v.reverse_holo_foil, v.first_edition_holofoil),
{
    let a = positive_cents(market_of(&v.holo_foil));
    if a.is_some() {
        return a;
    }
    let b = positive_cents(market_of(&v.reverse_holo_foil));
    if b.is_some() {
        return b;
    }
    positive_cents(market_of(&v.first_edition_holofoil))
}

impl PtcgCard {
    /// The catalog card and the positive prices of a Pokémon TCG API response.
    pub fn into_card_and_prices(self) -> (r: (Card, Vec<Price>))
        ensures
            r.0.game == Game::Pokemon,
            r.0.id.0@ == self.id@,
            r.0.name == self.name,
            r.0.set_code == self.set.id,
            r.0.set_name == self.set.name,
            r.0.collector_number == self.number,
            r.0.image_url == ptcg_image(self.images),
            r.0.rarity == self.rarity,
            price_views(r.1@) == ptcg_price_views(self.id@, self.tcgplayer),
    {
        let card_id = CardId(self.id);
        let mut prices: Vec<Price> = Vec::new();
        match &self.tcgplayer {
            Some(tp) => match &tp.prices {
                Some(v) => {
                    push_price(
                        &mut prices,
                        Game::Pokemon,
                        &card_id,
                        "usd",
                        "tcgplayer",
                        market_of(&v.normal),
                        false,
                    );
                    let foil = first_foil_cents(v);
                    push_price(&mut prices, Game::Pokemon, &card_id, "usd", "tcgplayer", foil, true);
                },
                None => {},
            },
            None => {},
        }
        assert(price_views(prices@) =~= ptcg_price_views(card_id.0@, self.tcgplayer));
        let image_url = match self.images {
            Some(i) => or_string(i.small, i.large),
            None => None,
        };
        let card = Card {
            game: Game::Pokemon,
            id: card_id,
            name: self.name,
            set_code: self.set.id,
            set_name: self.set.name,
            collector_number: self.number,
            image_url,
            rarity: self.rarity,
        };
        (card, prices)
    }
}

} // verus!
