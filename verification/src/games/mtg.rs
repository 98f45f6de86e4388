//! Magic: The Gathering adapter (Scryfall).
//!
//! Single-card lookups go to `GET /cards/{id}`; the response carries the
//! card and its daily price snapshot. The HTTP request and JSON decoding run
//! in the application shell; this module turns the decoded response into a
//! catalog card and price records.

use vstd::prelude::*;

use crate::catalog::bulk::http::{or_string, scryfall_image, ScryfallImageUris};
use crate::domain::{Card, CardId, Game};
use crate::games::{push_urlencoded, url_path_escape};
use crate::pricing::{price_views, Price, PriceView};
use crate::text::copy_str;

verus! {

pub const SCRYFALL_BASE: &'static str = "https://api.scryfall.com";

/// URL of the single-card lookup for `id`.
pub fn card_url(id: &CardId) -> (r: String)
    ensures
        r@ == SCRYFALL_BASE@ + "/cards/"@ + url_path_escape(id.0@),
{
    let mut s = copy_str(SCRYFALL_BASE);
    crate::text::push_str(&mut s, "/cards/");
    push_urlencoded(&mut s, id.0.as_str());
    s
}

/// Daily price snapshot, each price in whole cents as rounded from the
/// API's dollar string (`None` when the string is missing or unparseable).
pub struct ScryfallPrices {
    pub usd: Option<u64>,
    pub usd_foil: Option<u64>,
    pub eur: Option<u64>,
    pub eur_foil: Option<u64>,
}

/// A Scryfall card response.
pub struct ScryfallCard {
    pub id: String,
    pub name: String,
    pub set: String,
    pub set_name: String,
    pub collector_number: String,
    pub rarity: Option<String>,
    pub image_uris: Option<ScryfallImageUris>,
    pub prices: Option<ScryfallPrices>,
}

/// A price amount is usable only when it is a positive number of cents.
pub open spec fn positive(cents: Option<u64>) -> Option<u64> {
    match cents {
        Some(c) => if c > 0 {
            Some(c)
        } else {
            None
        },
        None => None,
    }
}

/// `parse_price` after rounding: amounts of zero cents are dropped.
pub fn positive_cents(cents: Option<u64>) -> (r: Option<u64>)
    ensures
        r == positive(cents),
{
    match cents {
        Some(c) => if c > 0 {
            Some(c)
        } else {
            None
        },
        None => None,
    }
}

/// The price record (if any) an amount yields.
pub open spec fn price_entry(
    game: Game,
    id: Seq<char>,
    currency: Seq<char>,
    source: Seq<char>,
    cents: Option<u64>,
    foil: bool,
) -> Seq<PriceView> {
    match positive(cents) {
        Some(c) => seq![
            PriceView {
                game,
                card_id: id,
                currency,
                source,
                cents: c,
                foil,
                fetched_at: Seq::empty(),
            },
        ],
        None => Seq::empty(),
    }
}

/// The prices of a Scryfall card, in the order usd, usd foil, eur, eur foil.
pub open spec fn scryfall_price_views(id: Seq<char>, p: Option<ScryfallPrices>) -> Seq<PriceView> {
    match p {
        Some(p) => price_entry(Game::Mtg, id, "usd"@, "scryfall"@, p.usd, false) + price_entry(
            Game::Mtg,
            id,
            "usd"@,
            "scryfall"@,
            p.usd_foil,
            true,
        ) + price_entry(Game::Mtg, id, "eur"@, "scryfall"@, p.eur, false) + price_entry(
            Game::Mtg,
            id,
            "eur"@,
            "scryfall"@,
            p.eur_foil,
            true,
        ),
        None => Seq::empty(),
    }
}

/// The amount a Scryfall price snapshot quotes for a currency and finish.
pub open spec fn scryfall_amount(p: ScryfallPrices, currency: Seq<char>, foil: bool) -> Option<
    u64,
> {
    if currency == "usd"@ {
        if foil {
            p.usd_foil
        } else {
            p.usd
        }
    } else if currency == "eur"@ {
        if foil {
            p.eur_foil
        } else {
            p.eur
        }
    } else {
        None
    }
}

/// Each Scryfall amount keeps its own currency and finish: every price
/// record of a card is a Scryfall price of that card carrying the positive
/// amount quoted for its (currency, foil) pair; no pair has two records; and
/// every positive amount quoted in USD or EUR, plain or foil, has a record.
pub proof fn lemma_scryfall_prices_keep_finish(id: Seq<char>, p: ScryfallPrices)
    ensures
        forall|i: int|
            0 <= i < scryfall_price_views(id, Some(p)).len() ==> {
                let r = #[trigger] scryfall_price_views(id, Some(p))[i];
                &&& r.game == Game::Mtg
                &&& r.card_id == id
                &&& r.source == "scryfall"@
                &&& r.cents > 0
                &&& scryfall_amount(p, r.currency, r.foil) == Some(r.cents)
            },
        forall|i: int, j: int|
            0 <= i < j < scryfall_price_views(id, Some(p)).len() ==> !(
            #[trigger] scryfall_price_views(id, Some(p))[i].currency == #[trigger] scryfall_price_views(
                id,
                Some(p),
            )[j].currency && scryfall_price_views(id, Some(p))[i].foil == scryfall_price_views(
                id,
                Some(p),
            )[j].foil),
        forall|currency: Seq<char>, foil: bool|
            (currency == "usd"@ || currency == "eur"@) && #[trigger] positive(
                scryfall_amount(p, currency, foil),
            ) is Some ==> exists|i: int|
                0 <= i < scryfall_price_views(id, Some(p)).len() && #[trigger] scryfall_price_views(
                    id,
                    Some(p),
                )[i].currency == currency && scryfall_price_views(id, Some(p))[i].foil == foil,
{
    reveal_strlit("usd");
    reveal_strlit("eur");
    reveal_strlit("scryfall");
    assert("usd"@ != "eur"@) by {
        assert("usd"@[0] != "eur"@[0]);
    }
    let a = price_entry(Game::Mtg, id, "usd"@, "scryfall"@, p.usd, false);
    let b = price_entry(Game::Mtg, id, "usd"@, "scryfall"@, p.usd_foil, true);
    let c = price_entry(Game::Mtg, id, "eur"@, "scryfall"@, p.eur, false);
    let d = price_entry(Game::Mtg, id, "eur"@, "scryfall"@, p.eur_foil, true);
    let v = scryfall_price_views(id, Some(p));
    assert(v == a + b + c + d);
    assert forall|i: int| 0 <= i < v.len() implies {
        let r = #[trigger] v[i];
        &&& r.game == Game::Mtg
        &&& r.card_id == id
        &&& r.source == "scryfall"@
        &&& r.cents > 0
        &&& scryfall_amount(p, r.currency, r.foil) == Some(r.cents)
    } by {
        lemma_concat4_index(a, b, c, d, i);
    }
    assert forall|i: int, j: int| 0 <= i < j < v.len() implies !(#[trigger] v[i].currency
        == #[trigger] v[j].currency && v[i].foil == v[j].foil) by {
        lemma_concat4_index(a, b, c, d, i);
        lemma_concat4_index(a, b, c, d, j);
    }
    assert forall|currency: Seq<char>, foil: bool|
        (currency == "usd"@ || currency == "eur"@) && #[trigger] positive(
            scryfall_amount(p, currency, foil),
        ) is Some implies exists|i: int| 0 <= i < v.len() && #[trigger] v[i].currency == currency
        && v[i].foil == foil by {
        if currency == "usd"@ && !foil {
            assert(v[0].currency == currency && v[0].foil == foil);
        } else if currency == "usd"@ {
            let k = a.len() as int;
            assert(v[k] == b[0]);
        } else if !foil {
            let k = (a.len() + b.len()) as int;
            assert(v[k] == c[0]);
        } else {
            let k = (a.len() + b.len() + c.len()) as int;
            assert(v[k] == d[0]);
        }
    }
}

/// Where element `i` of four concatenated price lists (each of at most one
/// record) comes from.
proof fn lemma_concat4_index(
    a: Seq<PriceView>,
    b: Seq<PriceView>,
    c: Seq<PriceView>,
    d: Seq<PriceView>,
    i: int,
)
    requires
        0 <= i < (a + b + c + d).len(),
    ensures
        i < a.len() ==> (a + b + c + d)[i] == a[i],
        a.len() <= i < a.len() + b.len() ==> (a + b + c + d)[i] == b[i - a.len()],
        a.len() + b.len() <= i < a.len() + b.len() + c.len() ==> (a + b + c + d)[i] == c[i
            - a.len() - b.len()],
        a.len() + b.len() + c.len() <= i ==> (a + b + c + d)[i] == d[i - a.len() - b.len()
            - c.len()],
{
}

/// Appends the price record an amount yields, if any.
pub fn push_price(
    prices: &mut Vec<Price>,
    game: Game,
    card_id: &CardId,
    currency: &str,
    source: &str,
    cents: Option<u64>,
    foil: bool,
)
    ensures
        price_views(final(prices)@) == price_views(old(prices)@) + price_entry(
            game,
            card_id.0@,
            currency@,
            source@,
            cents,
            foil,
        ),
{
    let ghost before = prices@;
    if let Some(c) = positive_cents(cents) {
        prices.push(
            Price {
                game,
                card_id: card_id.duplicate(),
                currency: copy_str(currency),
                source: copy_str(source),
                cents: c,
                foil,
                fetched_at: String::new(),
            },
        );
        assert(prices@.drop_last() =~= before);
    }
    assert(price_views(prices@) =~= price_views(before) + price_entry(
        game,
        card_id.0@,
        currency@,
        source@,
        cents,
        foil,
    ));
}

impl ScryfallCard {
    /// The catalog card and the positive prices of a Scryfall response.
    pub fn into_card_and_prices(self) -> (r: (Card, Vec<Price>))
        ensures
            r.0.game == Game::Mtg,
            r.0.id.0@ == self.id@,
            r.0.name == self.name,
            r.0.set_code == self.set,
            r.0.set_name == self.set_name,
            r.0.collector_number == self.collector_number,
            r.0.image_url == scryfall_image(self.image_uris),
            r.0.rarity == self.rarity,
            price_views(r.1@) == scryfall_price_views(self.id@, self.prices),
    {
        let card_id = CardId(self.id);
        let mut prices: Vec<Price> = Vec::new();
        match &self.prices {
            Some(p) => {
                push_price(&mut prices, Game::Mtg, &card_id, "usd", "scryfall", p.usd, false);
                push_price(&mut prices, Game::Mtg, &card_id, "usd", "scryfall", p.usd_foil, true);
                push_price(&mut prices, Game::Mtg, &card_id, "eur", "scryfall", p.eur, false);
                push_price(&mut prices, Game::Mtg, &card_id, "eur", "scryfall", p.eur_foil, true);
            },
            None => {},
        }
        assert(price_views(prices@) =~= scryfall_price_views(card_id.0@, self.prices));
        let image_url = match self.image_uris {
            Some(u) => or_string(u.small, u.normal),
            None => None,
        };
        let card = Card {
            game: Game::Mtg,
            id: card_id,
            name: self.name,
            set_code: self.set,
            set_name: self.set_name,
            collector_number: self.collector_number,
            image_url,
            rarity: self.rarity,
        };
        (card, prices)
    }
}

} // verus!
