//! Wire shapes of the bulk catalog sources (Scryfall bulk data and Pokémon
//! TCG API pages) and their conversion into catalog cards. Fetching and JSON
//! decoding happen in the application shell.

use vstd::prelude::*;

use crate::domain::{Card, CardId, Error, Game, Result};
use crate::text::{copy_str, copy_string, str_eq};

verus! {

/// A card as listed in Scryfall's `default_cards` bulk file.
pub struct ScryfallCard {
    pub id: String,
    pub name: String,
    pub set: String,
    pub set_name: String,
    pub collector_number: String,
    pub rarity: Option<String>,
    pub image_uris: Option<ScryfallImageUris>,
}

pub struct ScryfallImageUris {
    pub small: Option<String>,
    pub normal: Option<String>,
}

/// The first of two optional values that is present.
pub open spec fn first_present<T>(a: Option<T>, b: Option<T>) -> Option<T> {
    match a {
        Some(x) => Some(x),
        None => b,
    }
}

/// Option<String>::or.
pub fn or_string(a: Option<String>, b: Option<String>) -> (r: Option<String>)
    ensures
        r == first_present(a, b),
{
    match a {
        Some(x) => Some(x),
        None => b,
    }
}

/// The thumbnail of a Scryfall card: the small image, else the normal one.
pub open spec fn scryfall_image(u: Option<ScryfallImageUris>) -> Option<String> {
    match u {
        Some(u) => first_present(u.small, u.normal),
        None => None,
    }
}

impl ScryfallCard {
    pub fn into_card(self) -> (r: Card)
        ensures
            r == (Card {
                game: Game::Mtg,
                id: CardId(self.id),
                name: self.name,
                set_code: self.set,
                set_name: self.set_name,
                collector_number: self.collector_number,
                image_url: scryfall_image(self.image_uris),
                rarity: self.rarity,
            }),
    {
        let image_url = match self.image_uris {
            Some(u) => or_string(u.small, u.normal),
            None => None,
        };
        Card {
            game: Game::Mtg,
            id: CardId(self.id),
            name: self.name,
            set_code: self.set,
            set_name: self.set_name,
            collector_number: self.collector_number,
            image_url,
            rarity: self.rarity,
        }
    }
}

/// A card as listed on a Pokémon TCG API `/cards` page.
pub struct PtcgCard {
    pub id: String,
    pub name: String,
    pub number: String,
    pub rarity: Option<String>,
    pub set: PtcgSet,
    pub images: Option<PtcgImages>,
}

pub struct PtcgSet {
    pub id: String,
    pub name: String,
}

pub struct PtcgImages {
    pub small: Option<String>,
    pub large: Option<String>,
}

/// The thumbnail of a Pokémon card: the small image, else the large one.
pub open spec fn ptcg_image(i: Option<PtcgImages>) -> Option<String> {
    match i {
        Some(i) => first_present(i.small, i.large),
        None => None,
    }
}

impl PtcgCard {
    pub fn into_card(self) -> (r: Card)
        ensures
            r == (Card {
                game: Game::Pokemon,
                id: CardId(self.id),
                name: self.name,
                set_code: self.set.id,
                set_name: self.set.name,
                collector_number: self.number,
                image_url: ptcg_image(self.images),
                rarity: self.rarity,
            }),
    {
        let image_url = match self.images {
            Some(i) => or_string(i.small, i.large),
            None => None,
        };
        Card {
            game: Game::Pokemon,
            id: CardId(self.id),
            name: self.name,
            set_code: self.set.id,
            set_name: self.set.name,
            collector_number: self.number,
            image_url,
            rarity: self.rarity,
        }
    }
}

/// An entry of Scryfall's bulk-data index.
pub struct ScryfallBulkItem {
    pub kind: String,
    pub download_uri: String,
}

/// The download URI of the `default_cards` bulk file: the first index entry
/// of that kind; an index without one is an internal error.
pub fn default_cards_uri(items: &Vec<ScryfallBulkItem>) -> (r: Result<String>)
    ensures
        (forall|i: int| 0 <= i < items@.len() ==> items@[i].kind@ != "default_cards"@) ==> (r matches Err(
            Error::Internal(m),
        ) && m@ == "no default_cards entry in Scryfall bulk index"@),
        (exists|i: int| 0 <= i < items@.len() && items@[i].kind@ == "default_cards"@) ==> r is Ok,
        r matches Ok(u) ==> exists|i: int|
            0 <= i < items@.len() && items@[i].kind@ == "default_cards"@ && u@
                == items@[i].download_uri@ && forall|j: int|
                0 <= j < i ==> items@[j].kind@ != "default_cards"@,
{
    let mut i: usize = 0;
    while i < items.len()
        invariant
            i <= items@.len(),
            forall|j: int| 0 <= j < i ==> items@[j].kind@ != "default_cards"@,
        decreases items@.len() - i,
    {
        if str_eq(items[i].kind.as_str(), "default_cards") {
            return Ok(copy_string(&items[i].download_uri));
        }
        i = i + 1;
    }
    Err(Error::Internal(copy_str("no default_cards entry in Scryfall bulk index")))
}

} // verus!
