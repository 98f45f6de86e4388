//! Local collection — the user's owned cards (`collection_entries`).
//!
//! The rows are read and written by the application shell; this module holds
//! the validation of new entries and the decoding of stored rows.

pub mod csv;

use vstd::prelude::*;

use crate::catalog::{game_from_stored_slug, stored_game};
use crate::domain::types::condition_code;
use crate::domain::{CardCondition, CardId, Error, Game, Result};
use crate::text::{copy_str, push_str, str_eq};

verus! {

#[derive(Debug, Clone)]
pub struct CollectionEntry {
    pub entry_id: String,
    pub game: Game,
    pub card_id: CardId,
    pub condition: CardCondition,
    pub foil: bool,
    pub quantity: u32,
    pub notes: Option<String>,
    pub acquired_at: Option<String>,
    pub acquired_price_cents: Option<u64>,
}

#[derive(Debug, Clone)]
pub struct NewEntry {
    pub game: Game,
    pub card_id: CardId,
    pub condition: CardCondition,
    pub foil: bool,
    pub quantity: u32,
    pub notes: Option<String>,
    pub acquired_at: Option<String>,
    pub acquired_price_cents: Option<u64>,
}

pub open spec fn is_lower_hex(c: char) -> bool {
    ('0' <= c && c <= '9') || ('a' <= c && c <= 'f')
}

/// The hyphenated lower-case text form of a UUID (8-4-4-4-12 hex digits).
pub open spec fn is_hyphenated_uuid(s: Seq<char>) -> bool {
    &&& s.len() == 36
    &&& forall|i: int|
        0 <= i < 36 ==> if i == 8 || i == 13 || i == 18 || i == 23 {
            s[i] == '-'
        } else {
            is_lower_hex(#[trigger] s[i])
        }
}

/// A fresh random (version 4) UUID as text (`Uuid::new_v4().to_string()`).
/// Trusted: the text is the 36-character hyphenated lower-case form, as the
/// `uuid` crate's `Display` writes it; which UUID is drawn is left open.
/// `new_v4` panics if the operating system's random source fails; no
/// argument leads there (there is none), so no `requires` can exclude it.
/// This is an accepted fault of the environment, like running out of
/// memory, and it is the only way this function does not return.
#[verifier::external_body]
pub(crate) fn new_entry_id() -> (r: String)
    ensures
        is_hyphenated_uuid(r@),
{
    uuid::Uuid::new_v4().to_string()
}

/// The entry that adding `entry` creates: rejected when the quantity is zero,
/// otherwise the same data under a fresh entry id. Drawing the id panics if
/// the operating system's random source fails (see `new_entry_id`).
pub fn new_collection_entry(entry: NewEntry) -> (r: Result<CollectionEntry>)
    ensures
        entry.quantity == 0 ==> (r matches Err(Error::InvalidInput(m)) && m@
            == "quantity must be > 0"@),
        entry.quantity > 0 ==> (r matches Ok(e) && is_hyphenated_uuid(e.entry_id@) && e.game
            == entry.game && e.card_id == entry.card_id && e.condition == entry.condition && e.foil
            == entry.foil && e.quantity == entry.quantity && e.notes == entry.notes
            && e.acquired_at == entry.acquired_at && e.acquired_price_cents
            == entry.acquired_price_cents),
{
    if entry.quantity == 0 {
        return Err(Error::InvalidInput(copy_str("quantity must be > 0")));
    }
    let entry_id = new_entry_id();
    Ok(
        CollectionEntry {
            entry_id,
            game: entry.game,
            card_id: entry.card_id,
            condition: entry.condition,
            foil: entry.foil,
            quantity: entry.quantity,
            notes: entry.notes,
            acquired_at: entry.acquired_at,
            acquired_price_cents: entry.acquired_price_cents,
        },
    )
}

/// The result of removing an entry, given how many rows the delete removed:
/// nothing removed means the entry did not exist.
pub fn removal_result(deleted: usize, entry_id: &str) -> (r: Result<()>)
    ensures
        deleted == 0 ==> (r matches Err(Error::CardNotFound(m)) && m@ == "entry "@ + entry_id@),
        deleted > 0 ==> r is Ok,
{
    if deleted == 0 {
        let mut m = copy_str("entry ");
        push_str(&mut m, entry_id);
        return Err(Error::CardNotFound(m));
    }
    Ok(())
}

/// The condition a stored code denotes; unknown codes read as near mint, the
/// safest default (it never marks a card as damaged by mistake).
pub open spec fn stored_condition(code: Seq<char>) -> CardCondition {
    if code == "NM"@ {
        CardCondition::NearMint
    } else if code == "LP"@ {
        CardCondition::LightlyPlayed
    } else if code == "MP"@ {
        CardCondition::ModeratelyPlayed
    } else if code == "HP"@ {
        CardCondition::HeavilyPlayed
    } else if code == "DMG"@ {
        CardCondition::Damaged
    } else {
        CardCondition::NearMint
    }
}

pub fn condition_from_code(code: &str) -> (r: CardCondition)
    ensures
        r == stored_condition(code@),
{
    if str_eq(code, "NM") {
        CardCondition::NearMint
    } else if str_eq(code, "LP") {
        CardCondition::LightlyPlayed
    } else if str_eq(code, "MP") {
        CardCondition::ModeratelyPlayed
    } else if str_eq(code, "HP") {
        CardCondition::HeavilyPlayed
    } else if str_eq(code, "DMG") {
        CardCondition::Damaged
    } else {
        CardCondition::NearMint
    }
}

/// A stored condition code reads back as the condition that wrote it.
pub proof fn lemma_condition_code_round_trip(c: CardCondition)
    ensures
        stored_condition(condition_code(c)) == c,
{
    reveal_strlit("NM");
    reveal_strlit("LP");
    reveal_strlit("MP");
    reveal_strlit("HP");
    reveal_strlit("DMG");
    assert("NM"@[0] == 'N' && "LP"@[0] == 'L' && "MP"@[0] == 'M' && "HP"@[0] == 'H' && "DMG"@[0]
        == 'D');
}

/// A `collection_entries` row as the database returns it.
pub struct StoredEntryRow {
    pub entry_id: String,
    pub game: String,
    pub card_id: String,
    pub condition: String,
    pub foil: i64,
    pub quantity: i64,
    pub notes: Option<String>,
    pub acquired_at: Option<String>,
    pub acquired_price_cents: Option<i64>,
}

/// A stored price read back: negative values clamp to zero.
pub open spec fn stored_price(v: Option<i64>) -> Option<u64> {
    match v {
        Some(x) => Some(if x < 0 {
            0u64
        } else {
            x as u64
        }),
        None => None,
    }
}

/// Decodes a stored row: unknown games read as MTG, unknown conditions as
/// near mint, any non-zero flag as foil, the quantity truncated to 32 bits,
/// negative prices as zero.
pub fn entry_from_row(row: StoredEntryRow) -> (r: CollectionEntry)
    ensures
        r.entry_id == row.entry_id,
        r.game == stored_game(row.game@),
        r.card_id == CardId(row.card_id),
        r.condition == stored_condition(row.condition@),
        r.foil == (row.foil != 0),
        r.quantity == row.quantity as u32,
        r.notes == row.notes,
        r.acquired_at == row.acquired_at,
        r.acquired_price_cents == stored_price(row.acquired_price_cents),
{
    let game = game_from_stored_slug(row.game.as_str());
    let condition = condition_from_code(row.condition.as_str());
    let price = match row.acquired_price_cents {
        Some(x) => Some(if x < 0 {
            0u64
        } else {
            x as u64
        }),
        None => None,
    };
    CollectionEntry {
        entry_id: row.entry_id,
        game,
        card_id: CardId(row.card_id),
        condition,
        foil: row.foil != 0,
        quantity: row.quantity as u32,
        notes: row.notes,
        acquired_at: row.acquired_at,
        acquired_price_cents: price,
    }
}

} // verus!
