//! Game-agnostic domain types shared by the catalog, collection, scanning,
//! and pricing subsystems.

use vstd::prelude::*;

use crate::text::str_eq;

verus! {

/// The trading-card games Binderbase supports.
///
/// Add new games here; then add a matching module under `games`.
#[derive(Debug, Clone, Copy, PartialEq, Eq, Structural, Hash)]
pub enum Game {
    Mtg,
    Pokemon,
}

/// The slug under which a game is stored and addressed.
pub open spec fn game_slug(g: Game) -> Seq<char> {
    match g {
        Game::Mtg => "mtg"@,
        Game::Pokemon => "pokemon"@,
    }
}

/// The human-readable name of a game.
pub open spec fn game_display_name(g: Game) -> Seq<char> {
    match g {
        Game::Mtg => "Magic: The Gathering"@,
        Game::Pokemon => "Pokémon TCG"@,
    }
}

/// The game a slug names, if any.
pub open spec fn game_from_slug(s: Seq<char>) -> Option<Game> {
    if s == "mtg"@ {
        Some(Game::Mtg)
    } else if s == "pokemon"@ {
        Some(Game::Pokemon)
    } else {
        None
    }
}

impl Game {
    /// Every supported game, in declaration order.
    pub fn all() -> (r: Vec<Game>)
        ensures
            r@ == seq![Game::Mtg, Game::Pokemon],
    {
        vec![Game::Mtg, Game::Pokemon]
    }

    pub fn slug(self) -> (r: &'static str)
        ensures
            r@ == game_slug(self),
    {
        match self {
            Game::Mtg => "mtg",
            Game::Pokemon => "pokemon",
        }
    }

    pub fn display_name(self) -> (r: &'static str)
        ensures
            r@ == game_display_name(self),
    {
        match self {
            Game::Mtg => "Magic: The Gathering",
            Game::Pokemon => "Pokémon TCG",
        }
    }

    pub fn from_slug(s: &str) -> (r: Option<Game>)
        ensures
            r == game_from_slug(s@),
    {
        if str_eq(s, "mtg") {
            Some(Game::Mtg)
        } else if str_eq(s, "pokemon") {
            Some(Game::Pokemon)
        } else {
            None
        }
    }
}

/// A game's slug reads back as the same game, and distinct games have
/// distinct slugs.
pub proof fn lemma_slug_round_trip(g: Game)
    ensures
        game_from_slug(game_slug(g)) == Some(g),
        forall|h: Game| game_slug(h) == game_slug(g) ==> h == g,
{
    reveal_strlit("mtg");
    reveal_strlit("pokemon");
    assert("mtg"@ != "pokemon"@) by {
        assert("mtg"@.len() != "pokemon"@.len());
    }
}

/// Binderbase's internal card identifier (Scryfall id for MTG, Pokémon TCG
/// API id for Pokémon).
#[derive(Debug, Clone, PartialEq, Eq, Hash)]
pub struct CardId(pub String);

impl CardId {
    /// A copy of this identifier.
    pub fn duplicate(&self) -> (r: CardId)
        ensures
            r.0@ == self.0@,
    {
        CardId(self.0.clone())
    }

    /// The identifier's text.
    pub fn as_str(&self) -> (r: &str)
        ensures
            r@ == self.0@,
    {
        self.0.as_str()
    }
}

/// A specific printing of a card (set + collector number).
#[derive(Debug, Clone, PartialEq, Eq, Hash)]
pub struct PrintingId(pub String);

/// Canonical card-condition grades (TCGplayer vocabulary).
#[derive(Debug, Clone, Copy, PartialEq, Eq, Structural)]
pub enum CardCondition {
    NearMint,
    LightlyPlayed,
    ModeratelyPlayed,
    HeavilyPlayed,
    Damaged,
}

/// The short code under which a condition is stored and exported.
pub open spec fn condition_code(c: CardCondition) -> Seq<char> {
    match c {
        CardCondition::NearMint => "NM"@,
        CardCondition::LightlyPlayed => "LP"@,
        CardCondition::ModeratelyPlayed => "MP"@,
        CardCondition::HeavilyPlayed => "HP"@,
        CardCondition::Damaged => "DMG"@,
    }
}

impl CardCondition {
    pub fn code(self) -> (r: &'static str)
        ensures
            r@ == condition_code(self),
    {
        match self {
            CardCondition::NearMint => "NM",
            CardCondition::LightlyPlayed => "LP",
            CardCondition::ModeratelyPlayed => "MP",
            CardCondition::HeavilyPlayed => "HP",
            CardCondition::Damaged => "DMG",
        }
    }
}

/// Distinct conditions have distinct codes.
pub proof fn lemma_condition_codes_distinct(a: CardCondition, b: CardCondition)
    ensures
        condition_code(a) == condition_code(b) ==> a == b,
{
    reveal_strlit("NM");
    reveal_strlit("LP");
    reveal_strlit("MP");
    reveal_strlit("HP");
    reveal_strlit("DMG");
    if condition_code(a) == condition_code(b) {
        let s = condition_code(a);
        assert(s[0] == condition_code(b)[0]);
    }
}

/// Shared card shape across games.
#[derive(Debug, Clone, PartialEq, Eq)]
pub struct Card {
    pub game: Game,
    pub id: CardId,
    pub name: String,
    pub set_code: String,
    pub set_name: String,
    pub collector_number: String,
    /// Small thumbnail image URL (CDN).
    pub image_url: Option<String>,
    /// Optional rarity string — content is game-defined.
    pub rarity: Option<String>,
}

} // verus!
