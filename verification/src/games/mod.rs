//! Per-game adapters: where each game's data and prices come from, and how
//! their API responses become catalog cards and prices.

pub mod mtg;
pub mod pokemon;

use vstd::prelude::*;

use crate::domain::Game;
use crate::text::push_char;

verus! {

/// Machine-readable description of a game's data and pricing sources.
#[derive(Debug, Clone)]
pub struct GameDescriptor {
    pub game: Game,
    pub data_source: &'static str,
    pub pricing_source: Option<&'static str>,
}

pub fn describe(game: Game) -> (r: GameDescriptor)
    ensures
        r.game == game,
        r.data_source@ == (match game {
            Game::Mtg => "Scryfall (api.scryfall.com)"@,
            Game::Pokemon => "Pokémon TCG API (api.pokemontcg.io)"@,
        }),
        r.pricing_source matches Some(p) && p@ == (match game {
            Game::Mtg => "Scryfall bulk prices"@,
            Game::Pokemon => "Pokémon TCG API prices (TCGplayer-derived)"@,
        }),
{
    match game {
        Game::Mtg => GameDescriptor {
            game,
            data_source: "Scryfall (api.scryfall.com)",
            pricing_source: Some("Scryfall bulk prices"),
        },
        Game::Pokemon => GameDescriptor {
            game,
            data_source: "Pokémon TCG API (api.pokemontcg.io)",
            pricing_source: Some("Pokémon TCG API prices (TCGplayer-derived)"),
        },
    }
}

/// How one character of an id is written in a URL path: `/` is
/// percent-encoded, everything else is kept.
pub open spec fn url_path_char(c: char) -> Seq<char> {
    if c == '/' {
        seq!['%', '2', 'F']
    } else {
        seq![c]
    }
}

/// `s` with every `/` replaced by `%2F`.
pub open spec fn url_path_escape(s: Seq<char>) -> Seq<char>
    decreases s.len(),
{
    if s.len() == 0 {
        Seq::empty()
    } else {
        url_path_escape(s.drop_last()) + url_path_char(s.last())
    }
}

/// Appends `s` to `out` with every `/` replaced by `%2F` (ids are used as a
/// URL path segment).
pub fn push_urlencoded(out: &mut String, s: &str)
    ensures
        final(out)@ == old(out)@ + url_path_escape(s@),
{
    let cs = crate::text::chars_of(s);
    let mut i: usize = 0;
    while i < cs.len()
        invariant
            cs@ == s@,
            i <= cs@.len(),
            out@ == old(out)@ + url_path_escape(cs@.subrange(0, i as int)),
        decreases cs@.len() - i,
    {
        let c = cs[i];
        if c == '/' {
            push_char(out, '%');
            push_char(out, '2');
            push_char(out, 'F');
        } else {
            push_char(out, c);
        }
        assert(cs@.subrange(0, i + 1).drop_last() =~= cs@.subrange(0, i as int));
        assert(out@ =~= old(out)@ + url_path_escape(cs@.subrange(0, i + 1)));
        i = i + 1;
    }
    assert(cs@.subrange(0, cs@.len() as int) =~= cs@);
}

/// `s` with every `/` replaced by `%2F`.
pub fn urlencode(s: &str) -> (r: String)
    ensures
        r@ == url_path_escape(s@),
{
    let mut out = String::new();
    push_urlencoded(&mut out, s);
    assert(out@ =~= url_path_escape(s@));
    out
}

} // verus!
