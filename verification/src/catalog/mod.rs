//! Local catalog — the rules around the `cards` table.
//!
//! The SQL itself runs in the application shell; this module decides what a
//! name search asks for and how stored rows read back.

pub mod bulk;

use vstd::prelude::*;

use crate::domain::types::game_from_slug;
use crate::domain::{Error, Game, Result};
use crate::text::{chars_of, copy_str, push_char, trim, trim_bounds};

verus! {

/// A game slug read back from a row; unknown slugs fall back to MTG rather
/// than failing (the schema's foreign key should prevent them).
pub open spec fn stored_game(slug: Seq<char>) -> Game {
    match game_from_slug(slug) {
        Some(g) => g,
        None => Game::Mtg,
    }
}

pub fn game_from_stored_slug(slug: &str) -> (r: Game)
    ensures
        r == stored_game(slug@),
{
    match Game::from_slug(slug) {
        Some(g) => g,
        None => Game::Mtg,
    }
}

/// How one character is written inside a `LIKE` pattern whose escape
/// character is `\`: the metacharacters `\`, `%` and `_` are escaped.
pub open spec fn like_escape_char(c: char) -> Seq<char> {
    if c == '\\' {
        seq!['\\', '\\']
    } else if c == '%' {
        seq!['\\', '%']
    } else if c == '_' {
        seq!['\\', '_']
    } else {
        seq![c]
    }
}

/// `s` with every `LIKE` metacharacter escaped, so it matches literally.
pub open spec fn like_escape(s: Seq<char>) -> Seq<char>
    decreases s.len(),
{
    if s.len() == 0 {
        Seq::empty()
    } else {
        like_escape(s.drop_last()) + like_escape_char(s.last())
    }
}

/// The `LIKE` pattern of a substring search for `q`.
pub open spec fn substring_pattern(q: Seq<char>) -> Seq<char> {
    seq!['%'] + like_escape(q) + seq!['%']
}

/// Plans a case-insensitive substring search of card names.
///
/// An empty or whitespace-only query searches nothing (`Ok(None)`): the
/// autocomplete calls this on every keystroke. Otherwise a zero `limit` is
/// invalid input, and the result is the `LIKE` pattern for the trimmed query.
pub fn search_pattern(query: &str, limit: u32) -> (r: Result<Option<String>>)
    ensures
        trim(query@).len() == 0 ==> (r matches Ok(None)),
        trim(query@).len() > 0 && limit == 0 ==> (r matches Err(Error::InvalidInput(m)) && m@
            == "limit must be > 0"@),
        trim(query@).len() > 0 && limit > 0 ==> (r matches Ok(Some(p)) && p@ == substring_pattern(
            trim(query@),
        )),
{
    let cs = chars_of(query);
    let (lo, hi) = trim_bounds(&cs);
    if lo == hi {
        return Ok(None);
    }
    if limit == 0 {
        return Err(Error::InvalidInput(copy_str("limit must be > 0")));
    }
    let ghost q = cs@.subrange(lo as int, hi as int);
    let mut p = String::new();
    push_char(&mut p, '%');
    let mut i = lo;
    while i < hi
        invariant
            lo <= i <= hi,
            hi <= cs@.len(),
            q == cs@.subrange(lo as int, hi as int),
            p@ == seq!['%'] + like_escape(cs@.subrange(lo as int, i as int)),
        decreases hi - i,
    {
        let c = cs[i];
        if c == '\\' {
            push_char(&mut p, '\\');
            push_char(&mut p, '\\');
        } else if c == '%' {
            push_char(&mut p, '\\');
            push_char(&mut p, '%');
        } else if c == '_' {
            push_char(&mut p, '\\');
            push_char(&mut p, '_');
        } else {
            push_char(&mut p, c);
        }
        assert(cs@.subrange(lo as int, i + 1).drop_last() =~= cs@.subrange(lo as int, i as int));
        assert(p@ =~= seq!['%'] + like_escape(cs@.subrange(lo as int, i + 1)));
        i = i + 1;
    }
    push_char(&mut p, '%');
    assert(p@ =~= substring_pattern(q));
    Ok(Some(p))
}

/// `p` is a `LIKE` pattern (escape character `\`) that matches exactly the
/// text `q`: every escaped character stands for itself, and no unescaped
/// wildcard (`%`, `_`) occurs.
pub open spec fn like_literal(p: Seq<char>, q: Seq<char>) -> bool
    decreases p.len(),
{
    if p.len() == 0 {
        q.len() == 0
    } else if p[0] == '\\' {
        &&& p.len() >= 2
        &&& q.len() >= 1
        &&& q[0] == p[1]
        &&& like_literal(p.subrange(2, p.len() as int), q.subrange(1, q.len() as int))
    } else {
        &&& p[0] != '%'
        &&& p[0] != '_'
        &&& q.len() >= 1
        &&& q[0] == p[0]
        &&& like_literal(p.subrange(1, p.len() as int), q.subrange(1, q.len() as int))
    }
}

proof fn lemma_like_literal_concat(a: Seq<char>, b: Seq<char>, c: Seq<char>, d: Seq<char>)
    requires
        like_literal(a, c),
        like_literal(b, d),
    ensures
        like_literal(a + b, c + d),
    decreases a.len(),
{
    if a.len() == 0 {
        assert(c.len() == 0);
        assert(a + b =~= b);
        assert(c + d =~= d);
    } else if a[0] == '\\' {
        let a2 = a.subrange(2, a.len() as int);
        let c1 = c.subrange(1, c.len() as int);
        lemma_like_literal_concat(a2, b, c1, d);
        assert((a + b).subrange(2, (a + b).len() as int) =~= a2 + b);
        assert((c + d).subrange(1, (c + d).len() as int) =~= c1 + d);
    } else {
        let a1 = a.subrange(1, a.len() as int);
        let c1 = c.subrange(1, c.len() as int);
        lemma_like_literal_concat(a1, b, c1, d);
        assert((a + b).subrange(1, (a + b).len() as int) =~= a1 + b);
        assert((c + d).subrange(1, (c + d).len() as int) =~= c1 + d);
    }
}

/// The escaped query matches literally: as a `LIKE` pattern with escape
/// character `\`, `like_escape(q)` stands for exactly the text `q`, so a
/// name search for `q` finds the names that contain `q` itself, whatever
/// `%`, `_` or `\` it holds.
pub proof fn lemma_like_escape_literal(q: Seq<char>)
    ensures
        like_literal(like_escape(q), q),
    decreases q.len(),
{
    if q.len() == 0 {
    } else {
        let init = q.drop_last();
        let c = q.last();
        lemma_like_escape_literal(init);
        let e = like_escape_char(c);
        if c == '\\' || c == '%' || c == '_' {
            assert(e.subrange(2, 2) =~= Seq::<char>::empty());
            assert(seq![c].subrange(1, 1) =~= Seq::<char>::empty());
        } else {
            assert(e.subrange(1, 1) =~= Seq::<char>::empty());
            assert(seq![c].subrange(1, 1) =~= Seq::<char>::empty());
        }
        assert(like_literal(Seq::<char>::empty(), Seq::<char>::empty()));
        assert(like_literal(e, seq![c]));
        lemma_like_literal_concat(like_escape(init), e, init, seq![c]);
        assert(init + seq![c] =~= q);
    }
}

} // verus!
