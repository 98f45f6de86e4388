//! User settings — key naming and the secret-store abstraction.
//!
//! Non-secret key/value pairs live in the SQLite `settings` table (read and
//! written by the application shell). Secrets — right now only the Pokémon
//! TCG API key — live behind [`SecretStore`]: the OS keychain in production,
//! [`InMemorySecrets`] in tests.

use vstd::prelude::*;

use crate::domain::{Error, Result};
use crate::text::{copy_str, copy_string, push_str, str_eq, trim, trim_str};

verus! {

/// Secret-store key for the Pokémon TCG API key.
pub const PTCGAPI_KEY: &'static str = "ptcgapi.key";

/// The settings key under which a game's last import time is stored.
pub open spec fn last_imported_at_key_spec(game_slug: Seq<char>) -> Seq<char> {
    "catalog.last_imported_at."@ + game_slug
}

/// Settings-table key for the timestamp of the last successful catalog import
/// (ISO 8601). One entry per game: `catalog.last_imported_at.{slug}`.
pub fn last_imported_at_key(game_slug: &str) -> (r: String)
    ensures
        r@ == last_imported_at_key_spec(game_slug@),
{
    let mut s = copy_str("catalog.last_imported_at.");
    push_str(&mut s, game_slug);
    s
}

// ---------- secret store abstraction ----------

/// A place to stash a secret, keyed by string.
///
/// `secrets` is the store's contents as a map from key to secret.
/// A backend may fail (`Err`); `Ok(None)` from `get` means "no such entry".
/// `never_fails` holds of a store whose operations always succeed (one kept
/// in memory); a store backed by an outside service may fail at any call.
pub trait SecretStore {
    spec fn secrets(&self) -> Map<Seq<char>, Seq<char>>;

    spec fn never_fails(&self) -> bool;

    fn get(&self, key: &str) -> (r: Result<Option<String>>)
        ensures
            self.never_fails() ==> r is Ok,
            r matches Ok(v) ==> (v is Some <==> self.secrets().contains_key(key@)),
            r matches Ok(Some(v)) ==> v@ == self.secrets()[key@];

    fn set(&mut self, key: &str, value: &str) -> (r: Result<()>)
        ensures
            old(self).never_fails() ==> r is Ok && final(self).never_fails(),
            r is Ok ==> final(self).secrets() == old(self).secrets().insert(key@, value@);

    fn delete(&mut self, key: &str) -> (r: Result<()>)
        ensures
            old(self).never_fails() ==> r is Ok && final(self).never_fails(),
            r is Ok ==> final(self).secrets() == old(self).secrets().remove(key@);
}

/// OS-keychain-backed secret store, namespaced under one service name.
/// The keychain access itself is done by the application shell.
pub struct KeyringSecrets {
    service: String,
}

impl KeyringSecrets {
    pub fn new() -> (r: Self)
        ensures
            r.service_spec() == "binderbase"@,
    {
        KeyringSecrets { service: copy_str("binderbase") }
    }

    /// Constructor with a custom service name so two parallel test processes
    /// don't fight over the same keychain entry.
    pub fn with_service(service: String) -> (r: Self)
        ensures
            r.service_spec() == service@,
    {
        KeyringSecrets { service }
    }

    pub closed spec fn service_spec(&self) -> Seq<char> {
        self.service@
    }

    /// The keychain service name.
    pub fn service(&self) -> (r: &String)
        ensures
            r@ == self.service_spec(),
    {
        &self.service
    }
}

/// The map that a list of `(key, value)` entries denotes; later entries win.
pub open spec fn entries_map(s: Seq<(String, String)>) -> Map<Seq<char>, Seq<char>>
    decreases s.len(),
{
    if s.len() == 0 {
        Map::empty()
    } else {
        entries_map(s.drop_last()).insert(s.last().0@, s.last().1@)
    }
}

/// In-memory secret store (tests, and fallback when no keychain exists).
pub struct InMemorySecrets {
    entries: Vec<(String, String)>,
}

impl InMemorySecrets {
    pub fn new() -> (r: Self)
        ensures
            r.secrets() == Map::<Seq<char>, Seq<char>>::empty(),
    {
        InMemorySecrets { entries: Vec::new() }
    }

    /// Entries of `self.entries` whose key differs from `key`, in order.
    fn without_key(&self, key: &str) -> (r: Vec<(String, String)>)
        ensures
            entries_map(r@) == entries_map(self.entries@).remove(key@),
    {
        let mut out: Vec<(String, String)> = Vec::new();
        let mut i: usize = 0;
        while i < self.entries.len()
            invariant
                i <= self.entries@.len(),
                entries_map(out@) == entries_map(self.entries@.take(i as int)).remove(key@),
            decreases self.entries@.len() - i,
        {
            let ghost prev = self.entries@.take(i as int);
            assert(self.entries@.take(i + 1).drop_last() =~= prev);
            let k = &self.entries[i].0;
            if !str_eq(k.as_str(), key) {
                let v = &self.entries[i].1;
                let ghost before = out@;
                out.push((copy_string(k), copy_string(v)));
                assert(out@.drop_last() =~= before);
                assert(entries_map(out@) =~= entries_map(self.entries@.take(i + 1)).remove(
                    key@,
                ));
            } else {
                assert(entries_map(out@) =~= entries_map(self.entries@.take(i + 1)).remove(
                    key@,
                ));
            }
            i = i + 1;
        }
        assert(self.entries@.take(self.entries@.len() as int) =~= self.entries@);
        out
    }
}

impl SecretStore for InMemorySecrets {
    closed spec fn secrets(&self) -> Map<Seq<char>, Seq<char>> {
        entries_map(self.entries@)
    }

    /// An in-memory store never fails.
    open spec fn never_fails(&self) -> bool {
        true
    }

    fn get(&self, key: &str) -> (r: Result<Option<String>>)
        ensures
            r is Ok,
    {
        let mut i: usize = self.entries.len();
        assert(self.entries@.take(i as int) =~= self.entries@);
        while i > 0
            invariant
                i <= self.entries@.len(),
                entries_map(self.entries@).contains_key(key@) == entries_map(
                    self.entries@.take(i as int),
                ).contains_key(key@),
                entries_map(self.entries@).contains_key(key@) ==> entries_map(self.entries@)[key@]
                    == entries_map(self.entries@.take(i as int))[key@],
            decreases i,
        {
            let ghost prev = self.entries@.take(i - 1);
            assert(self.entries@.take(i as int).drop_last() =~= prev);
            if str_eq(self.entries[i - 1].0.as_str(), key) {
                return Ok(Some(copy_string(&self.entries[i - 1].1)));
            }
            i = i - 1;
        }
        assert(self.entries@.take(0) =~= Seq::<(String, String)>::empty());
        Ok(None)
    }

    fn set(&mut self, key: &str, value: &str) -> (r: Result<()>)
        ensures
            r is Ok,
    {
        let mut kept = self.without_key(key);
        let ghost before = kept@;
        kept.push((copy_str(key), copy_str(value)));
        assert(kept@.drop_last() =~= before);
        self.entries = kept;
        assert(entries_map(self.entries@) =~= entries_map(old(self).entries@).insert(
            key@,
            value@,
        ));
        Ok(())
    }

    fn delete(&mut self, key: &str) -> (r: Result<()>)
        ensures
            r is Ok,
    {
        let kept = self.without_key(key);
        self.entries = kept;
        Ok(())
    }
}

// ---------- typed PTCGAPI-key helpers ----------

/// The secret map after `set_ptcgapi_key(value)` succeeds: the trimmed value is
/// stored, or the key is removed when nothing but whitespace was given.
pub open spec fn after_set_ptcgapi_key(
    m: Map<Seq<char>, Seq<char>>,
    value: Seq<char>,
) -> Map<Seq<char>, Seq<char>> {
    if trim(value).len() == 0 {
        m.remove(PTCGAPI_KEY@)
    } else {
        m.insert(PTCGAPI_KEY@, trim(value))
    }
}

/// Retrieve the Pokémon TCG API key, if the user has set one.
/// It fails only where the store fails.
pub fn get_ptcgapi_key<S: SecretStore>(store: &S) -> (r: Result<Option<String>>)
    ensures
        store.never_fails() ==> r is Ok,
        r matches Ok(v) ==> (v is Some <==> store.secrets().contains_key(PTCGAPI_KEY@)),
        r matches Ok(Some(v)) ==> v@ == store.secrets()[PTCGAPI_KEY@],
{
    store.get(PTCGAPI_KEY)
}

/// What storing `value` as the Pokémon TCG API key writes: the trimmed
/// value, or nothing (a delete) when only whitespace was given. Stores the
/// library cannot hold, such as the OS keychain, apply this plan themselves.
pub fn ptcgapi_key_write(value: &str) -> (r: Option<String>)
    ensures
        r is None <==> trim(value@).len() == 0,
        r matches Some(s) ==> s@ == trim(value@),
{
    let trimmed = trim_str(value);
    if trimmed.unicode_len() == 0 {
        None
    } else {
        Some(trimmed)
    }
}

/// Store the Pokémon TCG API key, trimmed. An empty (or all-whitespace)
/// value is treated as a delete. It fails only where the store fails.
pub fn set_ptcgapi_key<S: SecretStore>(store: &mut S, value: &str) -> (r: Result<()>)
    ensures
        old(store).never_fails() ==> r is Ok && final(store).never_fails(),
        r is Ok ==> final(store).secrets() == after_set_ptcgapi_key(old(store).secrets(), value@),
{
    match ptcgapi_key_write(value) {
        None => store.delete(PTCGAPI_KEY),
        Some(trimmed) => store.set(PTCGAPI_KEY, trimmed.as_str()),
    }
}

/// Reading the key back after a successful `set_ptcgapi_key` gives the
/// trimmed value, or nothing when the value was empty or whitespace.
pub proof fn lemma_ptcgapi_key_round_trip(m: Map<Seq<char>, Seq<char>>, value: Seq<char>)
    ensures
        trim(value).len() == 0 ==> !after_set_ptcgapi_key(m, value).contains_key(PTCGAPI_KEY@),
        trim(value).len() > 0 ==> after_set_ptcgapi_key(m, value).contains_key(PTCGAPI_KEY@)
            && after_set_ptcgapi_key(m, value)[PTCGAPI_KEY@] == trim(value),
        forall|k: Seq<char>|
            k != PTCGAPI_KEY@ ==> (after_set_ptcgapi_key(m, value).contains_key(k)
                == m.contains_key(k)),
{
}

/// A secret store is a map from key to secret: reading after a successful
/// `set` gives the value written, reading after a successful `delete` gives
/// nothing, deleting twice is the same as deleting once, and other keys are
/// untouched by either.
pub proof fn lemma_secret_store_map_laws(
    m: Map<Seq<char>, Seq<char>>,
    key: Seq<char>,
    value: Seq<char>,
    other: Seq<char>,
)
    ensures
        m.insert(key, value).contains_key(key) && m.insert(key, value)[key] == value,
        !m.remove(key).contains_key(key),
        m.remove(key).remove(key) == m.remove(key),
        other != key ==> (m.insert(key, value).contains_key(other) == m.contains_key(other)
            && m.remove(key).contains_key(other) == m.contains_key(other)),
        other != key && m.contains_key(other) ==> m.insert(key, value)[other] == m[other]
            && m.remove(key)[other] == m[other],
{
    assert(m.remove(key).remove(key) =~= m.remove(key));
}

} // verus!
