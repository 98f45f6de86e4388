use binderbase::catalog::{game_from_stored_slug, search_pattern};
use binderbase::collection::{
    condition_from_code, entry_from_row, new_collection_entry, removal_result, NewEntry,
    StoredEntryRow,
};
use binderbase::commands::{app_info, distinct_cards, effective_search_limit};
use binderbase::domain::{CardCondition, CardId, Error, Game};
use binderbase::games::{describe, urlencode};
use binderbase::storage::{plan_migrations, Database, SCHEMA_VERSION};
use binderbase::text::{decimal_string, parse_u32, parse_u64, trim_str};

#[test]
fn game_slugs_round_trip() {
    for g in Game::all() {
        assert_eq!(Game::from_slug(g.slug()), Some(g));
    }
    assert_eq!(Game::from_slug("magic"), None);
    assert_eq!(Game::from_slug("MTG"), None);
    assert_eq!(Game::Pokemon.display_name(), "Pokémon TCG");
    assert_eq!(Game::Mtg.display_name(), "Magic: The Gathering");
}

#[test]
fn condition_codes_round_trip() {
    for c in [
        CardCondition::NearMint,
        CardCondition::LightlyPlayed,
        CardCondition::ModeratelyPlayed,
        CardCondition::HeavilyPlayed,
        CardCondition::Damaged,
    ] {
        assert_eq!(condition_from_code(c.code()), c);
    }
    assert_eq!(CardCondition::Damaged.code(), "DMG");
    assert_eq!(condition_from_code("??"), CardCondition::NearMint);
}

#[test]
fn error_kinds_and_texts() {
    let e = Error::CardNotFound("x".into());
    assert_eq!(e.kind(), "card_not_found");
    assert_eq!(e.to_string(), "card not found: x");
    let e = Error::Storage("disk".into());
    assert_eq!((e.kind(), e.to_string().as_str()), ("storage", "storage error: disk"));
    let e = Error::InputTooLarge { message: "m".into(), limit: "1".into(), actual: "2".into() };
    assert_eq!(e.kind(), "input_too_large");
}

#[test]
fn describe_names_sources() {
    let d = describe(Game::Mtg);
    assert_eq!(d.data_source, "Scryfall (api.scryfall.com)");
    assert_eq!(d.pricing_source, Some("Scryfall bulk prices"));
    assert_eq!(describe(Game::Pokemon).game, Game::Pokemon);
}

#[test]
fn urlencode_escapes_slashes_only() {
    assert_eq!(urlencode("a/b/c"), "a%2Fb%2Fc");
    assert_eq!(urlencode("swsh4-25"), "swsh4-25");
}

#[test]
fn search_pattern_rules() {
    assert!(matches!(search_pattern("", 10), Ok(None)));
    assert!(matches!(search_pattern("   ", 10), Ok(None)));
    assert!(matches!(search_pattern("x", 0), Err(Error::InvalidInput(_))));
    assert_eq!(search_pattern("  lotus ", 10).unwrap().unwrap(), "%lotus%");
    assert_eq!(search_pattern("50%", 10).unwrap().unwrap(), "%50\\%%");
    assert_eq!(search_pattern("a_b\\c", 1).unwrap().unwrap(), "%a\\_b\\\\c%");
}

#[test]
fn stored_game_falls_back_to_mtg() {
    assert_eq!(game_from_stored_slug("pokemon"), Game::Pokemon);
    assert_eq!(game_from_stored_slug("yugioh"), Game::Mtg);
}

#[test]
fn numbers_parse_like_std() {
    for s in ["0", "42", "+7", "4294967295", "4294967296", "", "+", "-1", " 1", "1a", "007"] {
        assert_eq!(parse_u32(s), s.parse::<u32>().ok(), "input {s:?}");
    }
    for s in ["18446744073709551615", "18446744073709551616", "50"] {
        assert_eq!(parse_u64(s), s.parse::<u64>().ok(), "input {s:?}");
    }
    assert_eq!(decimal_string(0), "0");
    assert_eq!(decimal_string(10485760), "10485760");
    assert_eq!(trim_str("\u{2003} x y \r\n"), "x y");
}

#[test]
fn new_entries_need_a_positive_quantity() {
    let entry = |quantity| NewEntry {
        game: Game::Mtg,
        card_id: CardId("abc".into()),
        condition: CardCondition::LightlyPlayed,
        foil: true,
        quantity,
        notes: Some("n".into()),
        acquired_at: None,
        acquired_price_cents: Some(5),
    };
    let err = new_collection_entry(entry(0)).unwrap_err();
    assert!(matches!(err, Error::InvalidInput(ref m) if m == "quantity must be > 0"));
    let e = new_collection_entry(entry(3)).unwrap();
    assert_eq!(e.entry_id.len(), 36);
    assert_eq!(e.entry_id.chars().nth(14), Some('4'));
    assert_eq!((e.quantity, e.foil, e.card_id.0.as_str()), (3, true, "abc"));
    let other = new_collection_entry(entry(3)).unwrap();
    assert_ne!(e.entry_id, other.entry_id);
}

#[test]
fn removing_a_missing_entry_is_not_found() {
    assert!(removal_result(1, "e1").is_ok());
    let err = removal_result(0, "e1").unwrap_err();
    assert_eq!(err.to_string(), "card not found: entry e1");
}

#[test]
fn stored_rows_decode_defensively() {
    let e = entry_from_row(StoredEntryRow {
        entry_id: "id".into(),
        game: "???".into(),
        card_id: "c".into(),
        condition: "LP".into(),
        foil: 2,
        quantity: 4,
        notes: None,
        acquired_at: Some("2024-01-01".into()),
        acquired_price_cents: Some(-3),
    });
    assert_eq!(e.game, Game::Mtg);
    assert_eq!(e.condition, CardCondition::LightlyPlayed);
    assert!(e.foil);
    assert_eq!(e.quantity, 4);
    assert_eq!(e.acquired_price_cents, Some(0));
}

#[test]
fn rejects_schema_newer_than_code() {
    assert!(plan_migrations(SCHEMA_VERSION).unwrap().is_empty());
    let msg = plan_migrations(SCHEMA_VERSION + 1).unwrap_err().to_string();
    assert!(
        msg.contains("newer than this build"),
        "expected version-mismatch error, got: {msg}"
    );
    assert!(msg.contains("(4)") && msg.contains("(3)"));
}

#[test]
fn fresh_database_plans_every_migration_up_to_the_latest() {
    assert_eq!(plan_migrations(0).unwrap(), vec![1, 2, 3]);
    assert_eq!(plan_migrations(1).unwrap(), vec![2, 3]);
    assert_eq!(plan_migrations(2).unwrap(), vec![3]);
    assert_eq!(*plan_migrations(0).unwrap().last().unwrap(), SCHEMA_VERSION);
}

#[test]
fn database_keeps_its_path() {
    assert_eq!(Database::at("/tmp/x.sqlite3".to_string()).path(), "/tmp/x.sqlite3");
}

#[test]
fn search_limit_defaults_and_clamps() {
    assert_eq!(effective_search_limit(None), 25);
    assert_eq!(effective_search_limit(Some(10)), 10);
    assert_eq!(effective_search_limit(Some(5000)), 200);
}

#[test]
fn app_info_lists_every_game() {
    let info = app_info("1.0.0", "/db".to_string());
    assert_eq!(info.name, "Binderbase");
    let games: Vec<Game> = info.supported_games.iter().map(|d| d.game).collect();
    assert_eq!(games, vec![Game::Mtg, Game::Pokemon]);
}

#[test]
fn distinct_cards_keeps_first_occurrences() {
    let entry = |game, id: &str| {
        binderbase::collection::CollectionEntry {
            entry_id: "e".into(),
            game,
            card_id: CardId(id.into()),
            condition: CardCondition::NearMint,
            foil: false,
            quantity: 1,
            notes: None,
            acquired_at: None,
            acquired_price_cents: None,
        }
    };
    let entries = vec![
        entry(Game::Mtg, "a"),
        entry(Game::Pokemon, "a"),
        entry(Game::Mtg, "a"),
        entry(Game::Mtg, "b"),
    ];
    let d = distinct_cards(&entries);
    let keys: Vec<(Game, &str)> = d.iter().map(|(g, id)| (*g, id.0.as_str())).collect();
    assert_eq!(keys, vec![(Game::Mtg, "a"), (Game::Pokemon, "a"), (Game::Mtg, "b")]);
}
