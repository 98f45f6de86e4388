use binderbase::catalog::bulk::http::{PtcgImages, PtcgSet, ScryfallImageUris};
use binderbase::catalog::bulk::{
    import_outcome, pokemon_page_url, ImportProgress, PersistRun, PokemonPager, PtcgCard,
    ScryfallCard, PTCGAPI_PAGE_SIZE,
};
use binderbase::domain::{Card, Error, Game};
use binderbase::games::{mtg, pokemon};

/// Drives a batched write of `cards` into `store`, as the application does
/// with a database: `cancel_after` cancels once that many events were seen.
fn run_persist(
    cards: &[String],
    store: &mut Vec<String>,
    events: &mut Vec<ImportProgress>,
    cancel_after: Option<usize>,
) -> Result<u64, Error> {
    let (mut run, first) = PersistRun::start(Game::Mtg, cards.len());
    events.push(first);
    loop {
        let cancelled = cancel_after.map_or(false, |n| events.len() >= n);
        match run.next_batch(cancelled)? {
            None => return Ok(run.written()),
            Some((start, end)) => {
                store.extend(cards[start..end].iter().cloned());
                events.push(run.batch_written(end));
            }
        }
    }
}

fn ids(n: usize) -> Vec<String> {
    (0..n).map(|i| format!("mtg-{i}")).collect()
}

#[test]
fn bulk_persist_cards_writes_every_card_and_emits_progress() {
    persist_cards_writes_every_card_and_emits_progress();
}

#[test]
fn mod_persist_cards_writes_every_card_and_emits_progress() {
    persist_cards_writes_every_card_and_emits_progress();
}

fn persist_cards_writes_every_card_and_emits_progress() {
    let cards = ids(2500);
    let mut store = Vec::new();
    let mut events = Vec::new();
    let written = run_persist(&cards, &mut store, &mut events, None).unwrap();
    assert_eq!(written, 2500);
    assert_eq!(store.len(), 2500);
    assert_eq!(events.len(), 4, "events: {events:#?}");
    assert_eq!(events.first().unwrap().processed, 0);
    assert_eq!(events.last().unwrap().processed, 2500);
    assert_eq!(events.last().unwrap().total, Some(2500));
    let processed: Vec<u64> = events.iter().map(|e| e.processed).collect();
    assert_eq!(processed, vec![0, 1000, 2000, 2500]);
}

#[test]
fn bulk_persist_cards_aborts_cleanly_when_pre_cancelled() {
    persist_cards_aborts_cleanly_when_pre_cancelled();
}

#[test]
fn mod_persist_cards_aborts_cleanly_when_pre_cancelled() {
    persist_cards_aborts_cleanly_when_pre_cancelled();
}

fn persist_cards_aborts_cleanly_when_pre_cancelled() {
    let cards = ids(2500);
    let mut store = Vec::new();
    let mut events = Vec::new();
    let err = run_persist(&cards, &mut store, &mut events, Some(0)).unwrap_err();
    assert!(matches!(err, Error::Internal(ref m) if m.contains("cancelled")));
    assert_eq!(store.len(), 0);
}

#[test]
fn bulk_persist_cards_preserves_batches_committed_before_mid_run_cancel() {
    persist_cards_preserves_batches_committed_before_mid_run_cancel();
}

#[test]
fn mod_persist_cards_preserves_batches_committed_before_mid_run_cancel() {
    persist_cards_preserves_batches_committed_before_mid_run_cancel();
}

fn persist_cards_preserves_batches_committed_before_mid_run_cancel() {
    let cards = ids(2500);
    let mut store = Vec::new();
    let mut events = Vec::new();
    let err = run_persist(&cards, &mut store, &mut events, Some(2)).unwrap_err();
    assert!(matches!(err, Error::Internal(ref m) if m.contains("cancelled")));
    assert_eq!(
        store.len(),
        1000,
        "first batch should be committed before the mid-run cancel"
    );
}

#[test]
fn persist_of_nothing_never_checks_for_cancellation() {
    let mut store = Vec::new();
    let mut events = Vec::new();
    assert_eq!(run_persist(&[], &mut store, &mut events, Some(0)).unwrap(), 0);
    assert_eq!(events.len(), 1);
}

/// Drives a paginated import over canned pages, as the application does
/// over the network.
fn run_pager(pages: &[usize], total: Option<u64>, cancelled: bool) -> Result<(u64, Vec<u32>), Error> {
    let mut pager = PokemonPager::new();
    let mut fetched = Vec::new();
    loop {
        let page = pager.next_page(cancelled)?;
        fetched.push(page);
        let count = pages.get(page as usize - 1).copied().unwrap_or(0);
        if !pager.page_fetched(count, total) {
            break;
        }
        let (progress, more) = pager.page_written(count);
        assert_eq!(progress.processed, pager.total());
        assert_eq!(progress.total, total);
        if !more {
            break;
        }
    }
    Ok((pager.total(), fetched))
}

#[test]
fn bulk_run_pokemon_import_paginates_until_short_page() {
    run_pokemon_import_paginates_until_short_page();
}

#[test]
fn mod_run_pokemon_import_paginates_until_short_page() {
    run_pokemon_import_paginates_until_short_page();
}

fn run_pokemon_import_paginates_until_short_page() {
    let full = PTCGAPI_PAGE_SIZE as usize;
    let (n, fetched) = run_pager(&[full, full, 50], Some(550), false).unwrap();
    assert_eq!(n, (PTCGAPI_PAGE_SIZE as u64) * 2 + 50);
    assert_eq!(fetched, vec![1, 2, 3]);
}

#[test]
fn bulk_run_pokemon_import_honors_cancellation_between_pages() {
    run_pokemon_import_honors_cancellation_between_pages();
}

#[test]
fn mod_run_pokemon_import_honors_cancellation_between_pages() {
    run_pokemon_import_honors_cancellation_between_pages();
}

fn run_pokemon_import_honors_cancellation_between_pages() {
    let full = PTCGAPI_PAGE_SIZE as usize;
    let err = run_pager(&[full; 10], Some(10_000), true).unwrap_err();
    assert!(matches!(err, Error::Internal(ref m) if m.contains("cancelled")));
}

#[test]
fn pager_stops_at_an_empty_page() {
    let full = PTCGAPI_PAGE_SIZE as usize;
    let (n, fetched) = run_pager(&[full, full], None, false).unwrap();
    assert_eq!(n, 500);
    assert_eq!(fetched, vec![1, 2, 3]);
}

#[test]
fn pokemon_page_url_format() {
    assert_eq!(
        pokemon_page_url(3),
        "https://api.pokemontcg.io/v2/cards?page=3&pageSize=250"
    );
}

#[test]
fn finalize_import_log_marks_completed_on_ok() {
    let o = import_outcome(&Ok(42), false);
    assert_eq!(o.status, "completed");
    assert_eq!(o.cards_imported, 42);
    assert!(o.error_message.is_none());
}

#[test]
fn finalize_import_log_marks_cancelled_when_flag_set() {
    let err: Result<u64, Error> = Err(Error::Internal("import cancelled".into()));
    let o = import_outcome(&err, true);
    assert_eq!(o.status, "cancelled");
    assert!(o.error_message.unwrap().contains("cancelled"));
}

#[test]
fn finalize_import_log_marks_failed_on_other_error() {
    let err: Result<u64, Error> = Err(Error::Network("boom".into()));
    let o = import_outcome(&err, false);
    assert_eq!(o.status, "failed");
    assert!(o.error_message.unwrap().contains("boom"));
}

#[test]
fn bulk_wire_cards_convert() {
    let c: Card = ScryfallCard {
        id: "abc".into(),
        name: "Bolt".into(),
        set: "lea".into(),
        set_name: "Alpha".into(),
        collector_number: "161".into(),
        rarity: None,
        image_uris: Some(ScryfallImageUris { small: None, normal: Some("n.jpg".into()) }),
    }
    .into_card();
    assert_eq!((c.game, c.id.0.as_str(), c.image_url.as_deref()), (Game::Mtg, "abc", Some("n.jpg")));
    let p = PtcgCard {
        id: "swsh4-25".into(),
        name: "Charizard".into(),
        number: "25".into(),
        rarity: Some("Rare".into()),
        set: PtcgSet { id: "swsh4".into(), name: "Vivid Voltage".into() },
        images: Some(PtcgImages { small: Some("s.png".into()), large: Some("l.png".into()) }),
    }
    .into_card();
    assert_eq!((p.set_code.as_str(), p.collector_number.as_str()), ("swsh4", "25"));
    assert_eq!(p.image_url.as_deref(), Some("s.png"));
}

#[test]
fn scryfall_prices_keep_positive_amounts_in_order() {
    let card = mtg::ScryfallCard {
        id: "id/1".into(),
        name: "Bolt".into(),
        set: "lea".into(),
        set_name: "Alpha".into(),
        collector_number: "1".into(),
        rarity: None,
        image_uris: None,
        prices: Some(mtg::ScryfallPrices { usd: Some(123), usd_foil: Some(0), eur: None, eur_foil: Some(7) }),
    };
    assert_eq!(
        mtg::card_url(&binderbase::domain::CardId("id/1".into())),
        "https://api.scryfall.com/cards/id%2F1"
    );
    let (c, prices) = card.into_card_and_prices();
    assert_eq!(c.id.0, "id/1");
    let got: Vec<(&str, bool, u64, &str)> = prices
        .iter()
        .map(|p| (p.currency.as_str(), p.foil, p.cents, p.source.as_str()))
        .collect();
    assert_eq!(got, vec![("usd", false, 123, "scryfall"), ("eur", true, 7, "scryfall")]);
    assert!(prices.iter().all(|p| p.fetched_at.is_empty() && p.game == Game::Mtg));
}

#[test]
fn pokemon_prices_take_first_positive_foil() {
    let fields = |m: Option<u64>| Some(pokemon::PtcgPriceFields { market: m });
    let card = pokemon::PtcgCard {
        id: "swsh4-25".into(),
        name: "Charizard".into(),
        number: "25".into(),
        rarity: None,
        set: PtcgSet { id: "swsh4".into(), name: "Vivid Voltage".into() },
        images: None,
        tcgplayer: Some(pokemon::PtcgTcgplayer {
            prices: Some(pokemon::PtcgPriceVariants {
                normal: fields(Some(250)),
                holo_foil: fields(None),
                reverse_holo_foil: fields(Some(900)),
                first_edition_holofoil: fields(Some(5000)),
            }),
        }),
    };
    let (_, prices) = card.into_card_and_prices();
    let got: Vec<(bool, u64)> = prices.iter().map(|p| (p.foil, p.cents)).collect();
    assert_eq!(got, vec![(false, 250), (true, 900)]);
    assert!(prices.iter().all(|p| p.source == "tcgplayer" && p.currency == "usd"));
}

#[test]
fn import_ids_are_fresh_hyphenated_uuids() {
    let a = binderbase::catalog::bulk::persist::new_import_id();
    let b = binderbase::catalog::bulk::persist::new_import_id();
    assert_ne!(a, b);
    for id in [&a, &b] {
        assert_eq!(id.len(), 36);
        for (i, c) in id.chars().enumerate() {
            if [8, 13, 18, 23].contains(&i) {
                assert_eq!(c, '-');
            } else {
                assert!(c.is_ascii_hexdigit() && !c.is_ascii_uppercase(), "{id}");
            }
        }
    }
}

#[test]
fn import_of_every_game_stops_after_a_failed_or_cancelled_mtg_run() {
    assert!(!binderbase::catalog::bulk::stops_after_first_game(false, false));
    assert!(binderbase::catalog::bulk::stops_after_first_game(true, false));
    assert!(binderbase::catalog::bulk::stops_after_first_game(false, true));
    assert!(binderbase::catalog::bulk::stops_after_first_game(true, true));
}
