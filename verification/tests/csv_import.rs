use binderbase::collection::csv::{
    build_preview, parse_csv, plan_apply, render_export, ExportRow, ImportPreview, ImportResult,
};
use binderbase::domain::Game;

/// A catalog of `(game, card_id, name)`, standing in for the `cards` table.
struct Catalog(Vec<(Game, &'static str, &'static str)>);

impl Catalog {
    fn name_of(&self, game: Game, id: &str) -> Option<String> {
        self.0
            .iter()
            .find(|(g, i, _)| *g == game && *i == id)
            .map(|(_, _, n)| n.to_string())
    }

    fn preview(&self, text: &str) -> ImportPreview {
        let (parsed, errors) = parse_csv(text);
        let names: Vec<Option<String>> =
            parsed.iter().map(|r| self.name_of(r.game, &r.card_id)).collect();
        build_preview(&parsed, errors, &names)
    }

    fn apply(&self, text: &str) -> ImportResult {
        let (parsed, errors) = parse_csv(text);
        let exists: Vec<bool> =
            parsed.iter().map(|r| self.name_of(r.game, &r.card_id).is_some()).collect();
        let plan = plan_apply(&parsed, errors, &exists);
        ImportResult { imported: plan.to_insert.len(), skipped: plan.skipped, errors: plan.errors }
    }
}

fn bolt_row(quantity: u32, notes: &str, price: &str) -> ExportRow {
    ExportRow {
        game: "mtg".into(),
        card_id: "abc-123".into(),
        name: "Lightning Bolt".into(),
        set_code: "test".into(),
        set_name: "Test Set".into(),
        collector_number: "1".into(),
        condition: "NM".into(),
        foil: false,
        quantity,
        notes: notes.into(),
        acquired_at: String::new(),
        acquired_price_cents: price.into(),
    }
}

#[test]
fn export_empty_collection_returns_header_only() {
    let csv = render_export(&vec![]).unwrap();
    let lines: Vec<&str> = csv.lines().collect();
    assert_eq!(lines.len(), 1);
    assert!(lines[0].contains("game"));
    assert!(lines[0].contains("card_id"));
}

#[test]
fn export_round_trips_through_import() {
    let csv = render_export(&vec![bolt_row(4, "test notes", "50")]).unwrap();

    let catalog = Catalog(vec![(Game::Mtg, "abc-123", "Lightning Bolt")]);
    let preview = catalog.preview(&csv);
    assert_eq!(preview.valid_rows, 1);
    assert!(preview.errors.is_empty(), "errors: {:?}", preview.errors);
    assert_eq!(preview.sample[0].quantity, 4);

    let result = catalog.apply(&csv);
    assert_eq!(result.imported, 1);
    assert_eq!(result.skipped, 0);

    let (parsed, _) = parse_csv(&csv);
    assert_eq!(parsed.len(), 1);
    assert_eq!(parsed[0].quantity, 4);
    assert_eq!(parsed[0].card_id, "abc-123");
    assert_eq!(parsed[0].notes.as_deref(), Some("test notes"));
    assert_eq!(parsed[0].acquired_price_cents, Some(50));
    assert_eq!(parsed[0].acquired_at, None);
}

#[test]
fn import_rejects_missing_required_columns() {
    let catalog = Catalog(vec![]);
    let csv = "name,set_code\nBolt,LEA\n";
    let preview = catalog.preview(csv);
    assert_eq!(preview.valid_rows, 0);
    assert!(!preview.errors.is_empty());
    let msgs: String = preview
        .errors
        .iter()
        .map(|e| e.message.as_str())
        .collect::<Vec<_>>()
        .join(" ");
    assert!(msgs.contains("game"), "should mention game: {msgs}");
    assert!(msgs.contains("card_id"), "should mention card_id: {msgs}");
    assert_eq!(preview.errors.len(), 4);
    assert!(preview.errors.iter().all(|e| e.line == 1));
}

#[test]
fn import_rejects_unknown_card() {
    let catalog = Catalog(vec![]);
    let csv = "game,card_id,condition,quantity\nmtg,no-such-card,NM,1\n";
    let preview = catalog.preview(csv);
    assert_eq!(preview.valid_rows, 0);
    assert_eq!(preview.errors.len(), 1);
    assert!(preview.errors[0].message.contains("not found in catalog"));
    assert_eq!(
        preview.errors[0].message,
        "card 'no-such-card' (mtg) not found in catalog — run a catalog import first"
    );
    assert_eq!(preview.errors[0].line, 2);
}

#[test]
fn import_rejects_bad_condition() {
    let catalog = Catalog(vec![(Game::Mtg, "abc-123", "Bolt")]);
    let csv = "game,card_id,condition,quantity\nmtg,abc-123,TERRIBLE,1\n";
    let preview = catalog.preview(csv);
    assert_eq!(preview.valid_rows, 0);
    assert!(preview.errors[0].message.contains("invalid condition"));
    assert_eq!(
        preview.errors[0].message,
        "invalid condition 'TERRIBLE' — expected NM, LP, MP, HP, or DMG"
    );
}

#[test]
fn import_rejects_zero_quantity() {
    let catalog = Catalog(vec![(Game::Mtg, "abc-123", "Bolt")]);
    let csv = "game,card_id,condition,quantity\nmtg,abc-123,NM,0\n";
    let preview = catalog.preview(csv);
    assert_eq!(preview.valid_rows, 0);
    assert!(preview.errors[0].message.contains("invalid quantity"));
}

#[test]
fn import_accepts_snake_case_conditions() {
    let catalog = Catalog(vec![(Game::Mtg, "abc-123", "Bolt")]);
    let csv = "game,card_id,condition,quantity\nmtg,abc-123,near_mint,2\n";
    let preview = catalog.preview(csv);
    assert_eq!(preview.valid_rows, 1);
    assert!(preview.errors.is_empty());
    assert_eq!(preview.sample[0].condition, "NM");
    assert_eq!(preview.sample[0].name, "Bolt");
}

#[test]
fn import_handles_foil_variants() {
    let catalog = Catalog(vec![(Game::Mtg, "abc-123", "Bolt")]);
    let csv = "game,card_id,condition,quantity,foil\nmtg,abc-123,NM,1,true\n";
    let preview = catalog.preview(csv);
    assert_eq!(preview.valid_rows, 1);
    assert!(preview.sample[0].foil);
}

#[test]
fn import_apply_rolls_back_on_fk_violation() {
    let catalog = Catalog(vec![]);
    let csv = "game,card_id,condition,quantity\nmtg,ghost,NM,1\n";
    let result = catalog.apply(csv);
    assert_eq!(result.imported, 0);
    assert_eq!(result.skipped, 1);
    assert_eq!(
        result.errors[0].message,
        "card 'ghost' (mtg) not found in catalog — skipped"
    );
}

#[test]
fn import_reports_each_bad_row_with_its_line() {
    let catalog = Catalog(vec![(Game::Pokemon, "swsh4-25", "Charizard")]);
    let csv = "Quantity,GAME,Card_ID,condition,extra\n\
               2,pokemon,swsh4-25,lp,x\n\
               1,yugioh,x,NM,\n\
               1,pokemon,,NM,\n\
               abc,pokemon,swsh4-25,HP,\n\
               3, pokemon , swsh4-25 ,DMG,\n";
    let (parsed, errors) = parse_csv(csv);
    let lines: Vec<usize> = errors.iter().map(|e| e.line).collect();
    assert_eq!(lines, vec![2, 3, 4, 5]);
    assert_eq!(errors[0].message, "invalid condition 'lp' — expected NM, LP, MP, HP, or DMG");
    assert_eq!(errors[1].message, "invalid game 'yugioh' — expected 'mtg' or 'pokemon'");
    assert_eq!(errors[2].message, "card_id is empty");
    assert_eq!(errors[3].message, "invalid quantity 'abc' — must be a positive integer");
    assert_eq!(parsed.len(), 1);
    assert_eq!((parsed[0].line, parsed[0].quantity), (6, 3));
    let preview = catalog.preview(csv);
    // Parsed rows plus every data-row error.
    assert_eq!(preview.total_rows, 5);
    assert_eq!(preview.valid_rows, 1);
}

#[test]
fn preview_sample_is_capped_at_fifty() {
    let catalog = Catalog(vec![(Game::Mtg, "a", "A")]);
    let mut csv = String::from("game,card_id,condition,quantity\n");
    for _ in 0..60 {
        csv.push_str("mtg,a,NM,1\n");
    }
    let preview = catalog.preview(&csv);
    assert_eq!(preview.valid_rows, 60);
    assert_eq!(preview.sample.len(), 50);
}

#[test]
fn export_defuses_formula_cells() {
    let csv = render_export(&vec![bolt_row(1, "=SUM(A1)", "")]).unwrap();
    let data = csv.lines().nth(1).unwrap();
    assert!(data.contains("'=SUM(A1)"), "row: {data}");
    assert!(data.contains(",false,1,"), "row: {data}");
}

#[test]
fn export_reads_back_quoted_cells_and_empty_optionals() {
    let mut quoted = bolt_row(2, "said \"mint\", then\nsold it", "");
    quoted.name = "Bolt, the \"Classic\"".into();
    let mut pokemon = bolt_row(7, "", "123");
    pokemon.game = "pokemon".into();
    pokemon.card_id = "base1-4".into();
    pokemon.condition = "DMG".into();
    pokemon.foil = true;
    pokemon.acquired_at = "2024-01-02".into();
    let csv = render_export(&vec![quoted, pokemon]).unwrap();

    let (parsed, errors) = parse_csv(&csv);
    assert!(errors.is_empty(), "errors: {errors:?}");
    assert_eq!(parsed.len(), 2);
    assert_eq!(parsed[0].line, 2);
    assert_eq!(parsed[0].game, Game::Mtg);
    assert_eq!(parsed[0].notes.as_deref(), Some("said \"mint\", then\nsold it"));
    assert_eq!(parsed[0].quantity, 2);
    assert!(!parsed[0].foil);
    assert_eq!(parsed[0].acquired_price_cents, None);
    assert_eq!(parsed[1].line, 3);
    assert_eq!(parsed[1].game, Game::Pokemon);
    assert_eq!(parsed[1].card_id, "base1-4");
    assert!(matches!(parsed[1].condition, binderbase::domain::CardCondition::Damaged));
    assert!(parsed[1].foil);
    assert_eq!(parsed[1].quantity, 7);
    assert_eq!(parsed[1].notes, None);
    assert_eq!(parsed[1].acquired_at.as_deref(), Some("2024-01-02"));
    assert_eq!(parsed[1].acquired_price_cents, Some(123));
}

#[test]
fn export_defuses_every_formula_trigger() {
    let mut row = bolt_row(3, "+1 to draw", "");
    row.name = "@mention".into();
    row.set_name = "-minus".into();
    row.acquired_at = "=NOW()".into();
    let csv = render_export(&vec![row]).unwrap();
    let data = csv.lines().nth(1).unwrap();
    for cell in data.split(',') {
        let first = cell.chars().next();
        assert!(
            !matches!(first, Some('=') | Some('+') | Some('-') | Some('@') | Some('\t') | Some('\r')),
            "cell {cell:?} in {data:?}"
        );
    }
    assert!(data.contains("'@mention"));
    assert!(data.contains("'-minus"));
    assert!(data.contains("'+1 to draw"));
    assert!(data.contains("'=NOW()"));
}

#[test]
fn export_writes_records_as_the_csv_writer_does() {
    let mut row = bolt_row(2, "", "");
    row.name = "Bolt, the \"Classic\"".into();
    let csv = render_export(&vec![row]).unwrap();
    assert_eq!(
        csv,
        "game,card_id,name,set_code,set_name,collector_number,condition,foil,quantity,notes,acquired_at,acquired_price_cents\n\
         mtg,abc-123,\"Bolt, the \"\"Classic\"\"\",test,Test Set,1,NM,false,2,,,\n"
    );
}
