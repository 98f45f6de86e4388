//! CSV import / export for collection entries.
//!
//! **Export** writes one header row and one row per collection entry, joined
//! with the card's catalog data so the file is human-readable. Cells that a
//! spreadsheet would evaluate as a formula are defused.
//!
//! **Import** accepts the full export format or a minimal one with only
//! `game`, `card_id`, `condition` and `quantity`. Column names match without
//! regard to ASCII case and in any order; unknown columns are ignored. Every
//! row is validated; bad rows are reported with their 1-based line number
//! (the header is line 1) and the rest go on.
//!
//! Splitting text into records and records into text is the `csv` crate's
//! work; everything around it is here.

use vstd::prelude::*;

use crate::collection::CollectionEntry;
use crate::domain::types::{condition_code, game_from_slug, game_slug, lemma_slug_round_trip};
use crate::domain::{CardCondition, Game};
use crate::text::{
    ascii_lower, chars_of, copy_str, copy_string, eq_ignore_ascii_case, parse_u32, parse_u64,
    parses_unsigned, push_char, push_str, str_eq, str_eq_ignore_ascii_case, string_from_chars,
    trim, trim_bounds, unsigned_value, decimal, is_ws, lemma_decimal_parses, lemma_trim_plain,
};

verus! {

// ---------------------------------------------------------------------------
// The csv crate
// ---------------------------------------------------------------------------

/// The header row of a CSV document as read by a `csv` reader configured
/// with headers, flexible record lengths and trimming of every field; or
/// the reader's error message.
pub uninterp spec fn csv_header_fields(text: Seq<char>) -> Result<Seq<Seq<char>>, Seq<char>>;

/// The data records of a CSV document as read by the same reader, each the
/// record's (trimmed) fields or the reader's error message for that record.
pub uninterp spec fn csv_record_fields(text: Seq<char>) -> Seq<Result<Seq<Seq<char>>, Seq<char>>>;

/// Whether a default `csv` writer quotes a field: it holds the delimiter,
/// a quote, or a line break.
pub open spec fn csv_needs_quotes(f: Seq<char>) -> bool {
    exists|i: int| 0 <= i < f.len() && (f[i] == ',' || f[i] == '"' || f[i] == '\r' || f[i] == '\n')
}

/// `f` with every quote doubled.
pub open spec fn csv_double_quotes(f: Seq<char>) -> Seq<char>
    decreases f.len(),
{
    if f.len() == 0 {
        Seq::empty()
    } else {
        csv_double_quotes(f.drop_last()) + (if f.last() == '"' {
            seq!['"', '"']
        } else {
            seq![f.last()]
        })
    }
}

/// How a default `csv` writer writes one field.
pub open spec fn csv_field_text(f: Seq<char>) -> Seq<char> {
    if csv_needs_quotes(f) {
        seq!['"'] + csv_double_quotes(f) + seq!['"']
    } else {
        f
    }
}

/// The written fields of a record, separated by commas.
pub open spec fn csv_joined(fields: Seq<Seq<char>>) -> Seq<char>
    decreases fields.len(),
{
    if fields.len() == 0 {
        Seq::empty()
    } else if fields.len() == 1 {
        csv_field_text(fields[0])
    } else {
        csv_joined(fields.drop_last()) + seq![','] + csv_field_text(fields.last())
    }
}

/// The text a default `csv` writer produces for one record: the fields
/// joined by commas, each quoted (quotes doubled) where it holds a comma,
/// quote or line break, then a newline; a record that would write nothing
/// (no fields, or one empty field) is written as `""`. Writing into memory
/// cannot fail.
pub open spec fn csv_record_text(fields: Seq<Seq<char>>) -> Result<Seq<char>, Seq<char>> {
    let body = csv_joined(fields);
    Ok(
        (if body.len() == 0 {
            seq!['"', '"']
        } else {
            body
        }) + seq!['\n'],
    )
}

pub open spec fn strings_view(v: Seq<String>) -> Seq<Seq<char>> {
    Seq::new(v.len(), |i: int| v[i]@)
}

pub open spec fn fields_view(r: Result<Vec<String>, String>) -> Result<Seq<Seq<char>>, Seq<char>> {
    match r {
        Ok(v) => Ok(strings_view(v@)),
        Err(e) => Err(e@),
    }
}

pub open spec fn records_view(s: Seq<Result<Vec<String>, String>>) -> Seq<
    Result<Seq<Seq<char>>, Seq<char>>,
> {
    Seq::new(s.len(), |i: int| fields_view(s[i]))
}

/// Each field of a record without its leading and trailing whitespace.
pub open spec fn trim_fields(rec: Seq<Seq<char>>) -> Seq<Seq<char>> {
    Seq::new(rec.len(), |j: int| trim(rec[j]))
}

/// Records that a default `csv` writer writes and the import's reader reads
/// back: at least one record (the header row), every record with at least
/// one field, and no byte-order mark opening the text (the reader drops
/// one there).
pub open spec fn csv_readable(recs: Seq<Seq<Seq<char>>>) -> bool {
    &&& recs.len() > 0
    &&& forall|i: int| 0 <= i < recs.len() ==> (#[trigger] recs[i]).len() > 0
    &&& !(recs[0][0].len() > 0 && recs[0][0][0] == '\u{feff}')
}

/// `header` is what reading `text` gives as header row if `text` was
/// written by default `csv` writers from readable records: the first of
/// those records, its fields trimmed.
pub open spec fn header_read_back(text: Seq<char>, header: Result<Seq<Seq<char>>, Seq<char>>) -> bool {
    forall|recs: Seq<Seq<Seq<char>>>|
        csv_readable(recs) && #[trigger] encode_all(recs) == Ok::<Seq<char>, Seq<char>>(text)
            ==> header == Ok::<Seq<Seq<char>>, Seq<char>>(trim_fields(recs[0]))
}

/// `records` is what reading `text` gives as data records if `text` was
/// written by default `csv` writers from readable records: the records
/// after the first, their fields trimmed.
pub open spec fn records_read_back(
    text: Seq<char>,
    records: Seq<Result<Seq<Seq<char>>, Seq<char>>>,
) -> bool {
    forall|recs: Seq<Seq<Seq<char>>>|
        csv_readable(recs) && #[trigger] encode_all(recs) == Ok::<Seq<char>, Seq<char>>(text)
            ==> records == written_records(recs)
}

/// Reads the header row of `text` (`csv::ReaderBuilder` with headers,
/// `flexible(true)`, `Trim::All`; then `headers()`).
/// Trusted: the result is `csv_header_fields(text)`; and when `text` is what
/// default `csv` writers wrote for readable records, it is the first of
/// those records with its fields trimmed (the writer quotes every field
/// that holds a delimiter, quote or line break, as the reader expects).
#[verifier::external_body]
fn read_csv_headers(text: &str) -> (r: Result<Vec<String>, String>)
    ensures
        fields_view(r) == csv_header_fields(text@),
        header_read_back(text@, fields_view(r)),
{
    let mut rdr = ::csv::ReaderBuilder::new().has_headers(true).flexible(true).trim(
        ::csv::Trim::All,
    ).from_reader(text.as_bytes());
    match rdr.headers() {
        Ok(h) => Ok(h.iter().map(String::from).collect()),
        Err(e) => Err(e.to_string()),
    }
}

/// The records after the header row, each with its fields trimmed.
pub open spec fn written_records(recs: Seq<Seq<Seq<char>>>) -> Seq<
    Result<Seq<Seq<char>>, Seq<char>>,
> {
    Seq::new((recs.len() - 1) as nat, |i: int| Ok(trim_fields(recs[i + 1])))
}

/// Reads the data records of `text` with the same reader (`records()`).
/// Trusted: the result is `csv_record_fields(text)`, and, as for any `Vec`
/// of non-zero-sized items, it holds at most `isize::MAX` items; when
/// `text` is what default `csv` writers wrote for readable records, the
/// result is the records after the first, each with its fields trimmed.
#[verifier::external_body]
fn read_csv_records(text: &str) -> (r: Vec<Result<Vec<String>, String>>)
    ensures
        records_view(r@) == csv_record_fields(text@),
        r@.len() <= isize::MAX,
        records_read_back(text@, records_view(r@)),
{
    let mut rdr = ::csv::ReaderBuilder::new().has_headers(true).flexible(true).trim(
        ::csv::Trim::All,
    ).from_reader(text.as_bytes());
    rdr.records().map(|r| r.map(|rec| rec.iter().map(String::from).collect()).map_err(|e| e.to_string())).collect()
}

/// Writes one record with a default `csv` writer into a string
/// (`write_record`, `into_inner`, `String::from_utf8`).
/// Trusted: the result is `Ok` of `csv_record_text(fields)`: csv-core's
/// writer quotes (with `QuoteStyle::Necessary`) exactly the fields holding
/// `,`, `"`, CR or LF, doubles inner quotes, writes `""` for a record of no
/// bytes and ends it with `\n`; writing into a `Vec` and a one-record writer
/// cannot fail, and the bytes are UTF-8 since only ASCII is inserted.
#[verifier::external_body]
fn encode_csv_record(fields: &Vec<String>) -> (r: Result<String, String>)
    ensures
        match r {
            Ok(s) => csv_record_text(strings_view(fields@)) == Ok::<Seq<char>, Seq<char>>(s@),
            Err(_) => false,
        },
{
    let mut wtr = ::csv::WriterBuilder::new().has_headers(false).from_writer(Vec::new());
    wtr.write_record(fields).map_err(|e| e.to_string())?;
    let bytes = wtr.into_inner().map_err(|e| e.to_string())?;
    String::from_utf8(bytes).map_err(|e| e.to_string())
}

// ---------------------------------------------------------------------------
// Types
// ---------------------------------------------------------------------------

/// One error encountered while validating a CSV row.
#[derive(Debug, Clone)]
pub struct RowError {
    /// 1-based line number in the CSV file (header = line 1).
    pub line: usize,
    pub message: String,
}

/// Result of a dry-run import (preview).
#[derive(Debug, Clone)]
pub struct ImportPreview {
    pub total_rows: usize,
    pub valid_rows: usize,
    pub errors: Vec<RowError>,
    /// A sample (up to 50) of the entries that would be created.
    pub sample: Vec<PreviewEntry>,
}

/// A single entry in the import preview.
#[derive(Debug, Clone)]
pub struct PreviewEntry {
    pub game: Game,
    pub card_id: String,
    pub name: String,
    pub condition: String,
    pub foil: bool,
    pub quantity: u32,
}

/// Result of an applied import.
#[derive(Debug, Clone)]
pub struct ImportResult {
    pub imported: usize,
    pub skipped: usize,
    pub errors: Vec<RowError>,
}

/// A validated row, before the catalog check.
#[derive(Debug, Clone)]
pub struct ParsedRow {
    pub line: usize,
    pub game: Game,
    pub card_id: String,
    pub condition: CardCondition,
    pub foil: bool,
    pub quantity: u32,
    pub notes: Option<String>,
    pub acquired_at: Option<String>,
    pub acquired_price_cents: Option<u64>,
}

/// The plain contents of a row error.
pub struct RowErrorView {
    pub line: nat,
    pub message: Seq<char>,
}

pub open spec fn error_view(e: RowError) -> RowErrorView {
    RowErrorView { line: e.line as nat, message: e.message@ }
}

pub open spec fn errors_view(s: Seq<RowError>) -> Seq<RowErrorView> {
    Seq::new(s.len(), |i: int| error_view(s[i]))
}

/// The plain contents of a validated row.
pub struct RowData {
    pub game: Game,
    pub card_id: Seq<char>,
    pub condition: CardCondition,
    pub foil: bool,
    pub quantity: u32,
    pub notes: Option<Seq<char>>,
    pub acquired_at: Option<Seq<char>>,
    pub acquired_price_cents: Option<u64>,
}

pub struct ParsedRowView {
    pub line: nat,
    pub data: RowData,
}

pub open spec fn opt_view(o: Option<String>) -> Option<Seq<char>> {
    match o {
        Some(s) => Some(s@),
        None => None,
    }
}

pub open spec fn row_data(r: ParsedRow) -> RowData {
    RowData {
        game: r.game,
        card_id: r.card_id@,
        condition: r.condition,
        foil: r.foil,
        quantity: r.quantity,
        notes: opt_view(r.notes),
        acquired_at: opt_view(r.acquired_at),
        acquired_price_cents: r.acquired_price_cents,
    }
}

pub open spec fn parsed_view(r: ParsedRow) -> ParsedRowView {
    ParsedRowView { line: r.line as nat, data: row_data(r) }
}

pub open spec fn parsed_views(s: Seq<ParsedRow>) -> Seq<ParsedRowView> {
    Seq::new(s.len(), |i: int| parsed_view(s[i]))
}

// ---------------------------------------------------------------------------
// Import — the rules
// ---------------------------------------------------------------------------

/// The condition a CSV cell names: the short codes of the export format or
/// the snake_case names.
pub open spec fn parsed_condition(s: Seq<char>) -> Option<CardCondition> {
    if s == "NM"@ || s == "near_mint"@ {
        Some(CardCondition::NearMint)
    } else if s == "LP"@ || s == "lightly_played"@ {
        Some(CardCondition::LightlyPlayed)
    } else if s == "MP"@ || s == "moderately_played"@ {
        Some(CardCondition::ModeratelyPlayed)
    } else if s == "HP"@ || s == "heavily_played"@ {
        Some(CardCondition::HeavilyPlayed)
    } else if s == "DMG"@ || s == "damaged"@ {
        Some(CardCondition::Damaged)
    } else {
        None
    }
}

pub fn parse_condition(s: &str) -> (r: Option<CardCondition>)
    ensures
        r == parsed_condition(s@),
{
    if str_eq(s, "NM") || str_eq(s, "near_mint") {
        Some(CardCondition::NearMint)
    } else if str_eq(s, "LP") || str_eq(s, "lightly_played") {
        Some(CardCondition::LightlyPlayed)
    } else if str_eq(s, "MP") || str_eq(s, "moderately_played") {
        Some(CardCondition::ModeratelyPlayed)
    } else if str_eq(s, "HP") || str_eq(s, "heavily_played") {
        Some(CardCondition::HeavilyPlayed)
    } else if str_eq(s, "DMG") || str_eq(s, "damaged") {
        Some(CardCondition::Damaged)
    } else {
        None
    }
}

/// Every condition's export code reads back as that condition.
pub proof fn lemma_parse_condition_round_trip(c: CardCondition)
    ensures
        parsed_condition(condition_code(c)) == Some(c),
{
    reveal_strlit("NM");
    reveal_strlit("LP");
    reveal_strlit("MP");
    reveal_strlit("HP");
    reveal_strlit("DMG");
    reveal_strlit("near_mint");
    reveal_strlit("lightly_played");
    reveal_strlit("moderately_played");
    reveal_strlit("heavily_played");
    reveal_strlit("damaged");
    assert("NM"@[0] == 'N' && "LP"@[0] == 'L' && "MP"@[0] == 'M' && "HP"@[0] == 'H' && "DMG"@[0]
        == 'D');
    assert("near_mint"@[0] == 'n' && "lightly_played"@[0] == 'l' && "moderately_played"@[0] == 'm'
        && "heavily_played"@[0] == 'h' && "damaged"@[0] == 'd');
}

/// The snake_case name of a condition (`near_mint`, `lightly_played`, ...).
pub open spec fn condition_name(c: CardCondition) -> Seq<char> {
    match c {
        CardCondition::NearMint => "near_mint"@,
        CardCondition::LightlyPlayed => "lightly_played"@,
        CardCondition::ModeratelyPlayed => "moderately_played"@,
        CardCondition::HeavilyPlayed => "heavily_played"@,
        CardCondition::Damaged => "damaged"@,
    }
}

/// A condition cell names condition `c` exactly when it is `c`'s short
/// code or its snake_case name: each of the ten words reads as its own
/// condition, and no other text reads as a condition.
pub proof fn lemma_condition_cells(s: Seq<char>, c: CardCondition)
    ensures
        parsed_condition(s) == Some(c) <==> (s == condition_code(c) || s == condition_name(c)),
{
    reveal_strlit("NM");
    reveal_strlit("LP");
    reveal_strlit("MP");
    reveal_strlit("HP");
    reveal_strlit("DMG");
    reveal_strlit("near_mint");
    reveal_strlit("lightly_played");
    reveal_strlit("moderately_played");
    reveal_strlit("heavily_played");
    reveal_strlit("damaged");
    assert("NM"@[0] == 'N' && "LP"@[0] == 'L' && "MP"@[0] == 'M' && "HP"@[0] == 'H' && "DMG"@[0]
        == 'D');
    assert("near_mint"@[0] == 'n' && "lightly_played"@[0] == 'l' && "moderately_played"@[0] == 'm'
        && "heavily_played"@[0] == 'h' && "damaged"@[0] == 'd');
}

/// The position of the first header equal to `name` (ASCII case ignored),
/// searching from `i`.
pub open spec fn find_from(h: Seq<Seq<char>>, name: Seq<char>, i: int) -> Option<int>
    decreases h.len() - i,
{
    if i < 0 || i >= h.len() {
        None
    } else if eq_ignore_ascii_case(h[i], name) {
        Some(i)
    } else {
        find_from(h, name, i + 1)
    }
}

/// The column a header row gives `name`.
pub open spec fn column(h: Seq<Seq<char>>, name: Seq<char>) -> Option<int> {
    find_from(h, name, 0)
}

pub open spec fn opt_index(o: Option<usize>) -> Option<int> {
    match o {
        Some(i) => Some(i as int),
        None => None,
    }
}

fn find_column(headers: &Vec<String>, name: &str) -> (r: Option<usize>)
    ensures
        opt_index(r) == column(strings_view(headers@), name@),
{
    let ghost h = strings_view(headers@);
    let mut i: usize = 0;
    while i < headers.len()
        invariant
            h == strings_view(headers@),
            i <= headers@.len(),
            column(h, name@) == find_from(h, name@, i as int),
        decreases headers@.len() - i,
    {
        if str_eq_ignore_ascii_case(headers[i].as_str(), name) {
            return Some(i);
        }
        i = i + 1;
    }
    None
}

/// The columns an import reads; the first four are required.
pub struct Columns {
    pub game: usize,
    pub card_id: usize,
    pub condition: usize,
    pub quantity: usize,
    pub foil: Option<usize>,
    pub notes: Option<usize>,
    pub acquired_at: Option<usize>,
    pub price: Option<usize>,
}

/// `cols` are the columns header row `h` names.
pub open spec fn columns_of(h: Seq<Seq<char>>, cols: Columns) -> bool {
    &&& column(h, "game"@) == Some(cols.game as int)
    &&& column(h, "card_id"@) == Some(cols.card_id as int)
    &&& column(h, "condition"@) == Some(cols.condition as int)
    &&& column(h, "quantity"@) == Some(cols.quantity as int)
    &&& column(h, "foil"@) == opt_index(cols.foil)
    &&& column(h, "notes"@) == opt_index(cols.notes)
    &&& column(h, "acquired_at"@) == opt_index(cols.acquired_at)
    &&& column(h, "acquired_price_cents"@) == opt_index(cols.price)
}

/// A cell of a record: trimmed, and absent when empty or out of range.
pub open spec fn cell(fields: Seq<Seq<char>>, idx: int) -> Option<Seq<char>> {
    if 0 <= idx < fields.len() && trim(fields[idx]).len() > 0 {
        Some(trim(fields[idx]))
    } else {
        None
    }
}

pub open spec fn opt_cell(fields: Seq<Seq<char>>, idx: Option<usize>) -> Option<Seq<char>> {
    match idx {
        Some(i) => cell(fields, i as int),
        None => None,
    }
}

pub open spec fn or_empty(c: Option<Seq<char>>) -> Seq<char> {
    match c {
        Some(s) => s,
        None => Seq::empty(),
    }
}

/// `"{prefix}'{value}'{suffix}"`.
pub open spec fn quoted_message(prefix: Seq<char>, value: Seq<char>, suffix: Seq<char>) -> Seq<
    char,
> {
    prefix + seq!['\''] + value + seq!['\''] + suffix
}

pub open spec fn is_true_word(s: Seq<char>) -> bool {
    s == "true"@ || s == "1"@ || s == "yes"@
}

/// Whether a quantity cell holds a positive `u32`.
pub open spec fn valid_quantity(c: Option<Seq<char>>) -> bool {
    c matches Some(t) && parses_unsigned(t, u32::MAX as nat) && unsigned_value(t) > 0
}

/// The validation of one record: the row's data, or the message of the first
/// problem found (checked in the order game, card id, condition, quantity).
pub open spec fn row_outcome(fields: Seq<Seq<char>>, cols: Columns) -> Result<RowData, Seq<char>> {
    let g = cell(fields, cols.game as int);
    let id = cell(fields, cols.card_id as int);
    let cond = cell(fields, cols.condition as int);
    let q = cell(fields, cols.quantity as int);
    if !(g matches Some(s) && game_from_slug(s) is Some) {
        Err(quoted_message("invalid game "@, or_empty(g), " — expected 'mtg' or 'pokemon'"@))
    } else if id is None {
        Err("card_id is empty"@)
    } else if !(cond matches Some(s) && parsed_condition(s) is Some) {
        Err(
            quoted_message(
                "invalid condition "@,
                or_empty(cond),
                " — expected NM, LP, MP, HP, or DMG"@,
            ),
        )
    } else if !valid_quantity(q) {
        Err(quoted_message("invalid quantity "@, or_empty(q), " — must be a positive integer"@))
    } else {
        Ok(
            RowData {
                game: game_from_slug(g->0)->0,
                card_id: id->0,
                condition: parsed_condition(cond->0)->0,
                foil: opt_cell(fields, cols.foil) matches Some(s) && is_true_word(s),
                quantity: unsigned_value(q->0) as u32,
                notes: opt_cell(fields, cols.notes),
                acquired_at: opt_cell(fields, cols.acquired_at),
                acquired_price_cents: match opt_cell(fields, cols.price) {
                    Some(s) => if parses_unsigned(s, u64::MAX as nat) {
                        Some(unsigned_value(s) as u64)
                    } else {
                        None
                    },
                    None => None,
                },
            },
        )
    }
}

/// The rows and errors of a list of records; record `i` is on line `i + 2`.
pub open spec fn parse_records(
    recs: Seq<Result<Seq<Seq<char>>, Seq<char>>>,
    cols: Columns,
) -> (Seq<ParsedRowView>, Seq<RowErrorView>)
    decreases recs.len(),
{
    if recs.len() == 0 {
        (Seq::empty(), Seq::empty())
    } else {
        let (rows, errs) = parse_records(recs.drop_last(), cols);
        let line = (recs.len() + 1) as nat;
        match recs.last() {
            Err(e) => (
                rows,
                errs.push(RowErrorView { line, message: "malformed CSV row: "@ + e }),
            ),
            Ok(f) => match row_outcome(f, cols) {
                Ok(d) => (rows.push(ParsedRowView { line, data: d }), errs),
                Err(m) => (rows, errs.push(RowErrorView { line, message: m })),
            },
        }
    }
}

/// The errors for required columns the header row lacks, in the order
/// game, card_id, condition, quantity.
pub open spec fn missing_columns(h: Seq<Seq<char>>) -> Seq<RowErrorView> {
    missing_if(h, "game"@) + missing_if(h, "card_id"@) + missing_if(h, "condition"@) + missing_if(
        h,
        "quantity"@,
    )
}

pub open spec fn missing_if(h: Seq<Seq<char>>, name: Seq<char>) -> Seq<RowErrorView> {
    if column(h, name) is None {
        seq![RowErrorView { line: 1, message: "missing required column: "@ + name }]
    } else {
        Seq::empty()
    }
}

/// What parsing a CSV document yields: the valid rows, and the errors
/// (header problems on line 1, then one per bad record).
pub open spec fn parse_csv_spec(text: Seq<char>) -> (Seq<ParsedRowView>, Seq<RowErrorView>) {
    match csv_header_fields(text) {
        Err(e) => (
            Seq::empty(),
            seq![RowErrorView { line: 1, message: "failed to read CSV headers: "@ + e }],
        ),
        Ok(h) => if missing_columns(h).len() > 0 {
            (Seq::empty(), missing_columns(h))
        } else {
            parse_records(csv_record_fields(text), header_columns(h))
        },
    }
}

/// The columns a complete header row names.
pub open spec fn header_columns(h: Seq<Seq<char>>) -> Columns {
    choose|c: Columns| columns_of(h, c)
}

/// The trimmed, non-empty cell `idx` of a record.
fn get_cell(fields: &Vec<String>, idx: usize) -> (r: Option<String>)
    ensures
        opt_view(r) == cell(strings_view(fields@), idx as int),
{
    if idx >= fields.len() {
        return None;
    }
    let cs = chars_of(fields[idx].as_str());
    let (lo, hi) = trim_bounds(&cs);
    if lo == hi {
        None
    } else {
        Some(string_from_chars(cs.as_slice(), lo, hi))
    }
}

fn get_opt_cell(fields: &Vec<String>, idx: Option<usize>) -> (r: Option<String>)
    ensures
        opt_view(r) == opt_cell(strings_view(fields@), idx),
{
    match idx {
        Some(i) => get_cell(fields, i),
        None => None,
    }
}

fn quoted(prefix: &str, value: &Option<String>, suffix: &str) -> (r: String)
    ensures
        r@ == quoted_message(prefix@, or_empty(opt_view(*value)), suffix@),
{
    let mut m = copy_str(prefix);
    push_char(&mut m, '\'');
    match value {
        Some(v) => push_str(&mut m, v.as_str()),
        None => {},
    }
    push_char(&mut m, '\'');
    push_str(&mut m, suffix);
    assert(m@ =~= quoted_message(prefix@, or_empty(opt_view(*value)), suffix@));
    m
}

fn is_true_cell(c: &Option<String>) -> (r: bool)
    ensures
        r == (opt_view(*c) matches Some(s) && is_true_word(s)),
{
    match c {
        Some(s) => str_eq(s.as_str(), "true") || str_eq(s.as_str(), "1") || str_eq(
            s.as_str(),
            "yes",
        ),
        None => false,
    }
}

/// Validates one record found on `line`.
fn check_row(fields: &Vec<String>, cols: &Columns, line: usize) -> (r: Result<ParsedRow, String>)
    ensures
        match row_outcome(strings_view(fields@), *cols) {
            Ok(d) => r matches Ok(p) && p.line == line && row_data(p) == d,
            Err(m) => r matches Err(e) && e@ == m,
        },
{
    let ghost f = strings_view(fields@);
    let g = get_cell(fields, cols.game);
    let game = match &g {
        Some(s) => Game::from_slug(s.as_str()),
        None => None,
    };
    let game = match game {
        Some(x) => x,
        None => {
            return Err(quoted("invalid game ", &g, " — expected 'mtg' or 'pokemon'"));
        },
    };
    let card_id = match get_cell(fields, cols.card_id) {
        Some(id) => id,
        None => {
            return Err(copy_str("card_id is empty"));
        },
    };
    let c = get_cell(fields, cols.condition);
    let condition = match &c {
        Some(s) => parse_condition(s.as_str()),
        None => None,
    };
    let condition = match condition {
        Some(x) => x,
        None => {
            return Err(quoted("invalid condition ", &c, " — expected NM, LP, MP, HP, or DMG"));
        },
    };
    let q = get_cell(fields, cols.quantity);
    let quantity = match &q {
        Some(s) => parse_u32(s.as_str()),
        None => None,
    };
    let quantity = match quantity {
        Some(n) => {
            if n > 0 {
                n
            } else {
                return Err(quoted("invalid quantity ", &q, " — must be a positive integer"));
            }
        },
        None => {
            return Err(quoted("invalid quantity ", &q, " — must be a positive integer"));
        },
    };
    let foil_cell = get_opt_cell(fields, cols.foil);
    let foil = is_true_cell(&foil_cell);
    let notes = get_opt_cell(fields, cols.notes);
    let acquired_at = get_opt_cell(fields, cols.acquired_at);
    let price_cell = get_opt_cell(fields, cols.price);
    let acquired_price_cents = match &price_cell {
        Some(s) => parse_u64(s.as_str()),
        None => None,
    };
    Ok(
        ParsedRow {
            line,
            game,
            card_id,
            condition,
            foil,
            quantity,
            notes,
            acquired_at,
            acquired_price_cents,
        },
    )
}

/// Looks up the import columns; `None` (with one error per missing column)
/// when a required column is absent.
fn header_columns_exec(headers: &Vec<String>) -> (r: (Option<Columns>, Vec<RowError>))
    ensures
        errors_view(r.1@) == missing_columns(strings_view(headers@)),
        r.0 is Some <==> missing_columns(strings_view(headers@)).len() == 0,
        r.0 matches Some(c) ==> columns_of(strings_view(headers@), c),
{
    let ghost h = strings_view(headers@);
    let game = find_column(headers, "game");
    let card_id = find_column(headers, "card_id");
    let condition = find_column(headers, "condition");
    let quantity = find_column(headers, "quantity");
    let mut errors: Vec<RowError> = Vec::new();
    if game.is_none() {
        errors.push(RowError { line: 1, message: missing_message("game") });
    }
    if card_id.is_none() {
        errors.push(RowError { line: 1, message: missing_message("card_id") });
    }
    if condition.is_none() {
        errors.push(RowError { line: 1, message: missing_message("condition") });
    }
    if quantity.is_none() {
        errors.push(RowError { line: 1, message: missing_message("quantity") });
    }
    assert(errors_view(errors@) =~= missing_columns(h));
    match (game, card_id, condition, quantity) {
        (Some(g), Some(id), Some(c), Some(q)) => {
            let cols = Columns {
                game: g,
                card_id: id,
                condition: c,
                quantity: q,
                foil: find_column(headers, "foil"),
                notes: find_column(headers, "notes"),
                acquired_at: find_column(headers, "acquired_at"),
                price: find_column(headers, "acquired_price_cents"),
            };
            (Some(cols), errors)
        },
        _ => (None, errors),
    }
}

fn missing_message(name: &str) -> (r: String)
    ensures
        r@ == "missing required column: "@ + name@,
{
    let mut m = copy_str("missing required column: ");
    push_str(&mut m, name);
    m
}

/// Two column sets that a header row names are the same.
proof fn lemma_columns_unique(h: Seq<Seq<char>>, a: Columns, b: Columns)
    requires
        columns_of(h, a),
        columns_of(h, b),
    ensures
        a == b,
{
}

/// What importing text that default `csv` writers wrote from readable
/// records gives: the header check on the first record, then the others
/// validated in order.
pub open spec fn read_back(recs: Seq<Seq<Seq<char>>>) -> (Seq<ParsedRowView>, Seq<RowErrorView>) {
    let h = trim_fields(recs[0]);
    if missing_columns(h).len() > 0 {
        (Seq::empty(), missing_columns(h))
    } else {
        parse_records(written_records(recs), header_columns(h))
    }
}

/// Parse CSV text into validated rows and errors. Text that `csv` writers
/// wrote from readable records gives what those records give.
pub fn parse_csv(text: &str) -> (r: (Vec<ParsedRow>, Vec<RowError>))
    ensures
        (parsed_views(r.0@), errors_view(r.1@)) == parse_csv_spec(text@),
        r.0@.len() + r.1@.len() <= isize::MAX,
        forall|recs: Seq<Seq<Seq<char>>>|
            csv_readable(recs) && #[trigger] encode_all(recs) == Ok::<Seq<char>, Seq<char>>(text@)
                ==> (parsed_views(r.0@), errors_view(r.1@)) == read_back(recs),
{
    let headers = match read_csv_headers(text) {
        Ok(h) => h,
        Err(e) => {
            let mut m = copy_str("failed to read CSV headers: ");
            push_str(&mut m, e.as_str());
            let mut errors: Vec<RowError> = Vec::new();
            errors.push(RowError { line: 1, message: m });
            let rows: Vec<ParsedRow> = Vec::new();
            assert(parsed_views(rows@) =~= Seq::<ParsedRowView>::empty());
            assert(errors_view(errors@) =~= seq![
                RowErrorView { line: 1, message: "failed to read CSV headers: "@ + e@ },
            ]);
            assert forall|recs: Seq<Seq<Seq<char>>>|
                csv_readable(recs) && #[trigger] encode_all(recs) == Ok::<Seq<char>, Seq<char>>(
                    text@,
                ) implies parse_csv_spec(text@) == read_back(recs) by {
                assert(csv_header_fields(text@) == Ok::<Seq<Seq<char>>, Seq<char>>(
                    trim_fields(recs[0]),
                ));
            }
            return (rows, errors);
        },
    };
    let ghost h = strings_view(headers@);
    let (cols, missing) = header_columns_exec(&headers);
    let cols = match cols {
        Some(c) => c,
        None => {
            let rows: Vec<ParsedRow> = Vec::new();
            assert(parsed_views(rows@) =~= Seq::<ParsedRowView>::empty());
            assert forall|recs: Seq<Seq<Seq<char>>>|
                csv_readable(recs) && #[trigger] encode_all(recs) == Ok::<Seq<char>, Seq<char>>(
                    text@,
                ) implies parse_csv_spec(text@) == read_back(recs) by {
                assert(csv_header_fields(text@) == Ok::<Seq<Seq<char>>, Seq<char>>(
                    trim_fields(recs[0]),
                ));
            }
            return (rows, missing);
        },
    };
    proof {
        lemma_columns_unique(h, cols, header_columns(h));
    }
    let records = read_csv_records(text);
    let ghost recs = records_view(records@);
    let mut rows: Vec<ParsedRow> = Vec::new();
    let mut errors: Vec<RowError> = Vec::new();
    let mut i: usize = 0;
    while i < records.len()
        invariant
            recs == records_view(records@),
            records@.len() <= isize::MAX,
            i <= records@.len(),
            (parsed_views(rows@), errors_view(errors@)) == parse_records(
                recs.take(i as int),
                cols,
            ),
            rows@.len() + errors@.len() == i,
        decreases records@.len() - i,
    {
        let line = i + 2;
        assert(recs.take(i + 1).drop_last() =~= recs.take(i as int));
        let ghost before_rows = rows@;
        let ghost before_errors = errors@;
        match &records[i] {
            Err(e) => {
                let mut m = copy_str("malformed CSV row: ");
                push_str(&mut m, e.as_str());
                errors.push(RowError { line, message: m });
                assert(errors_view(errors@) =~= errors_view(before_errors).push(
                    RowErrorView { line: line as nat, message: "malformed CSV row: "@ + e@ },
                ));
            },
            Ok(fields) => {
                match check_row(fields, &cols, line) {
                    Ok(row) => {
                        rows.push(row);
                        assert(parsed_views(rows@) =~= parsed_views(before_rows).push(
                            parsed_view(row),
                        ));
                    },
                    Err(m) => {
                        errors.push(RowError { line, message: m });
                        assert(errors_view(errors@) =~= errors_view(before_errors).push(
                            RowErrorView { line: line as nat, message: m@ },
                        ));
                    },
                }
            },
        }
        i = i + 1;
    }
    assert(recs.take(records@.len() as int) =~= recs);
    assert forall|w: Seq<Seq<Seq<char>>>|
        csv_readable(w) && #[trigger] encode_all(w) == Ok::<Seq<char>, Seq<char>>(
            text@,
        ) implies parse_csv_spec(text@) == read_back(w) by {
        assert(csv_header_fields(text@) == Ok::<Seq<Seq<char>>, Seq<char>>(trim_fields(w[0])));
        assert(csv_record_fields(text@) == written_records(w));
    }
    (rows, errors)
}

// ---------------------------------------------------------------------------
// Import — preview (dry-run) and apply
// ---------------------------------------------------------------------------

/// The plain contents of a preview entry.
pub struct PreviewView {
    pub game: Game,
    pub card_id: Seq<char>,
    pub name: Seq<char>,
    pub condition: Seq<char>,
    pub foil: bool,
    pub quantity: u32,
}

pub open spec fn preview_view(e: PreviewEntry) -> PreviewView {
    PreviewView {
        game: e.game,
        card_id: e.card_id@,
        name: e.name@,
        condition: e.condition@,
        foil: e.foil,
        quantity: e.quantity,
    }
}

pub open spec fn preview_views(s: Seq<PreviewEntry>) -> Seq<PreviewView> {
    Seq::new(s.len(), |i: int| preview_view(s[i]))
}

pub open spec fn opt_views(s: Seq<Option<String>>) -> Seq<Option<Seq<char>>> {
    Seq::new(s.len(), |i: int| opt_view(s[i]))
}

/// `"card '{id}' ({game}) not found in catalog — {advice}"`.
pub open spec fn not_found_message(row: RowData, advice: Seq<char>) -> Seq<char> {
    quoted_message("card "@, row.card_id, " ("@) + game_slug(row.game) + ") not found in catalog — "@
        + advice
}

/// Walks the first `n` rows: rows whose card is in the catalog (`names[i]`
/// is its name) become preview entries, the others catalog errors.
pub open spec fn preview_fold(
    rows: Seq<ParsedRowView>,
    names: Seq<Option<Seq<char>>>,
    n: nat,
) -> (Seq<PreviewView>, Seq<RowErrorView>)
    decreases n,
{
    if n == 0 {
        (Seq::empty(), Seq::empty())
    } else {
        let (valid, errs) = preview_fold(rows, names, (n - 1) as nat);
        let row = rows[n - 1];
        match names[n - 1] {
            Some(name) => (
                valid.push(
                    PreviewView {
                        game: row.data.game,
                        card_id: row.data.card_id,
                        name,
                        condition: condition_code(row.data.condition),
                        foil: row.data.foil,
                        quantity: row.data.quantity,
                    },
                ),
                errs,
            ),
            None => (
                valid,
                errs.push(
                    RowErrorView {
                        line: row.line,
                        message: not_found_message(row.data, "run a catalog import first"@),
                    },
                ),
            ),
        }
    }
}

/// Number of errors that belong to data rows (not the header).
pub open spec fn row_error_count(errs: Seq<RowErrorView>) -> nat
    decreases errs.len(),
{
    if errs.len() == 0 {
        0
    } else {
        row_error_count(errs.drop_last()) + if errs.last().line > 1 {
            1nat
        } else {
            0nat
        }
    }
}

/// The largest preview sample.
pub const SAMPLE_SIZE: usize = 50;

fn not_found(row: &ParsedRow, advice: &str) -> (r: String)
    ensures
        r@ == not_found_message(row_data(*row), advice@),
{
    let mut m = quoted("card ", &Some(copy_string(&row.card_id)), " (");
    push_str(&mut m, row.game.slug());
    push_str(&mut m, ") not found in catalog — ");
    push_str(&mut m, advice);
    m
}

/// The preview of an import: `parsed` and `errors` are what `parse_csv`
/// gave; `names[i]` is the catalog name of row `i`'s card (`None` when the
/// card is not in the catalog). Rows not in the catalog become errors; the
/// rest are valid. `total_rows` counts the rows and every data-row error
/// (so a row missing from the catalog is counted twice); at most
/// `SAMPLE_SIZE` valid entries are sampled.
pub fn build_preview(
    parsed: &Vec<ParsedRow>,
    errors: Vec<RowError>,
    names: &Vec<Option<String>>,
) -> (r: ImportPreview)
    requires
        names@.len() == parsed@.len(),
        parsed@.len() + errors@.len() <= isize::MAX,
    ensures
        ({
            let (valid, errs) = preview_fold(
                parsed_views(parsed@),
                opt_views(names@),
                parsed@.len(),
            );
            let all_errors = errors_view(errors@) + errs;
            &&& errors_view(r.errors@) == all_errors
            &&& r.valid_rows == valid.len()
            &&& r.total_rows == parsed@.len() + row_error_count(all_errors)
            &&& preview_views(r.sample@) == crate::scanning::ranking::capped(
                valid,
                SAMPLE_SIZE as nat,
            )
        }),
{
    let ghost rows = parsed_views(parsed@);
    let ghost nm = opt_views(names@);
    let ghost base = errors_view(errors@);
    let mut errors = errors;
    let mut valid: Vec<PreviewEntry> = Vec::new();
    let mut i: usize = 0;
    while i < parsed.len()
        invariant
            rows == parsed_views(parsed@),
            nm == opt_views(names@),
            names@.len() == parsed@.len(),
            i <= parsed@.len(),
            (preview_views(valid@), errors_view(errors@)) == ({
                let (v, e) = preview_fold(rows, nm, i as nat);
                (v, base + e)
            }),
            valid@.len() <= i,
            errors@.len() <= base.len() + i,
            base.len() + parsed@.len() <= isize::MAX,
        decreases parsed@.len() - i,
    {
        let row = &parsed[i];
        let ghost before_valid = valid@;
        let ghost before_errors = errors@;
        match &names[i] {
            Some(name) => {
                valid.push(
                    PreviewEntry {
                        game: row.game,
                        card_id: copy_string(&row.card_id),
                        name: copy_string(name),
                        condition: copy_str(row.condition.code()),
                        foil: row.foil,
                        quantity: row.quantity,
                    },
                );
                assert(preview_views(valid@) =~= preview_views(before_valid).push(
                    preview_view(valid@.last()),
                ));
            },
            None => {
                let m = not_found(row, "run a catalog import first");
                errors.push(RowError { line: row.line, message: m });
                assert(errors_view(errors@) =~= errors_view(before_errors).push(
                    error_view(errors@.last()),
                ));
            },
        }
        i = i + 1;
    }
    let ghost all_errors = errors_view(errors@);
    let mut row_errors: usize = 0;
    let mut j: usize = 0;
    while j < errors.len()
        invariant
            all_errors == errors_view(errors@),
            j <= errors@.len(),
            errors@.len() + parsed@.len() <= 2 * isize::MAX,
            parsed@.len() <= isize::MAX,
            row_errors == row_error_count(all_errors.take(j as int)),
            row_errors <= j,
        decreases errors@.len() - j,
    {
        assert(all_errors.take(j + 1).drop_last() =~= all_errors.take(j as int));
        if errors[j].line > 1 {
            row_errors = row_errors + 1;
        }
        j = j + 1;
    }
    assert(all_errors.take(errors@.len() as int) =~= all_errors);
    let total_rows = parsed.len() + row_errors;
    let valid_rows = valid.len();
    let mut sample: Vec<PreviewEntry> = Vec::new();
    let mut k: usize = 0;
    while k < valid.len() && k < SAMPLE_SIZE
        invariant
            k <= valid@.len(),
            k <= SAMPLE_SIZE,
            preview_views(sample@) == preview_views(valid@).take(k as int),
        decreases valid@.len() - k,
    {
        let e = &valid[k];
        let ghost before_sample = sample@;
        sample.push(
            PreviewEntry {
                game: e.game,
                card_id: copy_string(&e.card_id),
                name: copy_string(&e.name),
                condition: copy_string(&e.condition),
                foil: e.foil,
                quantity: e.quantity,
            },
        );
        assert(preview_view(sample@.last()) == preview_views(valid@)[k as int]);
        assert(preview_views(sample@) =~= preview_views(before_sample).push(
            preview_view(sample@.last()),
        ));
        k = k + 1;
        assert(preview_views(sample@) =~= preview_views(valid@).take(k as int));
    }
    assert(preview_views(valid@).take(valid@.len() as int) =~= preview_views(valid@));
    ImportPreview { total_rows, valid_rows, errors, sample }
}

/// Which rows an import inserts, and what it reports for the others.
pub struct ApplyPlan {
    /// Indices (into the parsed rows) of the rows to insert, in order.
    pub to_insert: Vec<usize>,
    pub errors: Vec<RowError>,
    pub skipped: usize,
}

/// Walks the first `n` rows: rows whose card exists are inserted, the others
/// skipped with an error.
pub open spec fn apply_fold(rows: Seq<ParsedRowView>, exists: Seq<bool>, n: nat) -> (
    Seq<usize>,
    Seq<RowErrorView>,
)
    decreases n,
{
    if n == 0 {
        (Seq::empty(), Seq::empty())
    } else {
        let (ins, errs) = apply_fold(rows, exists, (n - 1) as nat);
        if exists[n - 1] {
            (ins.push((n - 1) as usize), errs)
        } else {
            (
                ins,
                errs.push(
                    RowErrorView {
                        line: rows[n - 1].line,
                        message: not_found_message(rows[n - 1].data, "skipped"@),
                    },
                ),
            )
        }
    }
}

/// Plans an import of `parsed` (with `parse_errors`), where `exists[i]`
/// tells whether row `i`'s card is in the catalog.
pub fn plan_apply(parsed: &Vec<ParsedRow>, parse_errors: Vec<RowError>, exists: &Vec<bool>) -> (r:
    ApplyPlan)
    requires
        exists@.len() == parsed@.len(),
    ensures
        ({
            let (ins, errs) = apply_fold(parsed_views(parsed@), exists@, parsed@.len());
            &&& r.to_insert@ == ins
            &&& errors_view(r.errors@) == errors_view(parse_errors@) + errs
            &&& r.skipped == errs.len()
        }),
{
    let ghost rows = parsed_views(parsed@);
    let ghost base = errors_view(parse_errors@);
    let mut errors = parse_errors;
    let mut to_insert: Vec<usize> = Vec::new();
    let mut skipped: usize = 0;
    let mut i: usize = 0;
    while i < parsed.len()
        invariant
            rows == parsed_views(parsed@),
            exists@.len() == parsed@.len(),
            i <= parsed@.len(),
            ({
                let (ins, errs) = apply_fold(rows, exists@, i as nat);
                &&& to_insert@ == ins
                &&& errors_view(errors@) == base + errs
                &&& skipped == errs.len()
                &&& skipped <= i
            }),
        decreases parsed@.len() - i,
    {
        let ghost before_errors = errors@;
        if exists[i] {
            to_insert.push(i);
        } else {
            let m = not_found(&parsed[i], "skipped");
            errors.push(RowError { line: parsed[i].line, message: m });
            assert(errors_view(errors@) =~= errors_view(before_errors).push(
                error_view(errors@.last()),
            ));
            skipped = skipped + 1;
        }
        i = i + 1;
    }
    ApplyPlan { to_insert, errors, skipped }
}

/// The error that aborts an import when an insert fails.
pub fn import_failure(line: usize, detail: &str) -> (r: crate::domain::Error)
    ensures
        r matches crate::domain::Error::Storage(m) && m@ == "import failed at line "@ + crate::text::decimal(
            line as nat,
        ) + ": "@ + detail@,
{
    let mut m = copy_str("import failed at line ");
    let n = crate::text::decimal_string(line as u64);
    push_str(&mut m, n.as_str());
    push_str(&mut m, ": ");
    push_str(&mut m, detail);
    crate::domain::Error::Storage(m)
}

// ---------------------------------------------------------------------------
// Export
// ---------------------------------------------------------------------------

/// CSV header names, in column order; export and import agree on them.
pub open spec fn export_headers() -> Seq<Seq<char>> {
    seq![
        "game"@,
        "card_id"@,
        "name"@,
        "set_code"@,
        "set_name"@,
        "collector_number"@,
        "condition"@,
        "foil"@,
        "quantity"@,
        "notes"@,
        "acquired_at"@,
        "acquired_price_cents"@,
    ]
}

fn export_header_fields() -> (r: Vec<String>)
    ensures
        strings_view(r@) == export_headers(),
{
    let mut v: Vec<String> = Vec::new();
    v.push(copy_str("game"));
    v.push(copy_str("card_id"));
    v.push(copy_str("name"));
    v.push(copy_str("set_code"));
    v.push(copy_str("set_name"));
    v.push(copy_str("collector_number"));
    v.push(copy_str("condition"));
    v.push(copy_str("foil"));
    v.push(copy_str("quantity"));
    v.push(copy_str("notes"));
    v.push(copy_str("acquired_at"));
    v.push(copy_str("acquired_price_cents"));
    assert(strings_view(v@) =~= export_headers());
    v
}

/// A collection entry joined with its catalog card, as exported. Missing
/// catalog data and missing optional values are empty strings.
pub struct ExportRow {
    pub game: String,
    pub card_id: String,
    pub name: String,
    pub set_code: String,
    pub set_name: String,
    pub collector_number: String,
    pub condition: String,
    pub foil: bool,
    pub quantity: u32,
    pub notes: String,
    pub acquired_at: String,
    pub acquired_price_cents: String,
}

/// Characters that make a spreadsheet read a cell as a formula.
pub open spec fn is_formula_trigger(c: char) -> bool {
    c == '=' || c == '+' || c == '-' || c == '@' || c == '\t' || c == '\r'
}

/// A cell defused against spreadsheet formula injection: a leading
/// formula-trigger character gets a `'` in front of it.
pub open spec fn defused(s: Seq<char>) -> Seq<char> {
    if s.len() > 0 && is_formula_trigger(s[0]) {
        seq!['\''] + s
    } else {
        s
    }
}

fn defuse(s: &String) -> (r: String)
    ensures
        r@ == defused(s@),
{
    let cs = chars_of(s.as_str());
    if cs.len() > 0 {
        let c = cs[0];
        if c == '=' || c == '+' || c == '-' || c == '@' || c == '\t' || c == '\r' {
            let mut out = String::new();
            push_char(&mut out, '\'');
            push_str(&mut out, s.as_str());
            assert(out@ =~= defused(s@));
            return out;
        }
    }
    copy_string(s)
}

pub open spec fn bool_text(b: bool) -> Seq<char> {
    if b {
        "true"@
    } else {
        "false"@
    }
}

/// The cells of an exported row: every text cell defused; the foil flag as
/// `true`/`false` and the quantity in decimal.
pub open spec fn export_fields(r: ExportRow) -> Seq<Seq<char>> {
    seq![
        defused(r.game@),
        defused(r.card_id@),
        defused(r.name@),
        defused(r.set_code@),
        defused(r.set_name@),
        defused(r.collector_number@),
        defused(r.condition@),
        bool_text(r.foil),
        crate::text::decimal(r.quantity as nat),
        defused(r.notes@),
        defused(r.acquired_at@),
        defused(r.acquired_price_cents@),
    ]
}

fn export_row_fields(r: &ExportRow) -> (v: Vec<String>)
    ensures
        strings_view(v@) == export_fields(*r),
{
    let mut v: Vec<String> = Vec::new();
    v.push(defuse(&r.game));
    v.push(defuse(&r.card_id));
    v.push(defuse(&r.name));
    v.push(defuse(&r.set_code));
    v.push(defuse(&r.set_name));
    v.push(defuse(&r.collector_number));
    v.push(defuse(&r.condition));
    v.push(copy_str(if r.foil {
        "true"
    } else {
        "false"
    }));
    v.push(crate::text::decimal_string(r.quantity as u64));
    v.push(defuse(&r.notes));
    v.push(defuse(&r.acquired_at));
    v.push(defuse(&r.acquired_price_cents));
    assert(strings_view(v@) =~= export_fields(*r));
    v
}

/// The text of a list of records written in order, or the first error.
pub open spec fn encode_all(recs: Seq<Seq<Seq<char>>>) -> Result<Seq<char>, Seq<char>>
    decreases recs.len(),
{
    if recs.len() == 0 {
        Ok(Seq::empty())
    } else {
        match encode_all(recs.drop_last()) {
            Err(e) => Err(e),
            Ok(t) => match csv_record_text(recs.last()) {
                Ok(x) => Ok(t + x),
                Err(e) => Err(e),
            },
        }
    }
}

/// The records of an export: the header row, then one row per entry.
pub open spec fn export_records(rows: Seq<ExportRow>) -> Seq<Seq<Seq<char>>> {
    seq![export_headers()] + Seq::new(rows.len(), |i: int| export_fields(rows[i]))
}

/// CSV text of an export. Writing into memory never fails; the `Err` case
/// (an internal error) stays in the signature, as for every command result.
pub fn render_export(rows: &Vec<ExportRow>) -> (r: crate::domain::Result<String>)
    ensures
        r is Ok,
        match encode_all(export_records(rows@)) {
            Ok(t) => r matches Ok(s) && s@ == t,
            Err(m) => r matches Err(crate::domain::Error::Internal(x)) && x@ == m,
        },
{
    let ghost recs = export_records(rows@);
    proof {
        lemma_encode_all_ok(recs);
    }
    let header = export_header_fields();
    let mut out = match encode_csv_record(&header) {
        Ok(t) => t,
        Err(e) => {
            assert(recs.take(1) =~= seq![export_headers()]);
            proof {
                lemma_encode_one(export_headers());
                lemma_encode_all_error_prefix(recs, 1);
            }
            return Err(crate::domain::Error::Internal(e));
        },
    };
    assert(recs.take(1) =~= seq![export_headers()]);
    proof {
        lemma_encode_one(export_headers());
    }
    assert(encode_all(recs.take(1)) == Ok::<Seq<char>, Seq<char>>(out@));
    let mut i: usize = 0;
    while i < rows.len()
        invariant
            recs == export_records(rows@),
            i <= rows@.len(),
            encode_all(recs.take(i + 1)) == Ok::<Seq<char>, Seq<char>>(out@),
        decreases rows@.len() - i,
    {
        let fields = export_row_fields(&rows[i]);
        assert(recs.take(i + 2).drop_last() =~= recs.take(i + 1));
        assert(recs.take(i + 2).last() == export_fields(rows@[i as int]));
        match encode_csv_record(&fields) {
            Ok(t) => {
                push_str(&mut out, t.as_str());
            },
            Err(e) => {
                proof {
                    lemma_encode_all_error_prefix(recs, i + 2);
                }
                return Err(crate::domain::Error::Internal(e));
            },
        }
        i = i + 1;
    }
    assert(recs.take(rows@.len() as int + 1) =~= recs);
    Ok(out)
}

/// Writing records into memory never fails.
proof fn lemma_encode_all_ok(recs: Seq<Seq<Seq<char>>>)
    ensures
        encode_all(recs) is Ok,
    decreases recs.len(),
{
    if recs.len() > 0 {
        lemma_encode_all_ok(recs.drop_last());
    }
}

proof fn lemma_encode_one(x: Seq<Seq<char>>)
    ensures
        encode_all(seq![x]) == csv_record_text(x),
{
    assert(seq![x].drop_last() =~= Seq::<Seq<Seq<char>>>::empty());
    assert(encode_all(Seq::<Seq<Seq<char>>>::empty()) == Ok::<Seq<char>, Seq<char>>(
        Seq::empty(),
    ));
    assert(seq![x].last() == x);
    match csv_record_text(x) {
        Ok(t) => {
            assert(Seq::<char>::empty() + t =~= t);
        },
        Err(_) => {},
    }
}

/// Once a prefix of the records fails to encode, the whole list fails with
/// the same error.
proof fn lemma_encode_all_error_prefix(recs: Seq<Seq<Seq<char>>>, k: int)
    requires
        0 <= k <= recs.len(),
        encode_all(recs.take(k)) is Err,
    ensures
        encode_all(recs) == encode_all(recs.take(k)),
    decreases recs.len() - k,
{
    if k < recs.len() {
        assert(recs.take(k + 1).drop_last() =~= recs.take(k));
        lemma_encode_all_error_prefix(recs, k + 1);
    } else {
        assert(recs.take(k) =~= recs);
    }
}

proof fn lemma_same_ignore_case(s: Seq<char>)
    ensures
        eq_ignore_ascii_case(s, s),
{
}

/// The export's header row names every column the import reads: an
/// exported file never fails the header check, and its columns are read
/// from the positions the export writes them to.
pub proof fn lemma_export_headers_complete()
    ensures
        missing_columns(export_headers()).len() == 0,
        columns_of(
            export_headers(),
            Columns {
                game: 0,
                card_id: 1,
                condition: 6,
                quantity: 8,
                foil: Some(7),
                notes: Some(9),
                acquired_at: Some(10),
                price: Some(11),
            },
        ),
{
    let h = export_headers();
    reveal_strlit("game");
    reveal_strlit("card_id");
    reveal_strlit("name");
    reveal_strlit("set_code");
    reveal_strlit("set_name");
    reveal_strlit("collector_number");
    reveal_strlit("condition");
    reveal_strlit("foil");
    reveal_strlit("quantity");
    reveal_strlit("notes");
    reveal_strlit("acquired_at");
    reveal_strlit("acquired_price_cents");
    reveal_with_fuel(find_from, 13);
    lemma_same_ignore_case("game"@);
    lemma_same_ignore_case("card_id"@);
    lemma_same_ignore_case("condition"@);
    lemma_same_ignore_case("quantity"@);
    lemma_same_ignore_case("foil"@);
    lemma_same_ignore_case("notes"@);
    lemma_same_ignore_case("acquired_at"@);
    lemma_same_ignore_case("acquired_price_cents"@);
    assert(ascii_lower('g') != ascii_lower('f') && ascii_lower('n') != ascii_lower('f'));
    assert(ascii_lower('s') != ascii_lower('q'));
    assert(h[0] == "game"@ && h[2] == "name"@ && h[3] == "set_code"@ && h[4] == "set_name"@);
    assert("game"@[0] == 'g' && "name"@[0] == 'n' && "foil"@[0] == 'f');
    assert("set_code"@[0] == 's' && "set_name"@[0] == 's' && "quantity"@[0] == 'q');
    assert(!eq_ignore_ascii_case(h[0], "foil"@) && !eq_ignore_ascii_case(h[2], "foil"@));
    assert(!eq_ignore_ascii_case(h[3], "quantity"@) && !eq_ignore_ascii_case(h[4], "quantity"@));
    assert(h[0] == "game"@ && h[1] == "card_id"@ && h[6] == "condition"@ && h[7] == "foil"@ && h[8]
        == "quantity"@ && h[9] == "notes"@ && h[10] == "acquired_at"@ && h[11]
        == "acquired_price_cents"@);
    assert(column(h, "game"@) == Some(0int));
    assert(column(h, "card_id"@) == Some(1int));
    assert(column(h, "condition"@) == Some(6int));
    assert(column(h, "quantity"@) == Some(8int));
    assert(column(h, "foil"@) == Some(7int));
    assert(column(h, "notes"@) == Some(9int));
    assert(column(h, "acquired_at"@) == Some(10int));
    assert(column(h, "acquired_price_cents"@) == Some(11int));
}


// ---------------------------------------------------------------------------
// Export, then import
// ---------------------------------------------------------------------------

/// A cell that export writes and import reads back unchanged: no whitespace
/// at either end, and no leading character that the export defuses.
pub open spec fn plain_cell(s: Seq<char>) -> bool {
    &&& s.len() == 0 || (!is_ws(s[0]) && !is_ws(s.last()))
    &&& !(s.len() > 0 && is_formula_trigger(s[0]))
}

/// How an optional price is exported: its decimal text, or nothing.
pub open spec fn price_text(p: Option<u64>) -> Seq<char> {
    match p {
        Some(n) => decimal(n as nat),
        None => Seq::empty(),
    }
}

/// `r` is the export row of collection entry `e` (the catalog columns may
/// hold anything).
pub open spec fn exports_entry(r: ExportRow, e: CollectionEntry) -> bool {
    &&& r.game@ == game_slug(e.game)
    &&& r.card_id@ == e.card_id.0@
    &&& r.condition@ == condition_code(e.condition)
    &&& r.foil == e.foil
    &&& r.quantity == e.quantity
    &&& r.notes@ == or_empty(opt_view(e.notes))
    &&& r.acquired_at@ == or_empty(opt_view(e.acquired_at))
    &&& r.acquired_price_cents@ == price_text(e.acquired_price_cents)
}

/// Entries that survive a trip through a CSV file: a positive quantity, a
/// non-empty card id, and notes and acquisition date non-empty when present;
/// every such text plain.
pub open spec fn round_trips(e: CollectionEntry) -> bool {
    &&& e.quantity > 0
    &&& e.card_id.0@.len() > 0
    &&& plain_cell(e.card_id.0@)
    &&& (e.notes matches Some(n) ==> n@.len() > 0 && plain_cell(n@))
    &&& (e.acquired_at matches Some(a) ==> a@.len() > 0 && plain_cell(a@))
}

/// The data of an entry, as an import yields it.
pub open spec fn entry_data(e: CollectionEntry) -> RowData {
    RowData {
        game: e.game,
        card_id: e.card_id.0@,
        condition: e.condition,
        foil: e.foil,
        quantity: e.quantity,
        notes: opt_view(e.notes),
        acquired_at: opt_view(e.acquired_at),
        acquired_price_cents: e.acquired_price_cents,
    }
}

/// The columns of the export format.
pub open spec fn export_columns() -> Columns {
    Columns {
        game: 0,
        card_id: 1,
        condition: 6,
        quantity: 8,
        foil: Some(7),
        notes: Some(9),
        acquired_at: Some(10),
        price: Some(11),
    }
}

proof fn lemma_plain_cell(s: Seq<char>)
    requires
        plain_cell(s),
    ensures
        trim(defused(s)) == s,
{
    lemma_trim_plain(s);
}

proof fn lemma_cell_of(f: Seq<Seq<char>>, idx: int, s: Seq<char>)
    requires
        0 <= idx < f.len(),
        f[idx] == s,
        trim(s) == s,
    ensures
        cell(f, idx) == (if s.len() > 0 {
            Some(s)
        } else {
            None::<Seq<char>>
        }),
{
}

/// The export rows' literal cells (game slugs, condition codes, flags) are
/// plain.
proof fn lemma_literal_cells(g: Game, c: CardCondition, b: bool)
    ensures
        plain_cell(game_slug(g)) && game_slug(g).len() > 0,
        plain_cell(condition_code(c)) && condition_code(c).len() > 0,
        plain_cell(bool_text(b)) && bool_text(b).len() > 0,
        is_true_word(bool_text(b)) == b,
{
    reveal_strlit("mtg");
    reveal_strlit("pokemon");
    reveal_strlit("NM");
    reveal_strlit("LP");
    reveal_strlit("MP");
    reveal_strlit("HP");
    reveal_strlit("DMG");
    reveal_strlit("true");
    reveal_strlit("false");
    reveal_strlit("1");
    reveal_strlit("yes");
    assert("false"@ != "true"@ && "false"@ != "1"@ && "false"@ != "yes"@) by {
        assert("false"@.len() == 5);
    }
}

proof fn lemma_row_reads_back(r: ExportRow, e: CollectionEntry)
    requires
        exports_entry(r, e),
        round_trips(e),
    ensures
        row_outcome(trim_fields(export_fields(r)), export_columns()) == Ok::<RowData, Seq<char>>(
            entry_data(e),
        ),
{
    let x = export_fields(r);
    let f = trim_fields(x);
    let cols = export_columns();
    lemma_literal_cells(e.game, e.condition, e.foil);
    lemma_slug_round_trip(e.game);
    lemma_parse_condition_round_trip(e.condition);
    lemma_plain_cell(game_slug(e.game));
    lemma_plain_cell(e.card_id.0@);
    lemma_plain_cell(condition_code(e.condition));
    lemma_trim_plain(bool_text(e.foil));
    lemma_decimal_parses(e.quantity as nat, u32::MAX as nat);
    lemma_trim_plain(decimal(e.quantity as nat));
    assert(f.len() == 12);
    assert(f[0] == game_slug(e.game));
    assert(f[1] == e.card_id.0@);
    assert(f[6] == condition_code(e.condition));
    assert(f[7] == bool_text(e.foil));
    assert(f[8] == decimal(e.quantity as nat));
    lemma_cell_of(f, 0, game_slug(e.game));
    lemma_cell_of(f, 1, e.card_id.0@);
    lemma_cell_of(f, 6, condition_code(e.condition));
    lemma_cell_of(f, 7, bool_text(e.foil));
    lemma_cell_of(f, 8, decimal(e.quantity as nat));
    // notes and acquisition date
    let notes = or_empty(opt_view(e.notes));
    let at = or_empty(opt_view(e.acquired_at));
    lemma_plain_cell(notes);
    lemma_plain_cell(at);
    assert(f[9] == notes);
    assert(f[10] == at);
    lemma_cell_of(f, 9, notes);
    lemma_cell_of(f, 10, at);
    assert(opt_cell(f, cols.notes) == opt_view(e.notes));
    assert(opt_cell(f, cols.acquired_at) == opt_view(e.acquired_at));
    // price
    let p = price_text(e.acquired_price_cents);
    match e.acquired_price_cents {
        Some(n) => {
            lemma_decimal_parses(n as nat, u64::MAX as nat);
            lemma_decimal_digits_not_trigger(n as nat);
            lemma_plain_cell(p);
        },
        None => {
            lemma_plain_cell(p);
        },
    }
    assert(f[11] == p);
    lemma_cell_of(f, 11, p);
}

proof fn lemma_decimal_digits_not_trigger(n: nat)
    ensures
        !is_formula_trigger(decimal(n)[0]),
{
    crate::text::lemma_decimal_digits(n);
    assert(crate::text::is_digit(decimal(n)[0]));
}

/// The export's header names have no surrounding whitespace.
proof fn lemma_headers_trimmed()
    ensures
        trim_fields(export_headers()) == export_headers(),
{
    let h = export_headers();
    reveal_strlit("game");
    reveal_strlit("card_id");
    reveal_strlit("name");
    reveal_strlit("set_code");
    reveal_strlit("set_name");
    reveal_strlit("collector_number");
    reveal_strlit("condition");
    reveal_strlit("foil");
    reveal_strlit("quantity");
    reveal_strlit("notes");
    reveal_strlit("acquired_at");
    reveal_strlit("acquired_price_cents");
    assert forall|j: int| 0 <= j < h.len() implies trim(h[j]) == h[j] by {
        lemma_trim_plain(h[j]);
    }
    assert(trim_fields(h) =~= h);
}

proof fn lemma_rows_read_back(entries: Seq<CollectionEntry>, rows: Seq<ExportRow>, k: nat)
    requires
        k <= rows.len(),
        rows.len() == entries.len(),
        forall|i: int|
            0 <= i < rows.len() ==> exports_entry(#[trigger] rows[i], entries[i]) && round_trips(
                entries[i],
            ),
    ensures
        parse_records(
            Seq::new(k, |i: int| Ok::<Seq<Seq<char>>, Seq<char>>(trim_fields(export_fields(rows[i])))),
            export_columns(),
        ) == (
            Seq::new(k, |i: int| ParsedRowView { line: (i + 2) as nat, data: entry_data(entries[i]) }),
            Seq::<RowErrorView>::empty(),
        ),
    decreases k,
{
    let recs = Seq::new(
        k,
        |i: int| Ok::<Seq<Seq<char>>, Seq<char>>(trim_fields(export_fields(rows[i]))),
    );
    let want = Seq::new(
        k,
        |i: int| ParsedRowView { line: (i + 2) as nat, data: entry_data(entries[i]) },
    );
    if k == 0 {
        assert(want =~= Seq::<ParsedRowView>::empty());
    } else {
        let j = (k - 1) as nat;
        lemma_rows_read_back(entries, rows, j);
        let before = Seq::new(
            j,
            |i: int| Ok::<Seq<Seq<char>>, Seq<char>>(trim_fields(export_fields(rows[i]))),
        );
        let before_want = Seq::new(
            j,
            |i: int| ParsedRowView { line: (i + 2) as nat, data: entry_data(entries[i]) },
        );
        assert(recs.drop_last() =~= before);
        lemma_row_reads_back(rows[j as int], entries[j as int]);
        assert(recs.last() == Ok::<Seq<Seq<char>>, Seq<char>>(
            trim_fields(export_fields(rows[j as int])),
        ));
        assert(want =~= before_want.push(
            ParsedRowView { line: (k + 1) as nat, data: entry_data(entries[j as int]) },
        ));
    }
}

/// Exporting a collection and importing the file gives the collection back.
/// The export's records are readable by the import's reader, and reading
/// them back yields no errors and, in order, one valid row per entry (on
/// lines 2, 3, ...) with the entry's game, card, condition, finish,
/// quantity, notes, acquisition date and price; the import draws fresh
/// entry ids. This holds for entries with a positive quantity, a non-empty
/// card id, and notes and acquisition dates that are non-empty when present,
/// where none of these texts has whitespace at either end or begins with a
/// character the export defuses.
pub proof fn lemma_export_reads_back(entries: Seq<CollectionEntry>, rows: Seq<ExportRow>)
    requires
        rows.len() == entries.len(),
        forall|i: int|
            0 <= i < rows.len() ==> exports_entry(#[trigger] rows[i], entries[i]) && round_trips(
                entries[i],
            ),
    ensures
        csv_readable(export_records(rows)),
        read_back(export_records(rows)) == (
            Seq::new(
                rows.len(),
                |i: int| ParsedRowView { line: (i + 2) as nat, data: entry_data(entries[i]) },
            ),
            Seq::<RowErrorView>::empty(),
        ),
{
    let recs = export_records(rows);
    let h = export_headers();
    reveal_strlit("game");
    assert(recs[0] == h);
    assert(h[0] == "game"@);
    assert forall|i: int| 0 <= i < recs.len() implies (#[trigger] recs[i]).len() > 0 by {
        if i > 0 {
            assert(recs[i] == export_fields(rows[i - 1]));
        }
    }
    lemma_headers_trimmed();
    lemma_export_headers_complete();
    assert(columns_of(h, header_columns(h)));
    lemma_columns_unique(h, export_columns(), header_columns(h));
    assert(written_records(recs) =~= Seq::new(
        rows.len(),
        |i: int| Ok::<Seq<Seq<char>>, Seq<char>>(trim_fields(export_fields(rows[i]))),
    ));
    lemma_rows_read_back(entries, rows, rows.len());
}

/// Exported files are safe to open in a spreadsheet: no cell of an
/// exported row begins with a character that makes a spreadsheet evaluate
/// it as a formula (`=`, `+`, `-`, `@`, tab, carriage return).
pub proof fn lemma_export_cells_defused(r: ExportRow)
    ensures
        forall|j: int|
            0 <= j < export_fields(r).len() ==> !(export_fields(r)[j].len() > 0
                && is_formula_trigger(#[trigger] export_fields(r)[j][0])),
{
    let x = export_fields(r);
    reveal_strlit("true");
    reveal_strlit("false");
    lemma_decimal_digits_not_trigger(r.quantity as nat);
    assert forall|j: int| 0 <= j < x.len() implies !(x[j].len() > 0 && is_formula_trigger(
        #[trigger] x[j][0],
    )) by {
        if j != 7 && j != 8 && x[j].len() > 0 && is_formula_trigger(x[j][0]) {
            assert(x[j][0] == '\'');
        }
    }
}

} // verus!
