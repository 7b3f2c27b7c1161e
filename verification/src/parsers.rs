//! Decoding export files into raw samples.
//!
//! A file arrives as a grid of cells: a header row naming the columns, then
//! one row per sample. The schema's six columns are located by name, in any
//! order and among any other columns, and each data row is decoded by the
//! rules of the raw sample schema. The framing of a CSV byte stream into
//! rows of text cells is delegated to the `csv` crate; everything after
//! framing is verified here.

use vstd::prelude::*;
use vstd::string::StrSliceExecFns;

use crate::error::SolarError;
use crate::solarman_record::{
    spec_decode_cell, spec_parse_date, SolarmanRecord,
};
use crate::timestamp::Timestamp;

verus! {

/// What a grid cell holds, at the specification level.
pub enum CellVal {
    /// An empty cell.
    Empty,
    /// A numeric cell already rounded to an integer.
    Number(int),
    /// A text cell.
    Text(Seq<char>),
}

/// One cell of an export grid: text for CSV fields and spreadsheet text
/// cells, a rounded number for spreadsheet numeric cells, or nothing.
pub enum Cell {
    Empty,
    Number(i64),
    Text(String),
}

impl View for Cell {
    type V = CellVal;

    open spec fn view(&self) -> CellVal {
        match self {
            Cell::Empty => CellVal::Empty,
            Cell::Number(n) => CellVal::Number(*n as int),
            Cell::Text(s) => CellVal::Text(s@),
        }
    }
}

impl DeepView for Cell {
    type V = CellVal;

    open spec fn deep_view(&self) -> CellVal {
        self.view()
    }
}

/// What a cell means as a numeric field of the given range: an empty cell
/// is zero, a number must lie in range, and text follows the decimal rules.
pub open spec fn spec_cell_value(c: CellVal, lo: int, hi: int) -> Option<int> {
    match c {
        CellVal::Empty => Some(0int),
        CellVal::Number(n) => if lo <= n <= hi {
            Some(n)
        } else {
            None
        },
        CellVal::Text(s) => spec_decode_cell(s, lo, hi),
    }
}

/// What a cell means as a timestamp: only a text cell in the device's
/// format.
pub open spec fn spec_cell_date(c: CellVal) -> Option<Timestamp> {
    match c {
        CellVal::Text(s) => spec_parse_date(s),
        _ => None,
    }
}

/// Whether a header cell is the given column name.
pub open spec fn cell_is_name(c: CellVal, name: Seq<char>) -> bool {
    c matches CellVal::Text(s) && s == name
}

/// The first index whose header cell is the column name, or the length when
/// none is.
pub open spec fn first_index_of(h: Seq<CellVal>, name: Seq<char>) -> int
    decreases h.len(),
{
    if h.len() == 0 {
        0
    } else if cell_is_name(h[0], name) {
        0
    } else {
        1 + first_index_of(h.skip(1), name)
    }
}

/// The six column positions of the raw sample schema in a header row, when
/// all six are present: timestamp, production, consumption, grid, battery
/// and state of charge.
pub open spec fn spec_cols(h: Seq<CellVal>) -> Option<(int, int, int, int, int, int)> {
    let ti = first_index_of(h, "Updated Time"@);
    let pi = first_index_of(h, "Production Power(W)"@);
    let ci = first_index_of(h, "Consumption Power(W)"@);
    let gi = first_index_of(h, "Grid Power(W)"@);
    let bi = first_index_of(h, "Battery Power(W)"@);
    let si = first_index_of(h, "SoC(%)"@);
    if ti < h.len() && pi < h.len() && ci < h.len() && gi < h.len() && bi < h.len() && si
        < h.len() {
        Some((ti, pi, ci, gi, bi, si))
    } else {
        None
    }
}

/// What one data row means under the located columns.
pub open spec fn spec_decode_row(row: Seq<CellVal>, ix: (int, int, int, int, int, int)) -> Option<
    SolarmanRecord,
> {
    if row.len() > ix.0 && row.len() > ix.1 && row.len() > ix.2 && row.len() > ix.3 && row.len()
        > ix.4 && row.len() > ix.5 {
        let time = spec_cell_date(row[ix.0]);
        let production = spec_cell_value(row[ix.1], 0, u32::MAX as int);
        let consumption = spec_cell_value(row[ix.2], 0, u32::MAX as int);
        let grid = spec_cell_value(row[ix.3], i32::MIN as int, i32::MAX as int);
        let battery = spec_cell_value(row[ix.4], i32::MIN as int, i32::MAX as int);
        let soc = spec_cell_value(row[ix.5], 0, u8::MAX as int);
        if time is Some && production is Some && consumption is Some && grid is Some && battery
            is Some && soc is Some {
            Some(
                SolarmanRecord {
                    time: time->0,
                    production: (production->0) as u32,
                    consumption: (consumption->0) as u32,
                    grid: (grid->0) as i32,
                    battery: (battery->0) as i32,
                    soc: (soc->0) as u8,
                },
            )
        } else {
            None
        }
    } else {
        None
    }
}

/// What a whole grid means: an empty grid is an empty sample list; anything
/// else needs the header's six columns and every data row to decode.
pub open spec fn spec_decode_grid(rows: Seq<Seq<CellVal>>) -> Option<Seq<SolarmanRecord>> {
    if rows.len() == 0 {
        Some(Seq::<SolarmanRecord>::empty())
    } else {
        match spec_cols(rows[0]) {
            Some(ix) => {
                if forall|i: int| 1 <= i < rows.len() ==> spec_decode_row(#[trigger] rows[i], ix)
                    is Some {
                    Some(
                        Seq::new(
                            (rows.len() - 1) as nat,
                            |i: int| spec_decode_row(rows[i + 1], ix)->0,
                        ),
                    )
                } else {
                    None
                }
            },
            None => None,
        }
    }
}

/// Whether and how the `csv` crate frames a byte stream: the rows of text
/// cells when the bytes are a well-formed CSV stream, and nothing when
/// they are not.
pub uninterp spec fn csv_framing_of(bytes: Seq<u8>) -> Option<Seq<Seq<Seq<char>>>>;

/// Relies on the `csv` crate's `Reader`: reading from an in-memory byte
/// slice with `has_headers(false)` is deterministic in the bytes alone —
/// it yields every record of the input as a row of text fields, or reports
/// the same framing error every time, with no other source of failure.
#[verifier::external_body]
fn read_csv_rows(bytes: &[u8]) -> (r: Result<Vec<Vec<String>>, String>)
    ensures
        r is Ok <==> csv_framing_of(bytes@) is Some,
        r matches Ok(rows) ==> Some(rows.deep_view()) == csv_framing_of(bytes@),
{
    let mut rdr = csv::ReaderBuilder::new().has_headers(false).from_reader(bytes);
    let mut rows: Vec<Vec<String>> = Vec::new();
    for rec in rdr.records() {
        match rec {
            Ok(r) => rows.push(r.iter().map(|f| f.to_string()).collect()),
            Err(e) => return Err(e.to_string()),
        }
    }
    Ok(rows)
}

/// Text rows as grids of text cells.
pub open spec fn text_grid(rows: Seq<Seq<Seq<char>>>) -> Seq<Seq<CellVal>> {
    rows.map_values(|r: Seq<Seq<char>>| r.map_values(|c: Seq<char>| CellVal::Text(c)))
}

/// What a CSV byte stream decodes to: nothing when framing fails or any
/// framed row fails the schema, and the sample list otherwise.
pub open spec fn spec_csv_records(bytes: Seq<u8>) -> Option<Seq<SolarmanRecord>> {
    match csv_framing_of(bytes) {
        Some(rows) => spec_decode_grid(text_grid(rows)),
        None => None,
    }
}

proof fn lemma_first_index_of(h: Seq<CellVal>, name: Seq<char>)
    ensures
        0 <= first_index_of(h, name) <= h.len(),
        first_index_of(h, name) < h.len() ==> cell_is_name(h[first_index_of(h, name)], name),
        forall|j: int| 0 <= j < first_index_of(h, name) ==> !cell_is_name(#[trigger] h[j], name),
    decreases h.len(),
{
    if h.len() > 0 && !cell_is_name(h[0], name) {
        lemma_first_index_of(h.skip(1), name);
        assert forall|j: int| 0 <= j < first_index_of(h, name) implies !cell_is_name(
            #[trigger] h[j],
            name,
        ) by {
            if j > 0 {
                assert(h.skip(1)[j - 1] == h[j]);
            }
        }
    }
}

/// Whether two text slices hold the same characters.
fn str_eq(a: &str, b: &str) -> (r: bool)
    ensures
        r == (a@ == b@),
{
    let an: usize = a.unicode_len();
    let bn: usize = b.unicode_len();
    if an != bn {
        return false;
    }
    let mut i: usize = 0;
    while i < an
        invariant
            0 <= i <= an,
            an == a@.len(),
            an == b@.len(),
            forall|j: int| 0 <= j < i ==> a@[j] == b@[j],
        decreases an - i,
    {
        if a.get_char(i) != b.get_char(i) {
            return false;
        }
        i = i + 1;
    }
    proof {
        assert(a@ =~= b@);
    }
    true
}

/// The first column of the header holding the name, if any.
fn find_col(header: &Vec<Cell>, name: &str) -> (r: Option<usize>)
    ensures
        match r {
            Some(i) => i == first_index_of(header.deep_view(), name@) && i < header@.len(),
            None => first_index_of(header.deep_view(), name@) == header@.len(),
        },
{
    proof {
        lemma_first_index_of(header.deep_view(), name@);
    }
    let ghost h = header.deep_view();
    let mut i: usize = 0;
    while i < header.len()
        invariant
            0 <= i <= header@.len(),
            h == header.deep_view(),
            h.len() == header@.len(),
            forall|j: int| 0 <= j < i ==> !cell_is_name(#[trigger] h[j], name@),
        decreases header@.len() - i,
    {
        let hit: bool = match &header[i] {
            Cell::Text(s) => str_eq(s.as_str(), name),
            _ => false,
        };
        if hit {
            proof {
                lemma_first_index_at(h, name@, i as int);
            }
            return Some(i);
        }
        i = i + 1;
    }
    proof {
        lemma_first_index_at(h, name@, h.len() as int);
    }
    None
}

proof fn lemma_first_index_at(h: Seq<CellVal>, name: Seq<char>, k: int)
    requires
        0 <= k <= h.len(),
        forall|j: int| 0 <= j < k ==> !cell_is_name(#[trigger] h[j], name),
        k < h.len() ==> cell_is_name(h[k], name),
    ensures
        first_index_of(h, name) == k,
    decreases k,
{
    if h.len() > 0 && !cell_is_name(h[0], name) {
        lemma_first_index_at(h.skip(1), name, k - 1);
    }
}

fn decode_value_cell(c: &Cell, lo: i64, hi: i64) -> (r: Option<i64>)
    requires
        -crate::solarman_record::DECIMAL_LIMIT < lo <= hi < crate::solarman_record::DECIMAL_LIMIT,
    ensures
        match r {
            Some(v) => spec_cell_value(c@, lo as int, hi as int) == Some(v as int),
            None => spec_cell_value(c@, lo as int, hi as int) is None,
        },
{
    match c {
        Cell::Empty => Some(0),
        Cell::Number(n) => {
            if lo <= *n && *n <= hi {
                Some(*n)
            } else {
                None
            }
        },
        Cell::Text(s) => crate::solarman_record::decode_cell_in_range(s.as_str(), lo, hi),
    }
}

fn decode_date_cell(c: &Cell) -> (r: Option<Timestamp>)
    ensures
        r == spec_cell_date(c@),
        r matches Some(t) ==> t.valid(),
{
    match c {
        Cell::Text(s) => crate::solarman_record::parse_date(s.as_str()),
        _ => None,
    }
}

/// Decodes one data row under the located columns.
fn decode_row(row: &Vec<Cell>, ix: (usize, usize, usize, usize, usize, usize)) -> (r: Option<
    SolarmanRecord,
>)
    ensures
        r == spec_decode_row(
            row.deep_view(),
            (ix.0 as int, ix.1 as int, ix.2 as int, ix.3 as int, ix.4 as int, ix.5 as int),
        ),
        r matches Some(rec) ==> rec.wf(),
{
    let n: usize = row.len();
    proof {
        assert(row.deep_view().len() == row@.len());
    }
    if !(ix.0 < n && ix.1 < n && ix.2 < n && ix.3 < n && ix.4 < n && ix.5 < n) {
        return None;
    }
    let time = match decode_date_cell(&row[ix.0]) {
        Some(t) => t,
        None => { return None },
    };
    let production = match decode_value_cell(&row[ix.1], 0, u32::MAX as i64) {
        Some(v) => v as u32,
        None => { return None },
    };
    let consumption = match decode_value_cell(&row[ix.2], 0, u32::MAX as i64) {
        Some(v) => v as u32,
        None => { return None },
    };
    let grid = match decode_value_cell(&row[ix.3], i32::MIN as i64, i32::MAX as i64) {
        Some(v) => v as i32,
        None => { return None },
    };
    let battery = match decode_value_cell(&row[ix.4], i32::MIN as i64, i32::MAX as i64) {
        Some(v) => v as i32,
        None => { return None },
    };
    let soc = match decode_value_cell(&row[ix.5], 0, u8::MAX as i64) {
        Some(v) => v as u8,
        None => { return None },
    };
    Some(SolarmanRecord { time, production, consumption, grid, battery, soc })
}

/// Decodes a whole grid of cells into raw samples: the header row's six
/// schema columns are located by name, then every data row is decoded; the
/// first malformed row, or a missing column, fails the grid.
pub fn decode_grid(rows: &Vec<Vec<Cell>>) -> (r: Result<Vec<SolarmanRecord>, SolarError>)
    ensures
        match r {
            Ok(v) => spec_decode_grid(rows.deep_view()) == Some(v@) && forall|i: int|
                0 <= i < v@.len() ==> (#[trigger] v@[i]).wf(),
            Err(e) => spec_decode_grid(rows.deep_view()) is None && e == SolarError::MalformedRow,
        },
{
    let ghost grid = rows.deep_view();
    proof {
        assert(grid.len() == rows@.len());
        assert forall|i: int| 0 <= i < rows@.len() implies grid[i] == (
        #[trigger] rows@[i]).deep_view() by {}
    }
    if rows.len() == 0 {
        let empty: Vec<SolarmanRecord> = Vec::new();
        proof {
            assert(empty@ =~= Seq::<SolarmanRecord>::empty());
        }
        return Ok(empty);
    }
    let header = &rows[0];
    let ti = match find_col(header, "Updated Time") {
        Some(i) => i,
        None => { return Err(SolarError::MalformedRow) },
    };
    let pi = match find_col(header, "Production Power(W)") {
        Some(i) => i,
        None => { return Err(SolarError::MalformedRow) },
    };
    let ci = match find_col(header, "Consumption Power(W)") {
        Some(i) => i,
        None => { return Err(SolarError::MalformedRow) },
    };
    let gi = match find_col(header, "Grid Power(W)") {
        Some(i) => i,
        None => { return Err(SolarError::MalformedRow) },
    };
    let bi = match find_col(header, "Battery Power(W)") {
        Some(i) => i,
        None => { return Err(SolarError::MalformedRow) },
    };
    let si = match find_col(header, "SoC(%)") {
        Some(i) => i,
        None => { return Err(SolarError::MalformedRow) },
    };
    let ix = (ti, pi, ci, gi, bi, si);
    let ghost gix = (ti as int, pi as int, ci as int, gi as int, bi as int, si as int);
    let mut out: Vec<SolarmanRecord> = Vec::new();
    let mut i: usize = 1;
    while i < rows.len()
        invariant
            1 <= i <= rows@.len(),
            grid == rows.deep_view(),
            grid.len() == rows@.len(),
            spec_cols(grid[0]) == Some(gix),
            gix == (ix.0 as int, ix.1 as int, ix.2 as int, ix.3 as int, ix.4 as int, ix.5 as int),
            out@.len() == i - 1,
            forall|k: int|
                1 <= k < i ==> spec_decode_row(#[trigger] grid[k], gix) is Some,
            forall|k: int|
                0 <= k < i - 1 ==> #[trigger] out@[k] == spec_decode_row(grid[k + 1], gix)->0
                    && out@[k].wf(),
        decreases rows@.len() - i,
    {
        proof {
            assert(grid[i as int] == rows@[i as int].deep_view());
        }
        match decode_row(&rows[i], ix) {
            Some(rec) => {
                out.push(rec);
            },
            None => {
                return Err(SolarError::MalformedRow);
            },
        }
        i = i + 1;
    }
    proof {
        let v = spec_decode_grid(grid)->0;
        assert(out@ =~= v);
    }
    Ok(out)
}

/// Turns framed text rows into a grid of text cells.
pub fn rows_to_cells(rows: Vec<Vec<String>>) -> (r: Vec<Vec<Cell>>)
    ensures
        r.deep_view() == text_grid(rows.deep_view()),
{
    let ghost orig = rows.deep_view();
    let mut grid: Vec<Vec<Cell>> = Vec::new();
    let mut i: usize = 0;
    while i < rows.len()
        invariant
            0 <= i <= rows@.len(),
            orig == rows.deep_view(),
            orig.len() == rows@.len(),
            grid@.len() == i,
            forall|k: int|
                0 <= k < i ==> (#[trigger] grid@[k]).deep_view() == text_grid(orig)[k],
        decreases rows@.len() - i,
    {
        let row = &rows[i];
        let mut cells: Vec<Cell> = Vec::new();
        let mut j: usize = 0;
        while j < row.len()
            invariant
                0 <= j <= row@.len(),
                cells@.len() == j,
                forall|k: int|
                    0 <= k < j ==> (#[trigger] cells@[k]).deep_view() == CellVal::Text(
                        row@[k].deep_view(),
                    ),
            decreases row@.len() - j,
        {
            cells.push(Cell::Text(row[j].clone()));
            j = j + 1;
        }
        proof {
            assert(cells.deep_view() =~= text_grid(orig)[i as int]) by {
                assert(orig[i as int] == rows@[i as int].deep_view());
            }
        }
        grid.push(cells);
        i = i + 1;
    }
    proof {
        assert(grid.deep_view() =~= text_grid(orig));
    }
    grid
}

/// Parses a CSV export from its bytes into raw samples: the `csv` crate
/// frames the bytes into rows, and the verified schema decode does the
/// rest. The parse succeeds exactly when framing succeeds and every framed
/// row decodes, and then returns exactly the decoded samples.
pub fn parse_csv_bytes(bytes: &[u8]) -> (r: Result<Vec<SolarmanRecord>, SolarError>)
    ensures
        match r {
            Ok(v) => spec_csv_records(bytes@) == Some(v@) && forall|i: int|
                0 <= i < v@.len() ==> (#[trigger] v@[i]).wf(),
            Err(e) => spec_csv_records(bytes@) is None && e == SolarError::MalformedRow,
        },
{
    let rows = match read_csv_rows(bytes) {
        Ok(rows) => rows,
        Err(_) => { return Err(SolarError::MalformedRow) },
    };
    let grid = rows_to_cells(rows);
    decode_grid(&grid)
}

/// The kind of export file a name points at, by its extension.
#[derive(Clone, Copy, Debug, PartialEq, Eq, Structural)]
pub enum FileKind {
    Csv,
    Sheet,
    Other,
}

pub open spec fn ends_with(s: Seq<char>, suffix: Seq<char>) -> bool {
    s.len() >= suffix.len() && s.skip(s.len() - suffix.len()) == suffix
}

/// How a file name is dispatched: `.csv` to the CSV reader, `.xlsx` and
/// `.xls` to the spreadsheet reader, anything else skipped. A name that is
/// nothing but the extension has no stem and is skipped.
pub open spec fn spec_file_kind(name: Seq<char>) -> FileKind {
    if name.len() > 4 && ends_with(name, ".csv"@) {
        FileKind::Csv
    } else if (name.len() > 5 && ends_with(name, ".xlsx"@)) || (name.len() > 4 && ends_with(
        name,
        ".xls"@,
    )) {
        FileKind::Sheet
    } else {
        FileKind::Other
    }
}

fn str_ends_with(s: &str, suffix: &str) -> (r: bool)
    ensures
        r == ends_with(s@, suffix@),
{
    let n: usize = s.unicode_len();
    let m: usize = suffix.unicode_len();
    if n < m {
        return false;
    }
    let mut i: usize = 0;
    while i < m
        invariant
            0 <= i <= m,
            m <= n,
            n == s@.len(),
            m == suffix@.len(),
            forall|j: int| 0 <= j < i ==> s@[n - m + j] == suffix@[j],
        decreases m - i,
    {
        if s.get_char(n - m + i) != suffix.get_char(i) {
            proof {
                assert(s@.skip(n - m)[i as int] != suffix@[i as int]);
            }
            return false;
        }
        i = i + 1;
    }
    proof {
        assert(s@.skip(n - m) =~= suffix@);
    }
    true
}

/// Classifies a file name by its extension.
pub fn spreadsheet_kind(name: &str) -> (r: FileKind)
    ensures
        r == spec_file_kind(name@),
{
    proof {
        reveal_strlit(".csv");
        reveal_strlit(".xlsx");
        reveal_strlit(".xls");
    }
    if name.unicode_len() > 4 && str_ends_with(name, ".csv") {
        FileKind::Csv
    } else if (name.unicode_len() > 5 && str_ends_with(name, ".xlsx")) || (name.unicode_len() > 4
        && str_ends_with(name, ".xls")) {
        FileKind::Sheet
    } else {
        FileKind::Other
    }
}

/// One export file handed in by the caller: its name and its content,
/// already framed for spreadsheets.
pub enum SourceContent {
    /// The raw bytes of a CSV file.
    CsvBytes(Vec<u8>),
    /// The cell grid of a spreadsheet worksheet.
    Sheet(Vec<Vec<Cell>>),
}

pub struct Source {
    pub name: String,
    pub content: SourceContent,
}

impl Source {
    /// What this source decodes to, and whether it decodes at all.
    pub open spec fn spec_records(self) -> Option<Seq<SolarmanRecord>> {
        match self.content {
            SourceContent::CsvBytes(b) => spec_csv_records(b@),
            SourceContent::Sheet(g) => spec_decode_grid(g.deep_view()),
        }
    }
}

/// What a list of sources decodes to when every one of them does: their
/// sample lists concatenated in order.
pub open spec fn spec_sources_records(ss: Seq<Source>) -> Option<Seq<SolarmanRecord>>
    decreases ss.len(),
{
    if ss.len() == 0 {
        Some(Seq::<SolarmanRecord>::empty())
    } else {
        match (ss[0].spec_records(), spec_sources_records(ss.skip(1))) {
            (Some(first), Some(rest)) => Some(first + rest),
            _ => None,
        }
    }
}

proof fn lemma_sources_records_snoc(ss: Seq<Source>, i: int)
    requires
        0 <= i < ss.len(),
        spec_sources_records(ss.take(i)) is Some,
        ss[i].spec_records() is Some,
    ensures
        spec_sources_records(ss.take(i + 1)) == Some(
            spec_sources_records(ss.take(i))->0 + ss[i].spec_records()->0,
        ),
    decreases i,
{
    if i == 0 {
        assert(ss.take(1)[0] == ss[0]);
        assert(ss.take(1).skip(1) =~= Seq::<Source>::empty());
        assert(spec_sources_records(Seq::<Source>::empty()) == Some(
            Seq::<SolarmanRecord>::empty(),
        ));
        assert(ss[0].spec_records()->0 + Seq::<SolarmanRecord>::empty() =~= ss[0].spec_records()->0);
        assert(spec_sources_records(ss.take(0))->0 + ss[0].spec_records()->0 =~= ss[
            0
        ].spec_records()->0);
    } else {
        let s1 = ss.skip(1);
        assert(ss.take(i + 1).skip(1) =~= s1.take(i));
        assert(ss.take(i).skip(1) =~= s1.take(i - 1));
        assert(ss.take(i + 1)[0] == ss[0]);
        assert(ss.take(i)[0] == ss[0]);
        assert(s1[i - 1] == ss[i]);
        lemma_sources_records_snoc(s1, i - 1);
        assert(ss[0].spec_records()->0 + (spec_sources_records(s1.take(i - 1))->0 + ss[
            i
        ].spec_records()->0) =~= (ss[0].spec_records()->0 + spec_sources_records(
            s1.take(i - 1),
        )->0) + ss[i].spec_records()->0);
    }
}

/// A source that fails to decode fails every list it stands in.
proof fn lemma_sources_none(ss: Seq<Source>, i: int)
    requires
        0 <= i < ss.len(),
        ss[i].spec_records() is None,
    ensures
        spec_sources_records(ss) is None,
    decreases i,
{
    if i > 0 {
        assert(ss.skip(1)[i - 1] == ss[i]);
        lemma_sources_none(ss.skip(1), i - 1);
    }
}

/// Decodes every source and concatenates their samples in order. The scan
/// succeeds exactly when every source decodes, and fails on the first one
/// that does not, returning no partial list.
pub fn ingest_sources(sources: &Vec<Source>) -> (r: Result<Vec<SolarmanRecord>, SolarError>)
    ensures
        match r {
            Ok(v) => {
                &&& spec_sources_records(sources@) == Some(v@)
                &&& forall|i: int| 0 <= i < v@.len() ==> (#[trigger] v@[i]).wf()
            },
            Err(e) => spec_sources_records(sources@) is None && e == SolarError::MalformedRow,
        },
{
    let mut out: Vec<SolarmanRecord> = Vec::new();
    let mut i: usize = 0;
    proof {
        assert(sources@.take(0) =~= Seq::<Source>::empty());
    }
    while i < sources.len()
        invariant
            0 <= i <= sources@.len(),
            spec_sources_records(sources@.take(i as int)) == Some(out@),
            forall|k: int| 0 <= k < out@.len() ==> (#[trigger] out@[k]).wf(),
        decreases sources@.len() - i,
    {
        let decoded: Vec<SolarmanRecord> = match &sources[i].content {
            SourceContent::CsvBytes(b) => {
                match parse_csv_bytes(b.as_slice()) {
                    Ok(v) => v,
                    Err(e) => {
                        proof {
                            lemma_sources_none(sources@, i as int);
                        }
                        return Err(e);
                    },
                }
            },
            SourceContent::Sheet(g) => {
                match decode_grid(g) {
                    Ok(v) => v,
                    Err(e) => {
                        proof {
                            lemma_sources_none(sources@, i as int);
                        }
                        return Err(e);
                    },
                }
            },
        };
        proof {
            assert(sources@[i as int].spec_records() == Some(decoded@));
            lemma_sources_records_snoc(sources@, i as int);
        }
        let mut j: usize = 0;
        let ghost before = out@;
        while j < decoded.len()
            invariant
                0 <= j <= decoded@.len(),
                out@ == before + decoded@.take(j as int),
                forall|k: int| 0 <= k < decoded@.len() ==> (#[trigger] decoded@[k]).wf(),
                forall|k: int| 0 <= k < out@.len() ==> (#[trigger] out@[k]).wf(),
            decreases decoded@.len() - j,
        {
            proof {
                assert(before + decoded@.take(j + 1) =~= (before + decoded@.take(j as int)).push(
                    decoded@[j as int],
                ));
            }
            out.push(decoded[j]);
            j = j + 1;
        }
        proof {
            assert(out@ =~= before + decoded@);
        }
        i = i + 1;
    }
    proof {
        assert(sources@.take(sources@.len() as int) =~= sources@);
    }
    Ok(out)
}

} // verus!
