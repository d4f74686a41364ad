//! Records read from the sheets of a workbook.
//!
//! The first row of a sheet names its columns; the names are trimmed and
//! compared in lowercase. Each further row with a name is a record. A
//! column that the sheet lacks stands for no value.

use crate::cli::ResourceType;
use crate::input::csv::split_semi;
use crate::input::models::{
    list_values, InputEpic, InputEpicView, InputFile, InputFileView, InputObjective,
    InputObjectiveView, InputStory, InputStoryView,
};
use crate::text::{
    contains, decimal_i64, has_substring, int_text, lowercased, opt_text, parse_i64, parsed_i64,
    texts, to_lowercase, trim, trimmed,
};
use vstd::hash_map::StringHashMap;
use vstd::prelude::*;
use vstd::string::*;

verus! {

/// What a cell of a sheet holds.
#[derive(Debug, Clone)]
pub enum Cell {
    /// A text.
    Text(String),
    /// A number with a fraction: `shown` is the number as it is displayed,
    /// `whole` is the number cut off at the point.
    Float { shown: String, whole: i64 },
    /// A whole number.
    Int(i64),
    /// A truth value.
    Bool(bool),
    /// Nothing, or a value that no record takes: a date, a duration, an
    /// error.
    Other,
}

pub enum CellView {
    Text(Seq<char>),
    Float { shown: Seq<char>, whole: i64 },
    Int(i64),
    Bool(bool),
    Other,
}

impl View for Cell {
    type V = CellView;

    open spec fn view(&self) -> CellView {
        match *self {
            Cell::Text(s) => CellView::Text(s@),
            Cell::Float { shown, whole } => CellView::Float { shown: shown@, whole },
            Cell::Int(i) => CellView::Int(i),
            Cell::Bool(b) => CellView::Bool(b),
            Cell::Other => CellView::Other,
        }
    }
}

/// The views of the cells of a row.
pub open spec fn row_view(row: Vec<Cell>) -> Seq<CellView> {
    row@.map_values(|c: Cell| c@)
}

/// The views of the rows of a sheet.
pub open spec fn rows_view(rows: Seq<Vec<Cell>>) -> Seq<Seq<CellView>> {
    rows.map_values(|r: Vec<Cell>| row_view(r))
}

/// A sheet: its name and its rows, the header first.
#[derive(Debug, Clone)]
pub struct Sheet {
    pub name: String,
    pub rows: Vec<Vec<Cell>>,
}

pub struct SheetView {
    pub name: Seq<char>,
    pub rows: Seq<Seq<CellView>>,
}

impl View for Sheet {
    type V = SheetView;

    open spec fn view(&self) -> SheetView {
        SheetView { name: self.name@, rows: rows_view(self.rows@) }
    }
}

/// The views of the sheets of a workbook.
pub open spec fn sheet_views(sheets: Seq<Sheet>) -> Seq<SheetView> {
    sheets.map_values(|s: Sheet| s@)
}

/// The text of the cell at `idx` of `row`: a text trimmed, a number as it
/// is displayed, a truth value as `true` or `false`, and the empty text for
/// anything else and for a cell that the row lacks.
pub open spec fn cell_text(row: Seq<CellView>, idx: int) -> Seq<char> {
    if 0 <= idx < row.len() {
        match row[idx] {
            CellView::Text(s) => trimmed(s),
            CellView::Float { shown, whole } => shown,
            CellView::Int(i) => int_text(i as int),
            CellView::Bool(b) => if b {
                "true"@
            } else {
                "false"@
            },
            CellView::Other => Seq::empty(),
        }
    } else {
        Seq::empty()
    }
}

/// The text of the cell at `idx` of `row`.
pub fn cell_str(row: &Vec<Cell>, idx: usize) -> (r: String)
    ensures
        r@ == cell_text(row_view(*row), idx as int),
{
    if idx < row.len() {
        match &row[idx] {
            Cell::Text(s) => trim(s.as_str()).to_owned(),
            Cell::Float { shown, whole } => shown.clone(),
            Cell::Int(i) => decimal_i64(*i),
            Cell::Bool(b) => if *b {
                "true".to_owned()
            } else {
                "false".to_owned()
            },
            Cell::Other => String::new(),
        }
    } else {
        String::new()
    }
}

/// The value of the cell at `idx` of `row`: its text, or nothing if that
/// is empty.
pub open spec fn cell_opt_text(row: Seq<CellView>, idx: int) -> Option<Seq<char>> {
    if cell_text(row, idx).len() == 0 {
        None
    } else {
        Some(cell_text(row, idx))
    }
}

/// The value of the cell at `idx` of `row`.
pub fn opt_cell(row: &Vec<Cell>, idx: usize) -> (r: Option<String>)
    ensures
        opt_text(r) == cell_opt_text(row_view(*row), idx as int),
{
    let s = cell_str(row, idx);
    if s.as_str().is_empty() {
        None
    } else {
        Some(s)
    }
}

/// The whole number in the cell at `idx` of `row`: the number itself, a
/// number with a fraction cut off at the point, or the number that a text
/// writes once trimmed.
pub open spec fn cell_number(row: Seq<CellView>, idx: int) -> Option<i64> {
    if 0 <= idx < row.len() {
        match row[idx] {
            CellView::Float { shown, whole } => Some(whole),
            CellView::Int(i) => Some(i),
            CellView::Text(s) => parsed_i64(trimmed(s)),
            _ => None,
        }
    } else {
        None
    }
}

/// The whole number in the cell at `idx` of `row`.
pub fn opt_cell_i64(row: &Vec<Cell>, idx: usize) -> (r: Option<i64>)
    ensures
        r == cell_number(row_view(*row), idx as int),
{
    if idx < row.len() {
        match &row[idx] {
            Cell::Float { shown, whole } => Some(*whole),
            Cell::Int(i) => Some(*i),
            Cell::Text(s) => parse_i64(trim(s.as_str())),
            _ => None,
        }
    } else {
        None
    }
}

/// From the name of each column to its place; of two columns with one name
/// the later one is kept. Only a cell that holds a text names a column.
pub open spec fn header_table(first: Seq<CellView>) -> Map<Seq<char>, usize>
    decreases first.len(),
{
    if first.len() == 0 {
        Map::empty()
    } else {
        let before = header_table(first.drop_last());
        match first.last() {
            CellView::Text(s) => before.insert(
                lowercased(trimmed(s)),
                (first.len() - 1) as usize,
            ),
            _ => before,
        }
    }
}

/// The header of a sheet: its first row, or no cell if it has no row.
pub open spec fn header_row(rows: Seq<Seq<CellView>>) -> Seq<CellView> {
    if rows.len() > 0 {
        rows[0]
    } else {
        Seq::empty()
    }
}

/// From the name of each column of a sheet to its place.
pub fn headers(rows: &Vec<Vec<Cell>>) -> (r: StringHashMap<usize>)
    ensures
        r@ == header_table(header_row(rows_view(rows@))),
{
    let mut table: StringHashMap<usize> = StringHashMap::new();
    if rows.len() > 0 {
        let first = &rows[0];
        let ghost cells = row_view(*first);
        let mut i: usize = 0;
        proof {
            assert(cells.take(0).len() == 0);
        }
        while i < first.len()
            invariant
                i <= first.len(),
                cells == row_view(*first),
                table@ == header_table(cells.take(i as int)),
            decreases first.len() - i,
        {
            proof {
                assert(cells.take(i + 1).drop_last() == cells.take(i as int));
                assert(cells.take(i + 1).last() == first@[i as int]@);
            }
            match &first[i] {
                Cell::Text(s) => {
                    table.insert(to_lowercase(trim(s.as_str())), i);
                },
                _ => {},
            }
            i = i + 1;
        }
        proof {
            assert(cells.take(first.len() as int) == cells);
        }
    }
    table
}

/// The value of the column `key` in `row`, if the sheet has the column.
pub open spec fn column_value(
    hdr: Map<Seq<char>, usize>,
    key: Seq<char>,
    row: Seq<CellView>,
) -> Option<Seq<char>> {
    if hdr.contains_key(key) {
        cell_opt_text(row, hdr[key] as int)
    } else {
        None
    }
}

/// The values of the column `key` in `row`, separated by semicolons, if
/// the sheet has the column.
pub open spec fn column_values(
    hdr: Map<Seq<char>, usize>,
    key: Seq<char>,
    row: Seq<CellView>,
) -> Seq<Seq<char>> {
    if hdr.contains_key(key) {
        list_values(cell_text(row, hdr[key] as int), ';')
    } else {
        Seq::empty()
    }
}

/// The whole number of the column `key` in `row`, if the sheet has the
/// column.
pub open spec fn column_number(
    hdr: Map<Seq<char>, usize>,
    key: Seq<char>,
    row: Seq<CellView>,
) -> Option<i64> {
    if hdr.contains_key(key) {
        cell_number(row, hdr[key] as int)
    } else {
        None
    }
}

fn value_at(hdr: &StringHashMap<usize>, key: &str, row: &Vec<Cell>) -> (r: Option<String>)
    ensures
        opt_text(r) == column_value(hdr@, key@, row_view(*row)),
{
    match hdr.get(key) {
        Some(idx) => opt_cell(row, *idx),
        None => None,
    }
}

fn values_at(hdr: &StringHashMap<usize>, key: &str, row: &Vec<Cell>) -> (r: Vec<String>)
    ensures
        texts(r@) == column_values(hdr@, key@, row_view(*row)),
{
    match hdr.get(key) {
        Some(idx) => split_semi(cell_str(row, *idx).as_str()),
        None => {
            let r: Vec<String> = Vec::new();
            proof {
                assert(texts(r@) =~= Seq::<Seq<char>>::empty());
            }
            r
        },
    }
}

fn number_at(hdr: &StringHashMap<usize>, key: &str, row: &Vec<Cell>) -> (r: Option<i64>)
    ensures
        r == column_number(hdr@, key@, row_view(*row)),
{
    match hdr.get(key) {
        Some(idx) => opt_cell_i64(row, *idx),
        None => None,
    }
}

/// The objective that a row stands for.
pub open spec fn objective_of_cells(
    hdr: Map<Seq<char>, usize>,
    name_col: int,
    row: Seq<CellView>,
) -> InputObjectiveView {
    InputObjectiveView {
        name: cell_text(row, name_col),
        description: column_value(hdr, "description"@, row),
        state: column_value(hdr, "state"@, row),
    }
}

/// The epic that a row stands for.
pub open spec fn epic_of_cells(hdr: Map<Seq<char>, usize>, name_col: int, row: Seq<CellView>)
    -> InputEpicView {
    InputEpicView {
        name: cell_text(row, name_col),
        description: column_value(hdr, "description"@, row),
        objective: column_value(hdr, "objective"@, row),
        owners: column_values(hdr, "owners"@, row),
        teams: column_values(hdr, "teams"@, row),
        labels: column_values(hdr, "labels"@, row),
        state: column_value(hdr, "state"@, row),
        start_date: column_value(hdr, "start_date"@, row),
        deadline: column_value(hdr, "deadline"@, row),
        template: column_value(hdr, "template"@, row),
    }
}

/// The story that a row stands for.
pub open spec fn story_of_cells(hdr: Map<Seq<char>, usize>, name_col: int, row: Seq<CellView>)
    -> InputStoryView {
    InputStoryView {
        name: cell_text(row, name_col),
        story_type: column_value(hdr, "type"@, row),
        description: column_value(hdr, "description"@, row),
        epic: column_value(hdr, "epic"@, row),
        owners: column_values(hdr, "owners"@, row),
        team: column_value(hdr, "team"@, row),
        labels: column_values(hdr, "labels"@, row),
        estimate: column_number(hdr, "estimate"@, row),
        due_date: column_value(hdr, "due_date"@, row),
        workflow_state: column_value(hdr, "workflow_state"@, row),
    }
}

/// The objectives of the rows `rows`, which follow the header: one for
/// each row that has a name.
pub open spec fn objectives_of_rows(
    hdr: Map<Seq<char>, usize>,
    name_col: int,
    rows: Seq<Seq<CellView>>,
) -> Seq<InputObjectiveView>
    decreases rows.len(),
{
    if rows.len() == 0 {
        Seq::empty()
    } else {
        let before = objectives_of_rows(hdr, name_col, rows.drop_last());
        if cell_text(rows.last(), name_col).len() == 0 {
            before
        } else {
            before.push(objective_of_cells(hdr, name_col, rows.last()))
        }
    }
}

/// The epics of the rows `rows`, which follow the header: one for each row
/// that has a name.
pub open spec fn epics_of_rows(
    hdr: Map<Seq<char>, usize>,
    name_col: int,
    rows: Seq<Seq<CellView>>,
) -> Seq<InputEpicView>
    decreases rows.len(),
{
    if rows.len() == 0 {
        Seq::empty()
    } else {
        let before = epics_of_rows(hdr, name_col, rows.drop_last());
        if cell_text(rows.last(), name_col).len() == 0 {
            before
        } else {
            before.push(epic_of_cells(hdr, name_col, rows.last()))
        }
    }
}

/// The stories of the rows `rows`, which follow the header: one for each
/// row that has a name.
pub open spec fn stories_of_rows(
    hdr: Map<Seq<char>, usize>,
    name_col: int,
    rows: Seq<Seq<CellView>>,
) -> Seq<InputStoryView>
    decreases rows.len(),
{
    if rows.len() == 0 {
        Seq::empty()
    } else {
        let before = stories_of_rows(hdr, name_col, rows.drop_last());
        if cell_text(rows.last(), name_col).len() == 0 {
            before
        } else {
            before.push(story_of_cells(hdr, name_col, rows.last()))
        }
    }
}

/// The message for a sheet without a column of names.
pub open spec fn missing_name_text() -> Seq<char> {
    "Missing 'name' column"@
}

/// The rows of a sheet behind its header.
pub open spec fn body_rows(rows: Seq<Seq<CellView>>) -> Seq<Seq<CellView>> {
    if rows.len() > 0 {
        rows.skip(1)
    } else {
        Seq::empty()
    }
}

/// The objectives of a sheet, or the message that it has no column of
/// names.
pub open spec fn objectives_of_sheet(rows: Seq<Seq<CellView>>) -> Result<
    Seq<InputObjectiveView>,
    Seq<char>,
> {
    let hdr = header_table(header_row(rows));
    if hdr.contains_key("name"@) {
        Ok(objectives_of_rows(hdr, hdr["name"@] as int, body_rows(rows)))
    } else {
        Err(missing_name_text())
    }
}

/// The epics of a sheet, or the message that it has no column of names.
pub open spec fn epics_of_sheet(rows: Seq<Seq<CellView>>) -> Result<Seq<InputEpicView>, Seq<char>> {
    let hdr = header_table(header_row(rows));
    if hdr.contains_key("name"@) {
        Ok(epics_of_rows(hdr, hdr["name"@] as int, body_rows(rows)))
    } else {
        Err(missing_name_text())
    }
}

/// The stories of a sheet, or the message that it has no column of names.
pub open spec fn stories_of_sheet(rows: Seq<Seq<CellView>>) -> Result<
    Seq<InputStoryView>,
    Seq<char>,
> {
    let hdr = header_table(header_row(rows));
    if hdr.contains_key("name"@) {
        Ok(stories_of_rows(hdr, hdr["name"@] as int, body_rows(rows)))
    } else {
        Err(missing_name_text())
    }
}

/// The views of the objectives of `v`.
pub open spec fn objective_views(v: Seq<InputObjective>) -> Seq<InputObjectiveView> {
    v.map_values(|o: InputObjective| o@)
}

/// The views of the epics of `v`.
pub open spec fn epic_views(v: Seq<InputEpic>) -> Seq<InputEpicView> {
    v.map_values(|e: InputEpic| e@)
}

/// The views of the stories of `v`.
pub open spec fn story_views(v: Seq<InputStory>) -> Seq<InputStoryView> {
    v.map_values(|s: InputStory| s@)
}

/// The rows behind the header, up to row `i`, are those up to row `i - 1`
/// and row `i - 1`.
proof fn lemma_body_step(rows: Seq<Seq<CellView>>, i: int)
    requires
        1 <= i < rows.len(),
    ensures
        rows.subrange(1, i + 1).drop_last() == rows.subrange(1, i),
        rows.subrange(1, i + 1).last() == rows[i],
        rows.subrange(1, rows.len() as int) == body_rows(rows),
{
    assert(rows.subrange(1, i + 1).drop_last() =~= rows.subrange(1, i));
    assert(rows.subrange(1, rows.len() as int) =~= rows.skip(1));
}

/// The objectives of a sheet.
pub fn objectives_from_range(rows: &Vec<Vec<Cell>>) -> (r: Result<Vec<InputObjective>, String>)
    ensures
        match r {
            Ok(list) => objectives_of_sheet(rows_view(rows@)) == Ok::<
                Seq<InputObjectiveView>,
                Seq<char>,
            >(objective_views(list@)),
            Err(e) => objectives_of_sheet(rows_view(rows@)) == Err::<
                Seq<InputObjectiveView>,
                Seq<char>,
            >(e@),
        },
{
    let hdr = headers(rows);
    let name_col = match hdr.get("name") {
        Some(idx) => *idx,
        None => return Err("Missing 'name' column".to_owned()),
    };
    let ghost all = rows_view(rows@);
    let mut out: Vec<InputObjective> = Vec::new();
    let mut i: usize = 1;
    proof {
        assert(all.subrange(1, 1).len() == 0);
        assert(objective_views(out@) =~= Seq::<InputObjectiveView>::empty());
    }
    while i < rows.len()
        invariant
            1 <= i,
            rows.len() > 0 ==> i <= rows.len(),
            all == rows_view(rows@),
            hdr@ == header_table(header_row(all)),
            objective_views(out@) == objectives_of_rows(
                hdr@,
                name_col as int,
                all.subrange(1, i as int),
            ),
        decreases rows.len() - i,
    {
        let row = &rows[i];
        proof {
            lemma_body_step(all, i as int);
            assert(all[i as int] == row_view(*row));
        }
        let name = cell_str(row, name_col);
        if !name.as_str().is_empty() {
            let record = InputObjective {
                name,
                description: value_at(&hdr, "description", row),
                state: value_at(&hdr, "state", row),
            };
            proof {
                assert(objective_views(out@.push(record)) =~= objective_views(out@).push(
                    record@,
                ));
            }
            out.push(record);
        }
        i = i + 1;
    }
    proof {
        if rows.len() > 0 {
            assert(all.subrange(1, rows.len() as int) =~= all.skip(1));
        }
    }
    Ok(out)
}

/// The epics of a sheet.
pub fn epics_from_range(rows: &Vec<Vec<Cell>>) -> (r: Result<Vec<InputEpic>, String>)
    ensures
        match r {
            Ok(list) => epics_of_sheet(rows_view(rows@)) == Ok::<Seq<InputEpicView>, Seq<char>>(
                epic_views(list@),
            ),
            Err(e) => epics_of_sheet(rows_view(rows@)) == Err::<Seq<InputEpicView>, Seq<char>>(e@),
        },
{
    let hdr = headers(rows);
    let name_col = match hdr.get("name") {
        Some(idx) => *idx,
        None => return Err("Missing 'name' column".to_owned()),
    };
    let ghost all = rows_view(rows@);
    let mut out: Vec<InputEpic> = Vec::new();
    let mut i: usize = 1;
    proof {
        assert(all.subrange(1, 1).len() == 0);
        assert(epic_views(out@) =~= Seq::<InputEpicView>::empty());
    }
    while i < rows.len()
        invariant
            1 <= i,
            rows.len() > 0 ==> i <= rows.len(),
            all == rows_view(rows@),
            hdr@ == header_table(header_row(all)),
            epic_views(out@) == epics_of_rows(hdr@, name_col as int, all.subrange(1, i as int)),
        decreases rows.len() - i,
    {
        let row = &rows[i];
        proof {
            lemma_body_step(all, i as int);
            assert(all[i as int] == row_view(*row));
        }
        let name = cell_str(row, name_col);
        if !name.as_str().is_empty() {
            let record = InputEpic {
                name,
                description: value_at(&hdr, "description", row),
                objective: value_at(&hdr, "objective", row),
                owners: values_at(&hdr, "owners", row),
                teams: values_at(&hdr, "teams", row),
                labels: values_at(&hdr, "labels", row),
                state: value_at(&hdr, "state", row),
                start_date: value_at(&hdr, "start_date", row),
                deadline: value_at(&hdr, "deadline", row),
                template: value_at(&hdr, "template", row),
            };
            proof {
                assert(epic_views(out@.push(record)) =~= epic_views(out@).push(record@));
            }
            out.push(record);
        }
        i = i + 1;
    }
    proof {
        if rows.len() > 0 {
            assert(all.subrange(1, rows.len() as int) =~= all.skip(1));
        }
    }
    Ok(out)
}

/// The stories of a sheet.
pub fn stories_from_range(rows: &Vec<Vec<Cell>>) -> (r: Result<Vec<InputStory>, String>)
    ensures
        match r {
            Ok(list) => stories_of_sheet(rows_view(rows@)) == Ok::<Seq<InputStoryView>, Seq<char>>(
                story_views(list@),
            ),
            Err(e) => stories_of_sheet(rows_view(rows@)) == Err::<Seq<InputStoryView>, Seq<char>>(
                e@,
            ),
        },
{
    let hdr = headers(rows);
    let name_col = match hdr.get("name") {
        Some(idx) => *idx,
        None => return Err("Missing 'name' column".to_owned()),
    };
    let ghost all = rows_view(rows@);
    let mut out: Vec<InputStory> = Vec::new();
    let mut i: usize = 1;
    proof {
        assert(all.subrange(1, 1).len() == 0);
        assert(story_views(out@) =~= Seq::<InputStoryView>::empty());
    }
    while i < rows.len()
        invariant
            1 <= i,
            rows.len() > 0 ==> i <= rows.len(),
            all == rows_view(rows@),
            hdr@ == header_table(header_row(all)),
            story_views(out@) == stories_of_rows(hdr@, name_col as int, all.subrange(1, i as int)),
        decreases rows.len() - i,
    {
        let row = &rows[i];
        proof {
            lemma_body_step(all, i as int);
            assert(all[i as int] == row_view(*row));
        }
        let name = cell_str(row, name_col);
        if !name.as_str().is_empty() {
            let record = InputStory {
                name,
                story_type: value_at(&hdr, "type", row),
                description: value_at(&hdr, "description", row),
                epic: value_at(&hdr, "epic", row),
                owners: values_at(&hdr, "owners", row),
                team: value_at(&hdr, "team", row),
                labels: values_at(&hdr, "labels", row),
                estimate: number_at(&hdr, "estimate", row),
                due_date: value_at(&hdr, "due_date", row),
                workflow_state: value_at(&hdr, "workflow_state", row),
            };
            proof {
                assert(story_views(out@.push(record)) =~= story_views(out@).push(record@));
            }
            out.push(record);
        }
        i = i + 1;
    }
    proof {
        if rows.len() > 0 {
            assert(all.subrange(1, rows.len() as int) =~= all.skip(1));
        }
    }
    Ok(out)
}

/// The kind of records that a sheet holds, told by its name: objectives
/// if the name, in lowercase, holds "objective"; else epics if it holds
/// "epic"; else stories if it holds "stor"; else none.
pub open spec fn sheet_kind(name: Seq<char>) -> Option<ResourceType> {
    let lower = lowercased(name);
    if has_substring(lower, "objective"@) {
        Some(ResourceType::Objective)
    } else if has_substring(lower, "epic"@) {
        Some(ResourceType::Epic)
    } else if has_substring(lower, "stor"@) {
        Some(ResourceType::Story)
    } else {
        None
    }
}

/// The kind of records that a sheet of this name holds.
pub fn kind_of_sheet(name: &str) -> (r: Option<ResourceType>)
    ensures
        r == sheet_kind(name@),
{
    let lower = to_lowercase(name);
    if contains(lower.as_str(), "objective") {
        Some(ResourceType::Objective)
    } else if contains(lower.as_str(), "epic") {
        Some(ResourceType::Epic)
    } else if contains(lower.as_str(), "stor") {
        Some(ResourceType::Story)
    } else {
        None
    }
}

/// The batch without records.
pub open spec fn empty_batch() -> InputFileView {
    InputFileView { objectives: Seq::empty(), epics: Seq::empty(), stories: Seq::empty() }
}

/// `batch` with the records of `rows`, read as records of kind `kind`, in
/// place of those it had of that kind; or the message of a sheet that
/// cannot be read.
pub open spec fn with_records(batch: InputFileView, kind: ResourceType, rows: Seq<Seq<CellView>>)
    -> Result<InputFileView, Seq<char>> {
    match kind {
        ResourceType::Objective => match objectives_of_sheet(rows) {
            Ok(objectives) => Ok(InputFileView { objectives, ..batch }),
            Err(e) => Err(e),
        },
        ResourceType::Epic => match epics_of_sheet(rows) {
            Ok(epics) => Ok(InputFileView { epics, ..batch }),
            Err(e) => Err(e),
        },
        ResourceType::Story => match stories_of_sheet(rows) {
            Ok(stories) => Ok(InputFileView { stories, ..batch }),
            Err(e) => Err(e),
        },
    }
}

/// What the sheets of a workbook give when each is read by its name: the
/// batch, and whether any sheet was recognised. A later sheet of one kind
/// replaces an earlier one; the first sheet that cannot be read ends the
/// reading with its message.
pub open spec fn sheets_batch(sheets: Seq<SheetView>) -> Result<(InputFileView, bool), Seq<char>>
    decreases sheets.len(),
{
    if sheets.len() == 0 {
        Ok((empty_batch(), false))
    } else {
        match sheets_batch(sheets.drop_last()) {
            Err(e) => Err(e),
            Ok((batch, matched)) => match sheet_kind(sheets.last().name) {
                None => Ok((batch, matched)),
                Some(kind) => match with_records(batch, kind, sheets.last().rows) {
                    Ok(next) => Ok((next, true)),
                    Err(e) => Err(e),
                },
            },
        }
    }
}

/// The message for a workbook of which no sheet was recognised.
pub open spec fn no_sheet_text(path: Seq<char>) -> Seq<char> {
    "No recognized sheet names in '"@ + path
        + "'. Name sheets 'Objectives', 'Epics', or 'Stories', or supply --type to use the first sheet."@
}

/// The batch of a workbook. With a kind given, the first sheet is read as
/// records of that kind; without, each sheet is read by its name.
pub open spec fn workbook_batch(
    sheets: Seq<SheetView>,
    kind: Option<ResourceType>,
    path: Seq<char>,
) -> Result<InputFileView, Seq<char>> {
    match kind {
        Some(k) => if sheets.len() == 0 {
            Err("Excel file has no sheets"@)
        } else {
            with_records(empty_batch(), k, sheets[0].rows)
        },
        None => match sheets_batch(sheets) {
            Err(e) => Err(e),
            Ok((batch, matched)) => if matched {
                Ok(batch)
            } else {
                Err(no_sheet_text(path))
            },
        },
    }
}

/// A result with its batch, or its message, as its view.
pub open spec fn batch_result(r: Result<InputFile, String>) -> Result<InputFileView, Seq<char>> {
    match r {
        Ok(batch) => Ok(batch@),
        Err(e) => Err(e@),
    }
}

/// Reads `rows` as records of kind `kind` into `batch`.
fn read_into(batch: InputFile, kind: ResourceType, rows: &Vec<Vec<Cell>>) -> (r: Result<
    InputFile,
    String,
>)
    ensures
        batch_result(r) == with_records(batch@, kind, rows_view(rows@)),
{
    let InputFile { objectives, epics, stories } = batch;
    match kind {
        ResourceType::Objective => match objectives_from_range(rows) {
            Ok(objectives) => Ok(InputFile { objectives, epics, stories }),
            Err(e) => Err(e),
        },
        ResourceType::Epic => match epics_from_range(rows) {
            Ok(epics) => Ok(InputFile { objectives, epics, stories }),
            Err(e) => Err(e),
        },
        ResourceType::Story => match stories_from_range(rows) {
            Ok(stories) => Ok(InputFile { objectives, epics, stories }),
            Err(e) => Err(e),
        },
    }
}

/// The batch without records.
fn no_records() -> (r: InputFile)
    ensures
        r@ == empty_batch(),
{
    let r = InputFile { objectives: Vec::new(), epics: Vec::new(), stories: Vec::new() };
    proof {
        assert(r@.objectives =~= Seq::<InputObjectiveView>::empty());
        assert(r@.epics =~= Seq::<InputEpicView>::empty());
        assert(r@.stories =~= Seq::<InputStoryView>::empty());
    }
    r
}

/// The batch of the workbook at `path`, whose sheets are `sheets` in the
/// order of the workbook.
pub fn parse(sheets: &Vec<Sheet>, resource_type: Option<ResourceType>, path: &str) -> (r: Result<
    InputFile,
    String,
>)
    ensures
        batch_result(r) == workbook_batch(sheet_views(sheets@), resource_type, path@),
{
    match resource_type {
        Some(kind) => {
            if sheets.len() == 0 {
                return Err("Excel file has no sheets".to_owned());
            }
            read_into(no_records(), kind, &sheets[0].rows)
        },
        None => {
            let mut batch = no_records();
            let mut matched = false;
            let ghost all = sheet_views(sheets@);
            let mut i: usize = 0;
            proof {
                assert(all.take(0).len() == 0);
            }
            while i < sheets.len()
                invariant
                    i <= sheets.len(),
                    resource_type is None,
                    all == sheet_views(sheets@),
                    sheets_batch(all.take(i as int)) == Ok::<(InputFileView, bool), Seq<char>>(
                        (batch@, matched),
                    ),
                decreases sheets.len() - i,
            {
                let sheet = &sheets[i];
                proof {
                    assert(all.take(i + 1).drop_last() == all.take(i as int));
                    assert(all.take(i + 1).last() == sheet@);
                }
                match kind_of_sheet(sheet.name.as_str()) {
                    None => {},
                    Some(kind) => match read_into(batch, kind, &sheet.rows) {
                        Ok(next) => {
                            batch = next;
                            matched = true;
                        },
                        Err(e) => {
                            proof {
                                lemma_sheets_fail(all, i + 1);
                            }
                            return Err(e);
                        },
                    },
                }
                i = i + 1;
            }
            proof {
                assert(all.take(sheets.len() as int) == all);
            }
            if matched {
                Ok(batch)
            } else {
                let mut message = "No recognized sheet names in '".to_owned();
                message.append(path);
                message.append(
                    "'. Name sheets 'Objectives', 'Epics', or 'Stories', or supply --type to use the first sheet.",
                );
                Err(message)
            }
        },
    }
}

/// Once the reading of the first `n` sheets has failed, the reading of all
/// fails with the same message.
pub proof fn lemma_sheets_fail(sheets: Seq<SheetView>, n: int)
    requires
        0 <= n <= sheets.len(),
        sheets_batch(sheets.take(n)) is Err,
    ensures
        sheets_batch(sheets) == sheets_batch(sheets.take(n)),
    decreases sheets.len(),
{
    if n < sheets.len() {
        assert(sheets.drop_last().take(n) == sheets.take(n));
        lemma_sheets_fail(sheets.drop_last(), n);
    } else {
        assert(sheets.take(n) == sheets);
    }
}

} // verus!
