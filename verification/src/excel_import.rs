//! Reading a workbook with a `Teachers`, `Classrooms`, `Subjects` and
//! `Progress` sheet: each sheet's first row holds the headers, its columns are
//! found by their aliases, and every non-blank row below becomes one record.
use vstd::prelude::*;
use calamine::Reader;
use crate::csv_import::{column_in, find_header_csv, first_alias_match, lemma_first_alias_match, missing};
use crate::importer::{
    AcademicProgressImport, AcademicProgressImportView, Cell, CellView, ClassroomImport,
    ClassroomImportView, Column, ImportError, ImportErrorView, ImportedData, ImportedDataView,
    SubjectImport, SubjectImportView, TeacherImport, TeacherImportView, aliases_of, column_aliases,
    outcome_view, views,
};
use crate::text::{
    chars_of, float_text_as_i32, float_text_to_i32, i64_text, int_text, is_float_text,
    is_float_text_str, listed_names, normalize_header, normalized_header, parse_i32_text,
    parsed_i32, split_name_list, string_of, to_lowercase, unicode_lowercase, law_int_text_parses_back,
};

verus! {

/// A worksheet of a workbook: its name, and its cells row by row (`None` when
/// the sheet could not be read).
#[derive(Debug, Clone)]
pub struct Sheet {
    pub name: String,
    pub rows: Option<Vec<Vec<Cell>>>,
}

pub struct SheetView {
    pub name: Seq<char>,
    pub rows: Option<Seq<Seq<CellView>>>,
}

/// The views of rows of cells.
pub open spec fn cell_rows(rows: Seq<Vec<Cell>>) -> Seq<Seq<CellView>> {
    rows.map_values(|r: Vec<Cell>| views(r@))
}

impl View for Sheet {
    type V = SheetView;

    open spec fn view(&self) -> SheetView {
        SheetView {
            name: self.name@,
            rows: match self.rows {
                Some(rows) => Some(cell_rows(rows@)),
                None => None,
            },
        }
    }
}

/// All rows have the width of the first.
pub open spec fn rectangular(rows: Seq<Seq<CellView>>) -> bool {
    forall|j: int| 0 <= j < rows.len() ==> #[trigger] rows[j].len() == rows[0].len()
}

/// Every readable sheet is rectangular.
pub open spec fn sheets_rectangular(sheets: Seq<SheetView>) -> bool {
    forall|i: int| 0 <= i < sheets.len() ==> (#[trigger] sheets[i].rows matches Some(rows) ==> rectangular(rows))
}

/// The view of a result whose error is an `ImportError`.
pub open spec fn result_view<T: View>(r: Result<T, ImportError>) -> Result<T::V, ImportErrorView> {
    match r {
        Ok(v) => Ok(v@),
        Err(e) => Err(e@),
    }
}

pub open spec fn bool_text(b: bool) -> Seq<char> {
    if b {
        "true"@
    } else {
        "false"@
    }
}

/// The text that `Display` writes for a cell.
pub open spec fn cell_text(c: CellView) -> Seq<char> {
    match c {
        CellView::Int(i) => int_text(i as int),
        CellView::Float(t) => t,
        CellView::String(s) => s,
        CellView::Bool(b) => bool_text(b),
        CellView::DateTime(t) => t,
        CellView::DateTimeIso(t) => t,
        CellView::DurationIso(t) => t,
        CellView::Error(t) => t,
        CellView::Empty => Seq::<char>::empty(),
    }
}

/// A cell read as text: strings, integers, floats and booleans.
pub open spec fn string_val(c: CellView) -> Result<Seq<char>, ImportErrorView> {
    match c {
        CellView::String(s) => Ok(s),
        CellView::Int(i) => Ok(int_text(i as int)),
        CellView::Float(t) => Ok(t),
        CellView::Bool(b) => Ok(bool_text(b)),
        _ => Err(ImportErrorView::NotText(c)),
    }
}

/// A cell read as an `i32`: an integer keeps its low 32 bits (`as i32`), a float
/// is truncated and clamped, text is parsed, a boolean is 1 or 0.
pub open spec fn int_val(c: CellView) -> Result<i32, ImportErrorView> {
    match c {
        CellView::Int(i) => Ok(i as i32),
        CellView::Float(t) => Ok(float_text_as_i32(t)),
        CellView::String(s) => match parsed_i32(s) {
            Some(v) => Ok(v),
            None => Err(ImportErrorView::BadInteger(s)),
        },
        CellView::Bool(b) => Ok(if b { 1i32 } else { 0i32 }),
        _ => Err(ImportErrorView::NotInteger(c)),
    }
}

/// A cell read as a number, given as decimal text: floats and integers, and
/// text that `f64` parsing accepts.
pub open spec fn number_val(c: CellView) -> Result<Seq<char>, ImportErrorView> {
    match c {
        CellView::Float(t) => Ok(t),
        CellView::Int(i) => Ok(int_text(i as int)),
        CellView::String(s) => if is_float_text(s) {
            Ok(s)
        } else {
            Err(ImportErrorView::BadNumber(s))
        },
        _ => Err(ImportErrorView::NotNumber(c)),
    }
}

/// A row with no cells, or with only empty cells.
pub open spec fn blank_row(r: Seq<CellView>) -> bool {
    forall|i: int| 0 <= i < r.len() ==> #[trigger] r[i] == CellView::Empty
}

/// The keys under which header cells are matched against aliases.
pub open spec fn header_keys(hs: Seq<CellView>) -> Seq<Seq<char>> {
    hs.map_values(|c: CellView| normalized_header(cell_text(c)))
}

/// Index of the first sheet whose name equals `name` up to case.
pub open spec fn sheet_index(sheets: Seq<SheetView>, name: Seq<char>) -> Option<int>
    decreases sheets.len(),
{
    if sheets.len() == 0 {
        None
    } else {
        match sheet_index(sheets.drop_last(), name) {
            Some(i) => Some(i),
            None => if unicode_lowercase(sheets.last().name) == unicode_lowercase(name) {
                Some(sheets.len() - 1)
            } else {
                None
            },
        }
    }
}

/// The rows of the sheet named `name` (up to case), when it exists and could be read.
pub open spec fn sheet_rows(sheets: Seq<SheetView>, name: Seq<char>) -> Option<Seq<Seq<CellView>>> {
    match sheet_index(sheets, name) {
        Some(i) => sheets[i].rows,
        None => None,
    }
}

} // verus!

verus! {

/// The `Display` text of a boolean.
fn bool_string(b: bool) -> (r: String)
    ensures
        r@ == bool_text(b),
{
    if b {
        "true".to_owned()
    } else {
        "false".to_owned()
    }
}

/// The decimal text of an integer.
fn int_string(i: i64) -> (r: String)
    ensures
        r@ == int_text(i as int),
{
    let cs = i64_text(i);
    string_of(cs.as_slice())
}

/// The text that `Display` writes for a cell.
pub fn cell_to_string(c: &Cell) -> (r: String)
    ensures
        r@ == cell_text(c@),
{
    match c {
        Cell::Int(i) => int_string(*i),
        Cell::Float(t) => t.clone(),
        Cell::String(s) => s.clone(),
        Cell::Bool(b) => bool_string(*b),
        Cell::DateTime(t) => t.clone(),
        Cell::DateTimeIso(t) => t.clone(),
        Cell::DurationIso(t) => t.clone(),
        Cell::Error(t) => t.clone(),
        Cell::Empty => String::new(),
    }
}

/// A copy of a cell.
pub fn copy_cell(c: &Cell) -> (r: Cell)
    ensures
        r@ == c@,
{
    match c {
        Cell::Int(i) => Cell::Int(*i),
        Cell::Float(t) => Cell::Float(t.clone()),
        Cell::String(s) => Cell::String(s.clone()),
        Cell::Bool(b) => Cell::Bool(*b),
        Cell::DateTime(t) => Cell::DateTime(t.clone()),
        Cell::DateTimeIso(t) => Cell::DateTimeIso(t.clone()),
        Cell::DurationIso(t) => Cell::DurationIso(t.clone()),
        Cell::Error(t) => Cell::Error(t.clone()),
        Cell::Empty => Cell::Empty,
    }
}

/// Reads a cell as text (see `string_val`).
pub fn get_string_val(cell: &Cell) -> (r: Result<String, ImportError>)
    ensures
        result_view(r) == string_val(cell@),
{
    match cell {
        Cell::String(s) => Ok(s.clone()),
        Cell::Int(i) => Ok(int_string(*i)),
        Cell::Float(t) => Ok(t.clone()),
        Cell::Bool(b) => Ok(bool_string(*b)),
        _ => Err(ImportError::NotText(copy_cell(cell))),
    }
}

/// Reads a cell as an `i32` (see `int_val`).
pub fn get_int_val(cell: &Cell) -> (r: Result<i32, ImportError>)
    ensures
        result_view(r) == int_val(cell@),
{
    match cell {
        Cell::Int(i) => Ok(#[verifier::truncate] (*i as i32)),
        Cell::Float(t) => {
            let cs = chars_of(t.as_str());
            Ok(float_text_to_i32(cs.as_slice()))
        },
        Cell::String(s) => match parse_i32_text(s.as_str()) {
            Some(v) => Ok(v),
            None => Err(ImportError::BadInteger(s.clone())),
        },
        Cell::Bool(b) => Ok(if *b { 1 } else { 0 }),
        _ => Err(ImportError::NotInteger(copy_cell(cell))),
    }
}

/// Reads a cell as a number, given as its decimal text (see `number_val`).
pub fn get_float_val(cell: &Cell) -> (r: Result<String, ImportError>)
    ensures
        result_view(r) == number_val(cell@),
{
    match cell {
        Cell::Float(t) => Ok(t.clone()),
        Cell::Int(i) => Ok(int_string(*i)),
        Cell::String(s) => if is_float_text_str(s.as_str()) {
            Ok(s.clone())
        } else {
            Err(ImportError::BadNumber(s.clone()))
        },
        _ => Err(ImportError::NotNumber(copy_cell(cell))),
    }
}

} // verus!

verus! {

/// The view of a result holding a vector.
pub open spec fn rows_result_view<T: View>(r: Result<Vec<T>, ImportError>) -> Result<Seq<T::V>, ImportErrorView> {
    match r {
        Ok(v) => Ok(views(v@)),
        Err(e) => Err(e@),
    }
}

/// Reads the rows in order, skipping blank rows, with `f`; the first failing
/// row's error ends the reading.
pub open spec fn collect_rows<T>(
    rows: Seq<Seq<CellView>>,
    f: spec_fn(Seq<CellView>) -> Result<T, ImportErrorView>,
) -> Result<Seq<T>, ImportErrorView>
    decreases rows.len(),
{
    if rows.len() == 0 {
        Ok(Seq::<T>::empty())
    } else {
        match collect_rows(rows.drop_last(), f) {
            Err(e) => Err(e),
            Ok(prev) => if blank_row(rows.last()) {
                Ok(prev)
            } else {
                match f(rows.last()) {
                    Err(e) => Err(e),
                    Ok(t) => Ok(prev.push(t)),
                }
            },
        }
    }
}

/// An error met on a prefix of the rows is the error of all the rows.
pub proof fn lemma_collect_rows_error<T>(
    rows: Seq<Seq<CellView>>,
    f: spec_fn(Seq<CellView>) -> Result<T, ImportErrorView>,
    k: int,
)
    requires
        0 <= k <= rows.len(),
        collect_rows(rows.take(k), f) is Err,
    ensures
        collect_rows(rows, f) == collect_rows(rows.take(k), f),
    decreases rows.len() - k,
{
    if k < rows.len() {
        assert(rows.take(k + 1).drop_last() =~= rows.take(k));
        lemma_collect_rows_error(rows, f, k + 1);
    } else {
        assert(rows.take(k) =~= rows);
    }
}

/// The text of a cell read as text, or empty text when it is not.
pub open spec fn text_or_empty(r: Result<Seq<char>, ImportErrorView>) -> Seq<char> {
    match r {
        Ok(s) => s,
        Err(_) => Seq::<char>::empty(),
    }
}

pub open spec fn excel_teacher(r: Seq<CellView>, n: int, d: int, w: int, q: int) -> Result<TeacherImportView, ImportErrorView> {
    match string_val(r[n]) {
        Err(e) => Err(e),
        Ok(name) => match int_val(r[d]) {
            Err(e) => Err(e),
            Ok(daily) => match int_val(r[w]) {
                Err(e) => Err(e),
                Ok(weekly) => Ok(
                    TeacherImportView {
                        name,
                        max_daily_periods: daily,
                        max_weekly_periods: weekly,
                        qualified_subjects: listed_names(text_or_empty(string_val(r[q]))),
                    },
                ),
            },
        },
    }
}

pub open spec fn excel_classroom(r: Seq<CellView>, n: int, g: int) -> Result<ClassroomImportView, ImportErrorView> {
    match string_val(r[n]) {
        Err(e) => Err(e),
        Ok(name) => match int_val(r[g]) {
            Err(e) => Err(e),
            Ok(grade_level) => Ok(ClassroomImportView { name, grade_level }),
        },
    }
}

pub open spec fn excel_subject(r: Seq<CellView>, n: int, b: int) -> Result<SubjectImportView, ImportErrorView> {
    match string_val(r[n]) {
        Err(e) => Err(e),
        Ok(name) => match int_val(r[b]) {
            Err(e) => Err(e),
            Ok(base_periods_per_week) => Ok(SubjectImportView { name, base_periods_per_week }),
        },
    }
}

pub open spec fn excel_progress(r: Seq<CellView>, c: int, s: int, cur: int, exp: int) -> Result<AcademicProgressImportView, ImportErrorView> {
    match string_val(r[c]) {
        Err(e) => Err(e),
        Ok(classroom_name) => match string_val(r[s]) {
            Err(e) => Err(e),
            Ok(subject_name) => match number_val(r[cur]) {
                Err(e) => Err(e),
                Ok(current_progress_ratio) => match number_val(r[exp]) {
                    Err(e) => Err(e),
                    Ok(expected_progress_ratio) => Ok(
                        AcademicProgressImportView {
                            classroom_name,
                            subject_name,
                            current_progress_ratio,
                            expected_progress_ratio,
                        },
                    ),
                },
            },
        },
    }
}

pub open spec fn excel_teacher_rows(rows: Seq<Seq<CellView>>, n: int, d: int, w: int, q: int) -> Result<Seq<TeacherImportView>, ImportErrorView> {
    collect_rows(rows, |r: Seq<CellView>| excel_teacher(r, n, d, w, q))
}

pub open spec fn excel_classroom_rows(rows: Seq<Seq<CellView>>, n: int, g: int) -> Result<Seq<ClassroomImportView>, ImportErrorView> {
    collect_rows(rows, |r: Seq<CellView>| excel_classroom(r, n, g))
}

pub open spec fn excel_subject_rows(rows: Seq<Seq<CellView>>, n: int, b: int) -> Result<Seq<SubjectImportView>, ImportErrorView> {
    collect_rows(rows, |r: Seq<CellView>| excel_subject(r, n, b))
}

pub open spec fn excel_progress_rows(rows: Seq<Seq<CellView>>, c: int, s: int, cur: int, exp: int) -> Result<Seq<AcademicProgressImportView>, ImportErrorView> {
    collect_rows(rows, |r: Seq<CellView>| excel_progress(r, c, s, cur, exp))
}

/// The teachers of a workbook: none when there is no readable `Teachers`
/// sheet or it has no rows; otherwise the four columns are looked up in the
/// header row, then the rows below it are read.
pub open spec fn teachers_sheet(sheets: Seq<SheetView>) -> Result<Seq<TeacherImportView>, ImportErrorView> {
    match sheet_rows(sheets, "Teachers"@) {
        None => Ok(Seq::<TeacherImportView>::empty()),
        Some(rows) => if rows.len() == 0 {
            Ok(Seq::<TeacherImportView>::empty())
        } else {
            let keys = header_keys(rows[0]);
            match column_in(keys, Column::TeacherName) {
                None => Err(missing(Column::TeacherName)),
                Some(n) => match column_in(keys, Column::TeacherDailyPeriods) {
                    None => Err(missing(Column::TeacherDailyPeriods)),
                    Some(d) => match column_in(keys, Column::TeacherWeeklyPeriods) {
                        None => Err(missing(Column::TeacherWeeklyPeriods)),
                        Some(w) => match column_in(keys, Column::TeacherSubjects) {
                            None => Err(missing(Column::TeacherSubjects)),
                            Some(q) => excel_teacher_rows(rows.drop_first(), n, d, w, q),
                        },
                    },
                },
            }
        },
    }
}

pub open spec fn classrooms_sheet(sheets: Seq<SheetView>) -> Result<Seq<ClassroomImportView>, ImportErrorView> {
    match sheet_rows(sheets, "Classrooms"@) {
        None => Ok(Seq::<ClassroomImportView>::empty()),
        Some(rows) => if rows.len() == 0 {
            Ok(Seq::<ClassroomImportView>::empty())
        } else {
            let keys = header_keys(rows[0]);
            match column_in(keys, Column::ClassroomName) {
                None => Err(missing(Column::ClassroomName)),
                Some(n) => match column_in(keys, Column::ClassroomGrade) {
                    None => Err(missing(Column::ClassroomGrade)),
                    Some(g) => excel_classroom_rows(rows.drop_first(), n, g),
                },
            }
        },
    }
}

pub open spec fn subjects_sheet(sheets: Seq<SheetView>) -> Result<Seq<SubjectImportView>, ImportErrorView> {
    match sheet_rows(sheets, "Subjects"@) {
        None => Ok(Seq::<SubjectImportView>::empty()),
        Some(rows) => if rows.len() == 0 {
            Ok(Seq::<SubjectImportView>::empty())
        } else {
            let keys = header_keys(rows[0]);
            match column_in(keys, Column::SubjectName) {
                None => Err(missing(Column::SubjectName)),
                Some(n) => match column_in(keys, Column::SubjectPeriods) {
                    None => Err(missing(Column::SubjectPeriods)),
                    Some(b) => excel_subject_rows(rows.drop_first(), n, b),
                },
            }
        },
    }
}

/// The rows of the progress sheet: the first readable sheet named
/// `Progress`, `AcademicProgress` or `Academic Progress`, tried in that order.
pub open spec fn progress_sheet_rows(sheets: Seq<SheetView>) -> Option<Seq<Seq<CellView>>> {
    match sheet_rows(sheets, "Progress"@) {
        Some(rows) => Some(rows),
        None => match sheet_rows(sheets, "AcademicProgress"@) {
            Some(rows) => Some(rows),
            None => sheet_rows(sheets, "Academic Progress"@),
        },
    }
}

pub open spec fn progress_sheet(sheets: Seq<SheetView>) -> Result<Seq<AcademicProgressImportView>, ImportErrorView> {
    match progress_sheet_rows(sheets) {
        None => Ok(Seq::<AcademicProgressImportView>::empty()),
        Some(rows) => if rows.len() == 0 {
            Ok(Seq::<AcademicProgressImportView>::empty())
        } else {
            let keys = header_keys(rows[0]);
            match column_in(keys, Column::ProgressClassroom) {
                None => Err(missing(Column::ProgressClassroom)),
                Some(c) => match column_in(keys, Column::ProgressSubject) {
                    None => Err(missing(Column::ProgressSubject)),
                    Some(s) => match column_in(keys, Column::ProgressCurrent) {
                        None => Err(missing(Column::ProgressCurrent)),
                        Some(cur) => match column_in(keys, Column::ProgressExpected) {
                            None => Err(missing(Column::ProgressExpected)),
                            Some(exp) => excel_progress_rows(rows.drop_first(), c, s, cur, exp),
                        },
                    },
                },
            }
        },
    }
}

/// What a workbook yields: its teachers, classrooms, subjects and progress,
/// read in that order; the first error ends the import.
pub open spec fn workbook_import(sheets: Seq<SheetView>) -> Result<ImportedDataView, ImportErrorView> {
    match teachers_sheet(sheets) {
        Err(e) => Err(e),
        Ok(teachers) => match classrooms_sheet(sheets) {
            Err(e) => Err(e),
            Ok(classrooms) => match subjects_sheet(sheets) {
                Err(e) => Err(e),
                Ok(subjects) => match progress_sheet(sheets) {
                    Err(e) => Err(e),
                    Ok(progress) => Ok(ImportedDataView::Excel { teachers, classrooms, subjects, progress }),
                },
            },
        },
    }
}

} // verus!

verus! {

/// Finds the column whose header cell, normalized, is one of the aliases: the
/// first such column, or `MissingColumn` with the aliases.
pub fn find_header(headers: &[Cell], aliases: &[&str]) -> (r: Result<usize, ImportError>)
    ensures
        match first_alias_match(header_keys(views(headers@)), aliases.deep_view()) {
            Some(i) => r is Ok && r->Ok_0 as int == i,
            None => r is Err && r->Err_0@ == ImportErrorView::MissingColumn(aliases.deep_view()),
        },
{
    let mut keys: Vec<String> = Vec::new();
    for i in 0..headers.len()
        invariant
            keys.deep_view() == header_keys(views(headers@).take(i as int)),
    {
        let ghost before = keys.deep_view();
        let k = normalize_header(cell_to_string(&headers[i]).as_str());
        keys.push(k);
        assert(keys.deep_view() =~= before.push(k@));
        assert(header_keys(views(headers@).take(i + 1)) =~= header_keys(views(headers@).take(i as int)).push(
            normalized_header(cell_text(headers@[i as int]@)),
        ));
    }
    assert(views(headers@).take(headers@.len() as int) =~= views(headers@));
    let ks = keys.as_slice();
    assert(ks.deep_view() =~= keys.deep_view());
    find_header_csv(ks, aliases)
}

fn find_column(headers: &[Cell], c: Column) -> (r: Result<usize, ImportError>)
    ensures
        match column_in(header_keys(views(headers@)), c) {
            Some(i) => r is Ok && r->Ok_0 as int == i,
            None => r is Err && r->Err_0@ == missing(c),
        },
{
    let aliases = column_aliases(c);
    let a = aliases.as_slice();
    assert(a.deep_view() =~= aliases.deep_view());
    find_header(headers, a)
}

/// Whether two names are equal up to case (`to_lowercase` of both).
fn same_name_ignoring_case(a: &str, b: &str) -> (r: bool)
    ensures
        r == (unicode_lowercase(a@) == unicode_lowercase(b@)),
{
    let la = to_lowercase(a);
    let lb = to_lowercase(b);
    la == lb
}

/// The rows of the sheet named `name` up to case (see `sheet_rows`).
pub fn get_sheet_range<'a>(sheets: &'a [Sheet], name: &str) -> (r: Option<&'a Vec<Vec<Cell>>>)
    ensures
        match r {
            Some(rows) => sheet_rows(views(sheets@), name@) == Some(cell_rows(rows@)),
            None => sheet_rows(views(sheets@), name@) is None,
        },
        r matches Some(rows) ==> (sheets_rectangular(views(sheets@)) ==> rectangular(cell_rows(rows@))),
{
    let n = sheets.len();
    let mut i: usize = 0;
    while i < n
        invariant
            i <= n == sheets@.len(),
            sheet_index(views(sheets@).take(i as int), name@) is None,
        decreases n - i,
    {
        assert(views(sheets@).take(i + 1).drop_last() =~= views(sheets@).take(i as int));
        if same_name_ignoring_case(sheets[i].name.as_str(), name) {
            proof {
                lemma_sheet_index_prefix(views(sheets@), name@, i + 1);
            }
            return match &sheets[i].rows {
                Some(rows) => Some(rows),
                None => None,
            };
        }
        i = i + 1;
    }
    assert(views(sheets@).take(n as int) =~= views(sheets@));
    None
}

/// A sheet found among the first sheets is the sheet found among all of them.
pub proof fn lemma_sheet_index_prefix(sheets: Seq<SheetView>, name: Seq<char>, k: int)
    requires
        0 <= k <= sheets.len(),
        sheet_index(sheets.take(k), name) is Some,
    ensures
        sheet_index(sheets, name) == sheet_index(sheets.take(k), name),
        0 <= sheet_index(sheets, name)->0 < k,
    decreases sheets.len() - k,
{
    lemma_sheet_index_bounds(sheets.take(k), name);
    if k < sheets.len() {
        assert(sheets.take(k + 1).drop_last() =~= sheets.take(k));
        lemma_sheet_index_prefix(sheets, name, k + 1);
    } else {
        assert(sheets.take(k) =~= sheets);
    }
}

pub proof fn lemma_sheet_index_bounds(sheets: Seq<SheetView>, name: Seq<char>)
    ensures
        sheet_index(sheets, name) matches Some(i) ==> 0 <= i < sheets.len(),
    decreases sheets.len(),
{
    if sheets.len() > 0 {
        lemma_sheet_index_bounds(sheets.drop_last(), name);
    }
}

/// Whether a row has no cells or only empty ones.
pub fn is_blank_row(row: &Vec<Cell>) -> (r: bool)
    ensures
        r == blank_row(views(row@)),
{
    for i in 0..row.len()
        invariant
            forall|j: int| 0 <= j < i ==> #[trigger] views(row@)[j] == CellView::Empty,
    {
        match &row[i] {
            Cell::Empty => {},
            _ => {
                assert(views(row@)[i as int] != CellView::Empty);
                return false;
            },
        }
    }
    true
}

} // verus!

verus! {

/// An empty vector, whose views are the empty sequence.
fn empty_rows<T: View>() -> (r: Vec<T>)
    ensures
        views(r@) == Seq::<T::V>::empty(),
{
    let r: Vec<T> = Vec::new();
    assert(views(r@) =~= Seq::<T::V>::empty());
    r
}

fn excel_teacher_of(row: &Vec<Cell>, n: usize, d: usize, w: usize, q: usize) -> (r: Result<TeacherImport, ImportError>)
    requires
        n < row@.len(),
        d < row@.len(),
        w < row@.len(),
        q < row@.len(),
    ensures
        result_view(r) == excel_teacher(views(row@), n as int, d as int, w as int, q as int),
{
    let name = match get_string_val(&row[n]) {
        Ok(s) => s,
        Err(e) => return Err(e),
    };
    let max_daily_periods = match get_int_val(&row[d]) {
        Ok(v) => v,
        Err(e) => return Err(e),
    };
    let max_weekly_periods = match get_int_val(&row[w]) {
        Ok(v) => v,
        Err(e) => return Err(e),
    };
    let qualified_raw = match get_string_val(&row[q]) {
        Ok(s) => s,
        Err(_) => String::new(),
    };
    let qualified_subjects = split_name_list(qualified_raw.as_str());
    Ok(TeacherImport { name, max_daily_periods, max_weekly_periods, qualified_subjects })
}

/// Reads the `Teachers` sheet (see `teachers_sheet`).
#[verifier::loop_isolation(false)]
pub fn parse_teachers_sheet(sheets: &[Sheet]) -> (r: Result<Vec<TeacherImport>, ImportError>)
    requires
        sheets_rectangular(views(sheets@)),
    ensures
        rows_result_view(r) == teachers_sheet(views(sheets@)),
{
    let rows = match get_sheet_range(sheets, "Teachers") {
        Some(rows) => rows,
        None => return Ok(empty_rows()),
    };
    let ghost rv = cell_rows(rows@);
    if rows.len() == 0 {
        return Ok(empty_rows());
    }
    let headers = rows[0].as_slice();
    assert(views(headers@) == rv[0]);
    let n = match find_column(headers, Column::TeacherName) {
        Ok(i) => i,
        Err(e) => return Err(e),
    };
    let d = match find_column(headers, Column::TeacherDailyPeriods) {
        Ok(i) => i,
        Err(e) => return Err(e),
    };
    let w = match find_column(headers, Column::TeacherWeeklyPeriods) {
        Ok(i) => i,
        Err(e) => return Err(e),
    };
    let q = match find_column(headers, Column::TeacherSubjects) {
        Ok(i) => i,
        Err(e) => return Err(e),
    };
    proof {
        lemma_first_alias_match(header_keys(rv[0]), aliases_of(Column::TeacherName));
        lemma_first_alias_match(header_keys(rv[0]), aliases_of(Column::TeacherDailyPeriods));
        lemma_first_alias_match(header_keys(rv[0]), aliases_of(Column::TeacherWeeklyPeriods));
        lemma_first_alias_match(header_keys(rv[0]), aliases_of(Column::TeacherSubjects));
    }
    let ghost body = rv.drop_first();
    let mut out: Vec<TeacherImport> = empty_rows();
    let m = rows.len();
    assert(body.take(0) =~= Seq::<Seq<CellView>>::empty());
    for j in 1..m
        invariant
            m == rows@.len(),
            m >= 1,
            rv == cell_rows(rows@),
            rv.len() == m,
            body == rv.drop_first(),
            rectangular(rv),
            n < rv[0].len(),
            d < rv[0].len(),
            w < rv[0].len(),
            q < rv[0].len(),
            excel_teacher_rows(body.take(j - 1), n as int, d as int, w as int, q as int) == Ok::<
                Seq<TeacherImportView>,
                ImportErrorView,
            >(views(out@)),
    {
        let row = &rows[j];
        assert(views(row@) == rv[j as int]);
        assert(rv[j as int].len() == rv[0].len());
        assert(body.take(j as int).drop_last() =~= body.take(j - 1));
        assert(body.take(j as int).last() == rv[j as int]);
        if !is_blank_row(row) {
            match excel_teacher_of(row, n, d, w, q) {
                Ok(t) => {
                    let ghost before = views(out@);
                    out.push(t);
                    assert(views(out@) =~= before.push(t@));
                },
                Err(e) => {
                    proof {
                        lemma_collect_rows_error(
                            body,
                            |r: Seq<CellView>| excel_teacher(r, n as int, d as int, w as int, q as int),
                            j as int,
                        );
                    }
                    return Err(e);
                },
            }
        }
    }
    assert(body.take(m - 1) =~= body);
    Ok(out)
}


/// Reads the `Classrooms` sheet (see `classrooms_sheet`).
#[verifier::loop_isolation(false)]
pub fn parse_classrooms_sheet(sheets: &[Sheet]) -> (r: Result<Vec<ClassroomImport>, ImportError>)
    requires
        sheets_rectangular(views(sheets@)),
    ensures
        rows_result_view(r) == classrooms_sheet(views(sheets@)),
{
    let rows = match get_sheet_range(sheets, "Classrooms") {
        Some(rows) => rows,
        None => return Ok(empty_rows()),
    };
    let ghost rv = cell_rows(rows@);
    if rows.len() == 0 {
        return Ok(empty_rows());
    }
    let headers = rows[0].as_slice();
    assert(views(headers@) == rv[0]);
    let n = match find_column(headers, Column::ClassroomName) {
        Ok(i) => i,
        Err(e) => return Err(e),
    };
    let g = match find_column(headers, Column::ClassroomGrade) {
        Ok(i) => i,
        Err(e) => return Err(e),
    };
    proof {
        lemma_first_alias_match(header_keys(rv[0]), aliases_of(Column::ClassroomName));
        lemma_first_alias_match(header_keys(rv[0]), aliases_of(Column::ClassroomGrade));
    }
    let ghost body = rv.drop_first();
    let mut out: Vec<ClassroomImport> = empty_rows();
    let m = rows.len();
    assert(body.take(0) =~= Seq::<Seq<CellView>>::empty());
    for j in 1..m
        invariant
            m == rows@.len(),
            m >= 1,
            rv == cell_rows(rows@),
            rv.len() == m,
            body == rv.drop_first(),
            rectangular(rv),
            n < rv[0].len(),
            g < rv[0].len(),
            excel_classroom_rows(body.take(j - 1), n as int, g as int) == Ok::<
                Seq<ClassroomImportView>,
                ImportErrorView,
            >(views(out@)),
    {
        let row = &rows[j];
        assert(views(row@) == rv[j as int]);
        assert(rv[j as int].len() == rv[0].len());
        assert(body.take(j as int).drop_last() =~= body.take(j - 1));
        assert(body.take(j as int).last() == rv[j as int]);
        if !is_blank_row(row) {
            match excel_classroom_of(row, n, g) {
                Ok(t) => {
                    let ghost before = views(out@);
                    out.push(t);
                    assert(views(out@) =~= before.push(t@));
                },
                Err(e) => {
                    proof {
                        lemma_collect_rows_error(
                            body,
                            |r: Seq<CellView>| excel_classroom(r, n as int, g as int),
                            j as int,
                        );
                    }
                    return Err(e);
                },
            }
        }
    }
    assert(body.take(m - 1) =~= body);
    Ok(out)
}


/// Reads the `Subjects` sheet (see `subjects_sheet`).
#[verifier::loop_isolation(false)]
pub fn parse_subjects_sheet(sheets: &[Sheet]) -> (r: Result<Vec<SubjectImport>, ImportError>)
    requires
        sheets_rectangular(views(sheets@)),
    ensures
        rows_result_view(r) == subjects_sheet(views(sheets@)),
{
    let rows = match get_sheet_range(sheets, "Subjects") {
        Some(rows) => rows,
        None => return Ok(empty_rows()),
    };
    let ghost rv = cell_rows(rows@);
    if rows.len() == 0 {
        return Ok(empty_rows());
    }
    let headers = rows[0].as_slice();
    assert(views(headers@) == rv[0]);
    let n = match find_column(headers, Column::SubjectName) {
        Ok(i) => i,
        Err(e) => return Err(e),
    };
    let b = match find_column(headers, Column::SubjectPeriods) {
        Ok(i) => i,
        Err(e) => return Err(e),
    };
    proof {
        lemma_first_alias_match(header_keys(rv[0]), aliases_of(Column::SubjectName));
        lemma_first_alias_match(header_keys(rv[0]), aliases_of(Column::SubjectPeriods));
    }
    let ghost body = rv.drop_first();
    let mut out: Vec<SubjectImport> = empty_rows();
    let m = rows.len();
    assert(body.take(0) =~= Seq::<Seq<CellView>>::empty());
    for j in 1..m
        invariant
            m == rows@.len(),
            m >= 1,
            rv == cell_rows(rows@),
            rv.len() == m,
            body == rv.drop_first(),
            rectangular(rv),
            n < rv[0].len(),
            b < rv[0].len(),
            excel_subject_rows(body.take(j - 1), n as int, b as int) == Ok::<
                Seq<SubjectImportView>,
                ImportErrorView,
            >(views(out@)),
    {
        let row = &rows[j];
        assert(views(row@) == rv[j as int]);
        assert(rv[j as int].len() == rv[0].len());
        assert(body.take(j as int).drop_last() =~= body.take(j - 1));
        assert(body.take(j as int).last() == rv[j as int]);
        if !is_blank_row(row) {
            match excel_subject_of(row, n, b) {
                Ok(t) => {
                    let ghost before = views(out@);
                    out.push(t);
                    assert(views(out@) =~= before.push(t@));
                },
                Err(e) => {
                    proof {
                        lemma_collect_rows_error(
                            body,
                            |r: Seq<CellView>| excel_subject(r, n as int, b as int),
                            j as int,
                        );
                    }
                    return Err(e);
                },
            }
        }
    }
    assert(body.take(m - 1) =~= body);
    Ok(out)
}


/// Reads the `Progress` sheet (see `progress_sheet`).
#[verifier::loop_isolation(false)]
pub fn parse_progress_sheet(sheets: &[Sheet]) -> (r: Result<Vec<AcademicProgressImport>, ImportError>)
    requires
        sheets_rectangular(views(sheets@)),
    ensures
        rows_result_view(r) == progress_sheet(views(sheets@)),
{
    let rows = match progress_sheet_range(sheets) {
        Some(rows) => rows,
        None => return Ok(empty_rows()),
    };
    let ghost rv = cell_rows(rows@);
    if rows.len() == 0 {
        return Ok(empty_rows());
    }
    let headers = rows[0].as_slice();
    assert(views(headers@) == rv[0]);
    let c = match find_column(headers, Column::ProgressClassroom) {
        Ok(i) => i,
        Err(e) => return Err(e),
    };
    let s = match find_column(headers, Column::ProgressSubject) {
        Ok(i) => i,
        Err(e) => return Err(e),
    };
    let cur = match find_column(headers, Column::ProgressCurrent) {
        Ok(i) => i,
        Err(e) => return Err(e),
    };
    let exp = match find_column(headers, Column::ProgressExpected) {
        Ok(i) => i,
        Err(e) => return Err(e),
    };
    proof {
        lemma_first_alias_match(header_keys(rv[0]), aliases_of(Column::ProgressClassroom));
        lemma_first_alias_match(header_keys(rv[0]), aliases_of(Column::ProgressSubject));
        lemma_first_alias_match(header_keys(rv[0]), aliases_of(Column::ProgressCurrent));
        lemma_first_alias_match(header_keys(rv[0]), aliases_of(Column::ProgressExpected));
    }
    let ghost body = rv.drop_first();
    let mut out: Vec<AcademicProgressImport> = empty_rows();
    let m = rows.len();
    assert(body.take(0) =~= Seq::<Seq<CellView>>::empty());
    for j in 1..m
        invariant
            m == rows@.len(),
            m >= 1,
            rv == cell_rows(rows@),
            rv.len() == m,
            body == rv.drop_first(),
            rectangular(rv),
            c < rv[0].len(),
            s < rv[0].len(),
            cur < rv[0].len(),
            exp < rv[0].len(),
            excel_progress_rows(body.take(j - 1), c as int, s as int, cur as int, exp as int) == Ok::<
                Seq<AcademicProgressImportView>,
                ImportErrorView,
            >(views(out@)),
    {
        let row = &rows[j];
        assert(views(row@) == rv[j as int]);
        assert(rv[j as int].len() == rv[0].len());
        assert(body.take(j as int).drop_last() =~= body.take(j - 1));
        assert(body.take(j as int).last() == rv[j as int]);
        if !is_blank_row(row) {
            match excel_progress_of(row, c, s, cur, exp) {
                Ok(t) => {
                    let ghost before = views(out@);
                    out.push(t);
                    assert(views(out@) =~= before.push(t@));
                },
                Err(e) => {
                    proof {
                        lemma_collect_rows_error(
                            body,
                            |r: Seq<CellView>| excel_progress(r, c as int, s as int, cur as int, exp as int),
                            j as int,
                        );
                    }
                    return Err(e);
                },
            }
        }
    }
    assert(body.take(m - 1) =~= body);
    Ok(out)
}

} // verus!

verus! {

fn excel_classroom_of(row: &Vec<Cell>, n: usize, g: usize) -> (r: Result<ClassroomImport, ImportError>)
    requires
        n < row@.len(),
        g < row@.len(),
    ensures
        result_view(r) == excel_classroom(views(row@), n as int, g as int),
{
    let name = match get_string_val(&row[n]) {
        Ok(s) => s,
        Err(e) => return Err(e),
    };
    let grade_level = match get_int_val(&row[g]) {
        Ok(v) => v,
        Err(e) => return Err(e),
    };
    Ok(ClassroomImport { name, grade_level })
}

fn excel_subject_of(row: &Vec<Cell>, n: usize, b: usize) -> (r: Result<SubjectImport, ImportError>)
    requires
        n < row@.len(),
        b < row@.len(),
    ensures
        result_view(r) == excel_subject(views(row@), n as int, b as int),
{
    let name = match get_string_val(&row[n]) {
        Ok(s) => s,
        Err(e) => return Err(e),
    };
    let base_periods_per_week = match get_int_val(&row[b]) {
        Ok(v) => v,
        Err(e) => return Err(e),
    };
    Ok(SubjectImport { name, base_periods_per_week })
}

fn excel_progress_of(row: &Vec<Cell>, c: usize, s: usize, cur: usize, exp: usize) -> (r: Result<AcademicProgressImport, ImportError>)
    requires
        c < row@.len(),
        s < row@.len(),
        cur < row@.len(),
        exp < row@.len(),
    ensures
        result_view(r) == excel_progress(views(row@), c as int, s as int, cur as int, exp as int),
{
    let classroom_name = match get_string_val(&row[c]) {
        Ok(v) => v,
        Err(e) => return Err(e),
    };
    let subject_name = match get_string_val(&row[s]) {
        Ok(v) => v,
        Err(e) => return Err(e),
    };
    let current_progress_ratio = match get_float_val(&row[cur]) {
        Ok(v) => v,
        Err(e) => return Err(e),
    };
    let expected_progress_ratio = match get_float_val(&row[exp]) {
        Ok(v) => v,
        Err(e) => return Err(e),
    };
    Ok(AcademicProgressImport { classroom_name, subject_name, current_progress_ratio, expected_progress_ratio })
}

/// The rows of the progress sheet (see `progress_sheet_rows`).
fn progress_sheet_range<'a>(sheets: &'a [Sheet]) -> (r: Option<&'a Vec<Vec<Cell>>>)
    ensures
        match r {
            Some(rows) => progress_sheet_rows(views(sheets@)) == Some(cell_rows(rows@)),
            None => progress_sheet_rows(views(sheets@)) is None,
        },
        r matches Some(rows) ==> (sheets_rectangular(views(sheets@)) ==> rectangular(cell_rows(rows@))),
{
    match get_sheet_range(sheets, "Progress") {
        Some(rows) => Some(rows),
        None => match get_sheet_range(sheets, "AcademicProgress") {
            Some(rows) => Some(rows),
            None => get_sheet_range(sheets, "Academic Progress"),
        },
    }
}

/// Reads the four sheets of a workbook, in order (see `workbook_import`).
pub fn import_workbook(sheets: &[Sheet]) -> (r: Result<ImportedData, ImportError>)
    requires
        sheets_rectangular(views(sheets@)),
    ensures
        outcome_view(r) == workbook_import(views(sheets@)),
{
    let teachers = match parse_teachers_sheet(sheets) {
        Ok(v) => v,
        Err(e) => return Err(e),
    };
    let classrooms = match parse_classrooms_sheet(sheets) {
        Ok(v) => v,
        Err(e) => return Err(e),
    };
    let subjects = match parse_subjects_sheet(sheets) {
        Ok(v) => v,
        Err(e) => return Err(e),
    };
    let progress = match parse_progress_sheet(sheets) {
        Ok(v) => v,
        Err(e) => return Err(e),
    };
    Ok(ImportedData::Excel { teachers, classrooms, subjects, progress })
}

} // verus!

verus! {

#[verifier::external_type_specification]
#[verifier::external_body]
pub struct ExData(calamine::Data);

/// The sheets that `calamine` reads from the bytes of an `.xlsx` workbook:
/// `Xlsx::new` on the bytes, then, for each name of `Reader::sheet_names`, the
/// rows of `Reader::worksheet_range` (`None` for a sheet whose range cannot be
/// read), each cell converted by `cell_from_data`. `None` when the bytes are
/// not a workbook.
pub uninterp spec fn xlsx_sheets(data: Seq<u8>) -> Option<Seq<SheetView>>;

/// Converts a `calamine::Data` cell, one variant to the like-named variant:
/// the float of a `Float` cell, the date of a `DateTime` cell and the error of
/// an `Error` cell are held as the text their `Display` writes. Nothing is
/// stated of it: it stands inside `read_xlsx`, whose result is named.
#[verifier::external_body]
fn cell_from_data(d: &calamine::Data) -> Cell {
    match d {
        calamine::Data::Int(i) => Cell::Int(*i),
        calamine::Data::Float(f) => Cell::Float(f.to_string()),
        calamine::Data::String(s) => Cell::String(s.clone()),
        calamine::Data::Bool(b) => Cell::Bool(*b),
        calamine::Data::DateTime(t) => Cell::DateTime(t.to_string()),
        calamine::Data::DateTimeIso(s) => Cell::DateTimeIso(s.clone()),
        calamine::Data::DurationIso(s) => Cell::DurationIso(s.clone()),
        calamine::Data::Error(e) => Cell::Error(e.to_string()),
        calamine::Data::Empty => Cell::Empty,
    }
}

/// Opens the workbook with `calamine::Xlsx::new` over the bytes and reads every
/// sheet with `Reader::sheet_names` and `Reader::worksheet_range`; the result
/// is named by `xlsx_sheets`. The rows of a range are `Range::rows`, chunks of
/// the range's width, so every read sheet is rectangular.
#[verifier::external_body]
fn read_xlsx(data: &[u8]) -> (r: Option<Vec<Sheet>>)
    ensures
        match r {
            Some(s) => xlsx_sheets(data@) == Some(views(s@)),
            None => xlsx_sheets(data@) is None,
        },
        r matches Some(s) ==> sheets_rectangular(views(s@)),
{
    let mut book: calamine::Xlsx<_> = Reader::new(std::io::Cursor::new(data.to_vec())).ok()?;
    let mut sheets = Vec::new();
    for name in book.sheet_names() {
        let rows = book.worksheet_range(&name).ok().map(
            |range| range.rows().map(|row| row.iter().map(cell_from_data).collect()).collect(),
        );
        sheets.push(Sheet { name, rows });
    }
    Some(sheets)
}

/// What the bytes of a workbook yield: `WorkbookOpen` when they are not one,
/// else the four sheets read in order.
pub open spec fn excel_import(sheets: Option<Seq<SheetView>>) -> Result<ImportedDataView, ImportErrorView> {
    match sheets {
        None => Err(ImportErrorView::WorkbookOpen),
        Some(s) => workbook_import(s),
    }
}

/// Reads teachers, classrooms, subjects and progress from the bytes of an
/// `.xlsx` workbook.
pub fn parse_excel(data: &[u8]) -> (r: Result<ImportedData, ImportError>)
    ensures
        outcome_view(r) == excel_import(xlsx_sheets(data@)),
{
    match read_xlsx(data) {
        None => Err(ImportError::WorkbookOpen),
        Some(sheets) => import_workbook(sheets.as_slice()),
    }
}

} // verus!

verus! {

/// The number of rows that are not blank.
pub open spec fn nonblank_count(rows: Seq<Seq<CellView>>) -> nat
    decreases rows.len(),
{
    if rows.len() == 0 {
        0
    } else {
        nonblank_count(rows.drop_last()) + if blank_row(rows.last()) { 0nat } else { 1nat }
    }
}

/// Law: reading the rows of a sheet that succeeds yields one record per
/// non-blank row; blank rows yield none.
pub proof fn law_one_record_per_nonblank_row<T>(
    rows: Seq<Seq<CellView>>,
    f: spec_fn(Seq<CellView>) -> Result<T, ImportErrorView>,
)
    requires
        collect_rows(rows, f) is Ok,
    ensures
        collect_rows(rows, f)->Ok_0.len() == nonblank_count(rows),
    decreases rows.len(),
{
    if rows.len() > 0 {
        law_one_record_per_nonblank_row(rows.drop_last(), f);
    }
}

} // verus!

verus! {

/// Law: reading a cell as text succeeds exactly for string, integer, float
/// and boolean cells, and gives the text that `Display` writes for the cell;
/// any other cell is refused as not text.
pub proof fn law_text_cells_read_as_display_text(c: CellView)
    ensures
        (c is String || c is Int || c is Float || c is Bool) <==> string_val(c) is Ok,
        string_val(c) is Ok ==> string_val(c)->Ok_0 == cell_text(c),
        string_val(c) is Err ==> string_val(c)->Err_0 == ImportErrorView::NotText(c),
{
}

/// Sheet `i` is the first sheet whose name equals `name` up to case.
pub open spec fn first_sheet_named(sheets: Seq<SheetView>, name: Seq<char>, i: int) -> bool {
    &&& 0 <= i < sheets.len()
    &&& unicode_lowercase(sheets[i].name) == unicode_lowercase(name)
    &&& forall|j: int| 0 <= j < i ==> unicode_lowercase(#[trigger] sheets[j].name) != unicode_lowercase(name)
}

proof fn lemma_sheet_index_none(sheets: Seq<SheetView>, name: Seq<char>)
    requires
        forall|j: int| 0 <= j < sheets.len() ==> unicode_lowercase(#[trigger] sheets[j].name) != unicode_lowercase(name),
    ensures
        sheet_index(sheets, name) is None,
    decreases sheets.len(),
{
    if sheets.len() > 0 {
        let s0 = sheets.drop_last();
        assert forall|j: int| 0 <= j < s0.len() implies unicode_lowercase(#[trigger] s0[j].name) != unicode_lowercase(name) by {
            assert(s0[j] == sheets[j]);
        }
        lemma_sheet_index_none(s0, name);
        assert(sheets.last() == sheets[sheets.len() - 1]);
    }
}

proof fn lemma_first_sheet_named(sheets: Seq<SheetView>, name: Seq<char>, i: int)
    requires
        first_sheet_named(sheets, name, i),
    ensures
        sheet_index(sheets, name) == Some(i),
    decreases sheets.len(),
{
    let s0 = sheets.drop_last();
    if i == sheets.len() - 1 {
        assert forall|j: int| 0 <= j < s0.len() implies unicode_lowercase(#[trigger] s0[j].name) != unicode_lowercase(name) by {
            assert(s0[j] == sheets[j]);
        }
        lemma_sheet_index_none(s0, name);
    } else {
        assert(s0[i] == sheets[i]);
        assert forall|j: int| 0 <= j < i implies unicode_lowercase(#[trigger] s0[j].name) != unicode_lowercase(name) by {
            assert(s0[j] == sheets[j]);
        }
        lemma_first_sheet_named(s0, name, i);
    }
}

/// The rows of the sheet named `name` in a workbook of that one sheet.
proof fn lemma_single_sheet(sheet: SheetView, name: Seq<char>)
    requires
        unicode_lowercase(sheet.name) == unicode_lowercase(name),
    ensures
        sheet_rows(seq![sheet], name) == sheet.rows,
{
    assert(first_sheet_named(seq![sheet], name, 0));
    lemma_first_sheet_named(seq![sheet], name, 0);
}

/// Law: the progress rows of a workbook come from its first sheet named
/// `Progress` (up to case) whenever that sheet can be read; only without one
/// are the `AcademicProgress` names tried.
pub proof fn law_progress_rows_from_progress_sheet(sheets: Seq<SheetView>, i: int)
    requires
        first_sheet_named(sheets, "Progress"@, i),
        sheets[i].rows is Some,
    ensures
        progress_sheet_rows(sheets) == sheets[i].rows,
        progress_sheet(sheets) == progress_sheet(seq![sheets[i]]),
{
    lemma_first_sheet_named(sheets, "Progress"@, i);
    lemma_single_sheet(sheets[i], "Progress"@);
}

/// Law: the teachers of a workbook are read from its first sheet named
/// `Teachers` (up to case) alone: the result is the one that sheet gives in a
/// workbook of its own.
pub proof fn law_teachers_from_teachers_sheet(sheets: Seq<SheetView>, i: int)
    requires
        first_sheet_named(sheets, "Teachers"@, i),
    ensures
        teachers_sheet(sheets) == teachers_sheet(seq![sheets[i]]),
{
    lemma_first_sheet_named(sheets, "Teachers"@, i);
    lemma_single_sheet(sheets[i], "Teachers"@);
}

/// Law: the classrooms of a workbook are read from its first sheet named
/// `Classrooms` (up to case) alone.
pub proof fn law_classrooms_from_classrooms_sheet(sheets: Seq<SheetView>, i: int)
    requires
        first_sheet_named(sheets, "Classrooms"@, i),
    ensures
        classrooms_sheet(sheets) == classrooms_sheet(seq![sheets[i]]),
{
    lemma_first_sheet_named(sheets, "Classrooms"@, i);
    lemma_single_sheet(sheets[i], "Classrooms"@);
}

/// Law: the subjects of a workbook are read from its first sheet named
/// `Subjects` (up to case) alone.
pub proof fn law_subjects_from_subjects_sheet(sheets: Seq<SheetView>, i: int)
    requires
        first_sheet_named(sheets, "Subjects"@, i),
    ensures
        subjects_sheet(sheets) == subjects_sheet(seq![sheets[i]]),
{
    lemma_first_sheet_named(sheets, "Subjects"@, i);
    lemma_single_sheet(sheets[i], "Subjects"@);
}

} // verus!

verus! {

/// Law: an integer cell reads as its own value whenever that fits in an
/// `i32`, and so does a text cell holding that value's decimal text; so a
/// value read as text and then as an integer is kept.
pub proof fn law_integer_cells_keep_their_value(v: i32)
    ensures
        int_val(CellView::Int(v as i64)) == Ok::<i32, ImportErrorView>(v),
        int_val(CellView::String(int_text(v as int))) == Ok::<i32, ImportErrorView>(v),
        string_val(CellView::Int(v as i64)) matches Ok(t) && int_val(CellView::String(t)) == Ok::<i32, ImportErrorView>(v),
{
    law_int_text_parses_back(v);
}

} // verus!
