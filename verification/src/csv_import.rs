//! Reading one entity table from CSV: the layout is recognized from the
//! headers, the columns are found by their aliases, and every record becomes
//! one row of the recognized entity.
use vstd::prelude::*;
use crate::importer::{
    AcademicProgressImport, AcademicProgressImportView, ClassroomImport, ClassroomImportView, Column,
    ImportError, ImportErrorView, ImportedData, ImportedDataView, SubjectImport, SubjectImportView,
    TeacherImport, TeacherImportView, aliases_of, column_aliases, outcome_view, views,
};
use crate::text::{
    is_float_text, is_float_text_str, lemma_listed_names_of_empty, listed_names,
    normalize_header, normalized_header, parse_i32_text, parsed_i32, split_name_list, trim_string,
    trimmed,
};

verus! {

/// Index of the first header that equals one of the aliases.
pub open spec fn first_alias_match(headers: Seq<Seq<char>>, aliases: Seq<Seq<char>>) -> Option<int>
    decreases headers.len(),
{
    if headers.len() == 0 {
        None
    } else {
        match first_alias_match(headers.drop_last(), aliases) {
            Some(i) => Some(i),
            None => if aliases.contains(headers.last()) {
                Some(headers.len() - 1)
            } else {
                None
            },
        }
    }
}

pub proof fn lemma_first_alias_match(headers: Seq<Seq<char>>, aliases: Seq<Seq<char>>)
    ensures
        match first_alias_match(headers, aliases) {
            Some(i) => 0 <= i < headers.len() && aliases.contains(headers[i]) && forall|j: int|
                0 <= j < i ==> !aliases.contains(#[trigger] headers[j]),
            None => forall|j: int| 0 <= j < headers.len() ==> !aliases.contains(#[trigger] headers[j]),
        },
    decreases headers.len(),
{
    if headers.len() > 0 {
        lemma_first_alias_match(headers.drop_last(), aliases);
        assert forall|j: int| 0 <= j < headers.len() - 1 implies headers[j] == headers.drop_last()[j] by {}
    }
}

/// Whether `s` equals one of the aliases.
fn is_alias(s: &String, aliases: &[&str]) -> (r: bool)
    ensures
        r == aliases.deep_view().contains(s@),
{
    let mut j: usize = 0;
    while j < aliases.len()
        invariant
            j <= aliases@.len(),
            forall|k: int| 0 <= k < j ==> aliases.deep_view()[k] != s@,
        decreases aliases@.len() - j,
    {
        let a = aliases[j].to_owned();
        if *s == a {
            assert(aliases.deep_view()[j as int] == s@);
            return true;
        }
        j = j + 1;
    }
    assert forall|k: int| 0 <= k < aliases.deep_view().len() implies aliases.deep_view()[k] != s@ by {}
    false
}

/// Finds the column whose (normalized) header is one of the aliases: the first
/// such column, or `MissingColumn` with the aliases when there is none.
pub fn find_header_csv(headers: &[String], aliases: &[&str]) -> (r: Result<usize, ImportError>)
    ensures
        match first_alias_match(headers.deep_view(), aliases.deep_view()) {
            Some(i) => r is Ok && r->Ok_0 as int == i,
            None => r is Err && r->Err_0@ == ImportErrorView::MissingColumn(aliases.deep_view()),
        },
{
    let n = headers.len();
    let mut i: usize = 0;
    while i < n
        invariant
            i <= n == headers@.len(),
            first_alias_match(headers.deep_view().take(i as int), aliases.deep_view()) is None,
        decreases n - i,
    {
        assert(headers.deep_view().take(i + 1).drop_last() =~= headers.deep_view().take(i as int));
        if is_alias(&headers[i], aliases) {
            proof {
                lemma_first_alias_match(headers.deep_view().take(i + 1), aliases.deep_view());
                lemma_prefix_match(headers.deep_view(), aliases.deep_view(), i + 1);
            }
            return Ok(i);
        }
        i = i + 1;
    }
    assert(headers.deep_view().take(n as int) =~= headers.deep_view());
    let mut names: Vec<String> = Vec::new();
    let mut k: usize = 0;
    while k < aliases.len()
        invariant
            k <= aliases@.len(),
            names.deep_view() == aliases.deep_view().take(k as int),
        decreases aliases@.len() - k,
    {
        let ghost before = names.deep_view();
        let a = aliases[k].to_owned();
        names.push(a);
        assert(names.deep_view() =~= before.push(a@));
        assert(aliases.deep_view()[k as int] == a@);
        assert(names.deep_view() =~= aliases.deep_view().take(k + 1));
        k = k + 1;
    }
    assert(names.deep_view() =~= aliases.deep_view());
    Err(ImportError::MissingColumn(names))
}

/// A match found in a prefix is the match of the whole sequence.
pub proof fn lemma_prefix_match(headers: Seq<Seq<char>>, aliases: Seq<Seq<char>>, k: int)
    requires
        0 <= k <= headers.len(),
        first_alias_match(headers.take(k), aliases) is Some,
    ensures
        first_alias_match(headers, aliases) == first_alias_match(headers.take(k), aliases),
    decreases headers.len() - k,
{
    if k < headers.len() {
        assert(headers.take(k + 1).drop_last() =~= headers.take(k));
        lemma_prefix_match(headers, aliases, k + 1);
    } else {
        assert(headers.take(k) =~= headers);
    }
}

} // verus!

verus! {

/// The entity that a CSV file holds.
#[derive(Debug, Clone, Copy, PartialEq, Eq)]
pub enum CsvLayout {
    Teachers,
    Classrooms,
    Subjects,
    Progress,
}

/// The normalized headers whose presence identifies a layout.
pub open spec fn layout_markers(l: CsvLayout) -> Seq<Seq<char>> {
    match l {
        CsvLayout::Teachers => seq!["max_daily_periods"@, "max_weekly_periods"@, "qualified_subjects"@],
        CsvLayout::Classrooms => seq!["grade_level"@, "classroom"@, "class"@],
        CsvLayout::Subjects => seq!["base_periods_per_week"@, "periods_per_week"@, "base_periods"@],
        CsvLayout::Progress => seq![
            "current_progress_ratio"@,
            "expected_progress_ratio"@,
            "current_progress"@,
        ],
    }
}

/// The headers that identify a layout (see `layout_markers`).
pub fn layout_marker_names(l: CsvLayout) -> (r: Vec<&'static str>)
    ensures
        r.deep_view() == layout_markers(l),
{
    let r = match l {
        CsvLayout::Teachers => vec!["max_daily_periods", "max_weekly_periods", "qualified_subjects"],
        CsvLayout::Classrooms => vec!["grade_level", "classroom", "class"],
        CsvLayout::Subjects => vec!["base_periods_per_week", "periods_per_week", "base_periods"],
        CsvLayout::Progress => vec!["current_progress_ratio", "expected_progress_ratio", "current_progress"],
    };
    assert(r.deep_view() =~= layout_markers(l));
    r
}

pub open spec fn normalized_headers(raw: Seq<Seq<char>>) -> Seq<Seq<char>> {
    raw.map_values(|h: Seq<char>| normalized_header(h))
}

/// Whether one of the headers `h` is a marker of layout `l`.
pub open spec fn layout_marked(h: Seq<Seq<char>>, l: CsvLayout) -> bool {
    first_alias_match(h, layout_markers(l)) is Some
}

/// Whether every column of layout `l` is found among the headers `h`.
pub open spec fn layout_resolves(h: Seq<Seq<char>>, l: CsvLayout) -> bool {
    match l {
        CsvLayout::Teachers => {
            &&& column_in(h, Column::TeacherName) is Some
            &&& column_in(h, Column::TeacherDailyPeriods) is Some
            &&& column_in(h, Column::TeacherWeeklyPeriods) is Some
            &&& column_in(h, Column::TeacherSubjects) is Some
        },
        CsvLayout::Classrooms => {
            &&& column_in(h, Column::ClassroomName) is Some
            &&& column_in(h, Column::ClassroomGrade) is Some
        },
        CsvLayout::Subjects => {
            &&& column_in(h, Column::SubjectName) is Some
            &&& column_in(h, Column::SubjectPeriods) is Some
        },
        CsvLayout::Progress => {
            &&& column_in(h, Column::ProgressClassroom) is Some
            &&& column_in(h, Column::ProgressSubject) is Some
            &&& column_in(h, Column::ProgressCurrent) is Some
            &&& column_in(h, Column::ProgressExpected) is Some
        },
    }
}

/// Whether layout `l` carries a marker among `h` (where `need_marker`) and
/// finds all its columns there (where `need_columns`).
pub open spec fn layout_fits(h: Seq<Seq<char>>, l: CsvLayout, need_marker: bool, need_columns: bool) -> bool {
    &&& need_marker ==> layout_marked(h, l)
    &&& need_columns ==> layout_resolves(h, l)
}

/// The first of teachers, classrooms, subjects and progress that fits (see `layout_fits`).
pub open spec fn first_fitting_layout(h: Seq<Seq<char>>, need_marker: bool, need_columns: bool) -> Option<CsvLayout> {
    if layout_fits(h, CsvLayout::Teachers, need_marker, need_columns) {
        Some(CsvLayout::Teachers)
    } else if layout_fits(h, CsvLayout::Classrooms, need_marker, need_columns) {
        Some(CsvLayout::Classrooms)
    } else if layout_fits(h, CsvLayout::Subjects, need_marker, need_columns) {
        Some(CsvLayout::Subjects)
    } else if layout_fits(h, CsvLayout::Progress, need_marker, need_columns) {
        Some(CsvLayout::Progress)
    } else {
        None
    }
}

/// The layout of a file with these normalized headers, taking teachers,
/// classrooms, subjects and progress in that order: the first that carries one
/// of its markers and finds all its columns; else the first that finds all its
/// columns; else the first that carries a marker (its import then reports the
/// column it misses); else none.
pub open spec fn csv_layout(h: Seq<Seq<char>>) -> Option<CsvLayout> {
    match first_fitting_layout(h, true, true) {
        Some(l) => Some(l),
        None => match first_fitting_layout(h, false, true) {
            Some(l) => Some(l),
            None => first_fitting_layout(h, true, false),
        },
    }
}

/// The field `i` of a record, or empty text when the record is shorter.
pub open spec fn field_at(rec: Seq<Seq<char>>, i: int) -> Seq<char> {
    if 0 <= i < rec.len() {
        rec[i]
    } else {
        Seq::<char>::empty()
    }
}

/// The `i32` that the text writes, or `0`.
pub open spec fn int_or_zero(s: Seq<char>) -> i32 {
    match parsed_i32(s) {
        Some(v) => v,
        None => 0,
    }
}

/// The text itself when it is a number `f64` parsing accepts, else `0`.
pub open spec fn ratio_or_zero(s: Seq<char>) -> Seq<char> {
    if is_float_text(s) {
        s
    } else {
        seq!['0']
    }
}

pub open spec fn column_in(h: Seq<Seq<char>>, c: Column) -> Option<int> {
    first_alias_match(h, aliases_of(c))
}

pub open spec fn missing(c: Column) -> ImportErrorView {
    ImportErrorView::MissingColumn(aliases_of(c))
}

pub open spec fn csv_teacher(rec: Seq<Seq<char>>, n: int, d: int, w: int, q: int) -> TeacherImportView {
    TeacherImportView {
        name: trimmed(field_at(rec, n)),
        max_daily_periods: int_or_zero(field_at(rec, d)),
        max_weekly_periods: int_or_zero(field_at(rec, w)),
        qualified_subjects: listed_names(trimmed(field_at(rec, q))),
    }
}

pub open spec fn csv_classroom(rec: Seq<Seq<char>>, n: int, g: int) -> ClassroomImportView {
    ClassroomImportView { name: trimmed(field_at(rec, n)), grade_level: int_or_zero(field_at(rec, g)) }
}

pub open spec fn csv_subject(rec: Seq<Seq<char>>, n: int, b: int) -> SubjectImportView {
    SubjectImportView {
        name: trimmed(field_at(rec, n)),
        base_periods_per_week: int_or_zero(field_at(rec, b)),
    }
}

pub open spec fn csv_progress(rec: Seq<Seq<char>>, c: int, s: int, cur: int, exp: int) -> AcademicProgressImportView {
    AcademicProgressImportView {
        classroom_name: trimmed(field_at(rec, c)),
        subject_name: trimmed(field_at(rec, s)),
        current_progress_ratio: ratio_or_zero(field_at(rec, cur)),
        expected_progress_ratio: ratio_or_zero(field_at(rec, exp)),
    }
}

pub open spec fn csv_teacher_rows(rs: Seq<Seq<Seq<char>>>, n: int, d: int, w: int, q: int) -> Seq<TeacherImportView> {
    rs.map_values(|r: Seq<Seq<char>>| csv_teacher(r, n, d, w, q))
}

pub open spec fn csv_classroom_rows(rs: Seq<Seq<Seq<char>>>, n: int, g: int) -> Seq<ClassroomImportView> {
    rs.map_values(|r: Seq<Seq<char>>| csv_classroom(r, n, g))
}

pub open spec fn csv_subject_rows(rs: Seq<Seq<Seq<char>>>, n: int, b: int) -> Seq<SubjectImportView> {
    rs.map_values(|r: Seq<Seq<char>>| csv_subject(r, n, b))
}

pub open spec fn csv_progress_rows(rs: Seq<Seq<Seq<char>>>, c: int, s: int, cur: int, exp: int) -> Seq<AcademicProgressImportView> {
    rs.map_values(|r: Seq<Seq<char>>| csv_progress(r, c, s, cur, exp))
}

/// A teachers file: the four columns are looked up in order, then every record is read.
pub open spec fn csv_teachers(h: Seq<Seq<char>>, records: Option<Seq<Seq<Seq<char>>>>) -> Result<ImportedDataView, ImportErrorView> {
    match column_in(h, Column::TeacherName) {
        None => Err(missing(Column::TeacherName)),
        Some(n) => match column_in(h, Column::TeacherDailyPeriods) {
            None => Err(missing(Column::TeacherDailyPeriods)),
            Some(d) => match column_in(h, Column::TeacherWeeklyPeriods) {
                None => Err(missing(Column::TeacherWeeklyPeriods)),
                Some(w) => match column_in(h, Column::TeacherSubjects) {
                    None => Err(missing(Column::TeacherSubjects)),
                    Some(q) => match records {
                        None => Err(ImportErrorView::CsvRecord),
                        Some(rs) => Ok(ImportedDataView::Teachers(csv_teacher_rows(rs, n, d, w, q))),
                    },
                },
            },
        },
    }
}

pub open spec fn csv_classrooms(h: Seq<Seq<char>>, records: Option<Seq<Seq<Seq<char>>>>) -> Result<ImportedDataView, ImportErrorView> {
    match column_in(h, Column::ClassroomName) {
        None => Err(missing(Column::ClassroomName)),
        Some(n) => match column_in(h, Column::ClassroomGrade) {
            None => Err(missing(Column::ClassroomGrade)),
            Some(g) => match records {
                None => Err(ImportErrorView::CsvRecord),
                Some(rs) => Ok(ImportedDataView::Classrooms(csv_classroom_rows(rs, n, g))),
            },
        },
    }
}

pub open spec fn csv_subjects(h: Seq<Seq<char>>, records: Option<Seq<Seq<Seq<char>>>>) -> Result<ImportedDataView, ImportErrorView> {
    match column_in(h, Column::SubjectName) {
        None => Err(missing(Column::SubjectName)),
        Some(n) => match column_in(h, Column::SubjectPeriods) {
            None => Err(missing(Column::SubjectPeriods)),
            Some(b) => match records {
                None => Err(ImportErrorView::CsvRecord),
                Some(rs) => Ok(ImportedDataView::Subjects(csv_subject_rows(rs, n, b))),
            },
        },
    }
}

pub open spec fn csv_progress_table(h: Seq<Seq<char>>, records: Option<Seq<Seq<Seq<char>>>>) -> Result<ImportedDataView, ImportErrorView> {
    match column_in(h, Column::ProgressClassroom) {
        None => Err(missing(Column::ProgressClassroom)),
        Some(c) => match column_in(h, Column::ProgressSubject) {
            None => Err(missing(Column::ProgressSubject)),
            Some(s) => match column_in(h, Column::ProgressCurrent) {
                None => Err(missing(Column::ProgressCurrent)),
                Some(cur) => match column_in(h, Column::ProgressExpected) {
                    None => Err(missing(Column::ProgressExpected)),
                    Some(exp) => match records {
                        None => Err(ImportErrorView::CsvRecord),
                        Some(rs) => Ok(ImportedDataView::Progress(csv_progress_rows(rs, c, s, cur, exp))),
                    },
                },
            },
        },
    }
}

/// What a CSV file yields, given its header row and its records as the CSV
/// reader returns them (`None` where reading failed).
pub open spec fn csv_import(headers: Option<Seq<Seq<char>>>, records: Option<Seq<Seq<Seq<char>>>>) -> Result<ImportedDataView, ImportErrorView> {
    match headers {
        None => Err(ImportErrorView::CsvHeaders),
        Some(raw) => {
            let h = normalized_headers(raw);
            match csv_layout(h) {
                Some(CsvLayout::Teachers) => csv_teachers(h, records),
                Some(CsvLayout::Classrooms) => csv_classrooms(h, records),
                Some(CsvLayout::Subjects) => csv_subjects(h, records),
                Some(CsvLayout::Progress) => csv_progress_table(h, records),
                None => Err(ImportErrorView::UnknownCsvLayout(raw)),
            }
        },
    }
}

} // verus!

verus! {

/// Whether one of the headers equals one of the aliases.
fn has_any_alias(headers: &[String], aliases: &[&str]) -> (r: bool)
    ensures
        r == (first_alias_match(headers.deep_view(), aliases.deep_view()) is Some),
{
    match find_header_csv(headers, aliases) {
        Ok(_) => true,
        Err(_) => false,
    }
}

/// Finds a column by its aliases (see `find_header_csv`).
fn find_column(headers: &[String], c: Column) -> (r: Result<usize, ImportError>)
    ensures
        match column_in(headers.deep_view(), c) {
            Some(i) => r is Ok && r->Ok_0 as int == i,
            None => r is Err && r->Err_0@ == missing(c),
        },
{
    let aliases = column_aliases(c);
    let a = aliases.as_slice();
    assert(a.deep_view() =~= aliases.deep_view());
    find_header_csv(headers, a)
}

/// Whether a column is found among the headers (see `column_in`).
fn has_column(headers: &[String], c: Column) -> (r: bool)
    ensures
        r == (column_in(headers.deep_view(), c) is Some),
{
    match find_column(headers, c) {
        Ok(_) => true,
        Err(_) => false,
    }
}

/// Whether one of the headers is a marker of the layout (see `layout_marked`).
fn has_marker(headers: &[String], l: CsvLayout) -> (r: bool)
    ensures
        r == layout_marked(headers.deep_view(), l),
{
    let markers = layout_marker_names(l);
    let m = markers.as_slice();
    assert(m.deep_view() =~= markers.deep_view());
    has_any_alias(headers, m)
}

/// Whether all the columns of the layout are found (see `layout_resolves`).
fn resolves(headers: &[String], l: CsvLayout) -> (r: bool)
    ensures
        r == layout_resolves(headers.deep_view(), l),
{
    match l {
        CsvLayout::Teachers => has_column(headers, Column::TeacherName) && has_column(
            headers,
            Column::TeacherDailyPeriods,
        ) && has_column(headers, Column::TeacherWeeklyPeriods) && has_column(headers, Column::TeacherSubjects),
        CsvLayout::Classrooms => has_column(headers, Column::ClassroomName) && has_column(
            headers,
            Column::ClassroomGrade,
        ),
        CsvLayout::Subjects => has_column(headers, Column::SubjectName) && has_column(headers, Column::SubjectPeriods),
        CsvLayout::Progress => has_column(headers, Column::ProgressClassroom) && has_column(
            headers,
            Column::ProgressSubject,
        ) && has_column(headers, Column::ProgressCurrent) && has_column(headers, Column::ProgressExpected),
    }
}

/// See `layout_fits`.
fn fits(headers: &[String], l: CsvLayout, need_marker: bool, need_columns: bool) -> (r: bool)
    ensures
        r == layout_fits(headers.deep_view(), l, need_marker, need_columns),
{
    (!need_marker || has_marker(headers, l)) && (!need_columns || resolves(headers, l))
}

/// See `first_fitting_layout`.
fn first_fitting(headers: &[String], need_marker: bool, need_columns: bool) -> (r: Option<CsvLayout>)
    ensures
        r == first_fitting_layout(headers.deep_view(), need_marker, need_columns),
{
    if fits(headers, CsvLayout::Teachers, need_marker, need_columns) {
        Some(CsvLayout::Teachers)
    } else if fits(headers, CsvLayout::Classrooms, need_marker, need_columns) {
        Some(CsvLayout::Classrooms)
    } else if fits(headers, CsvLayout::Subjects, need_marker, need_columns) {
        Some(CsvLayout::Subjects)
    } else if fits(headers, CsvLayout::Progress, need_marker, need_columns) {
        Some(CsvLayout::Progress)
    } else {
        None
    }
}

/// The layout of a file with these normalized headers (see `csv_layout`).
fn pick_layout(headers: &[String]) -> (r: Option<CsvLayout>)
    ensures
        r == csv_layout(headers.deep_view()),
{
    match first_fitting(headers, true, true) {
        Some(l) => Some(l),
        None => match first_fitting(headers, false, true) {
            Some(l) => Some(l),
            None => first_fitting(headers, true, false),
        },
    }
}

/// The normalized form of every header.
fn normalize_all(raw: &[String]) -> (r: Vec<String>)
    ensures
        r.deep_view() == normalized_headers(raw.deep_view()),
{
    let mut r: Vec<String> = Vec::new();
    for i in 0..raw.len()
        invariant
            r.deep_view() == normalized_headers(raw.deep_view().take(i as int)),
    {
        let ghost before = r.deep_view();
        let h = normalize_header(raw[i].as_str());
        r.push(h);
        assert(r.deep_view() =~= before.push(h@));
        assert(normalized_headers(raw.deep_view().take(i + 1)) =~= normalized_headers(
            raw.deep_view().take(i as int),
        ).push(normalized_header(raw.deep_view()[i as int])));
    }
    assert(raw.deep_view().take(raw@.len() as int) =~= raw.deep_view());
    r
}

/// The field `i` of a record (see `field_at`).
fn field_text(rec: &Vec<String>, i: usize) -> (r: String)
    ensures
        r@ == field_at(rec.deep_view(), i as int),
{
    if i < rec.len() {
        rec[i].clone()
    } else {
        String::new()
    }
}

fn int_or_zero_of(s: &String) -> (r: i32)
    ensures
        r == int_or_zero(s@),
{
    match parse_i32_text(s.as_str()) {
        Some(v) => v,
        None => 0,
    }
}

fn ratio_or_zero_of(s: String) -> (r: String)
    ensures
        r@ == ratio_or_zero(s@),
{
    if is_float_text_str(s.as_str()) {
        s
    } else {
        let z = "0".to_owned();
        proof {
            reveal_strlit("0");
        }
        assert(z@ =~= seq!['0']);
        z
    }
}

fn csv_teacher_of(rec: &Vec<String>, n: usize, d: usize, w: usize, q: usize) -> (t: TeacherImport)
    ensures
        t@ == csv_teacher(rec.deep_view(), n as int, d as int, w as int, q as int),
{
    let name = trim_string(field_text(rec, n).as_str());
    let max_daily_periods = int_or_zero_of(&field_text(rec, d));
    let max_weekly_periods = int_or_zero_of(&field_text(rec, w));
    let qualified_raw = trim_string(field_text(rec, q).as_str());
    let qualified_subjects = if qualified_raw.as_str().is_empty() {
        proof {
            lemma_listed_names_of_empty();
        }
        assert(qualified_raw@ =~= Seq::<char>::empty());
        let v: Vec<String> = Vec::new();
        assert(v.deep_view() =~= Seq::<Seq<char>>::empty());
        v
    } else {
        split_name_list(qualified_raw.as_str())
    };
    TeacherImport { name, max_daily_periods, max_weekly_periods, qualified_subjects }
}

fn csv_classroom_of(rec: &Vec<String>, n: usize, g: usize) -> (c: ClassroomImport)
    ensures
        c@ == csv_classroom(rec.deep_view(), n as int, g as int),
{
    let name = trim_string(field_text(rec, n).as_str());
    let grade_level = int_or_zero_of(&field_text(rec, g));
    ClassroomImport { name, grade_level }
}

fn csv_subject_of(rec: &Vec<String>, n: usize, b: usize) -> (s: SubjectImport)
    ensures
        s@ == csv_subject(rec.deep_view(), n as int, b as int),
{
    let name = trim_string(field_text(rec, n).as_str());
    let base_periods_per_week = int_or_zero_of(&field_text(rec, b));
    SubjectImport { name, base_periods_per_week }
}

fn csv_progress_of(rec: &Vec<String>, c: usize, s: usize, cur: usize, exp: usize) -> (p: AcademicProgressImport)
    ensures
        p@ == csv_progress(rec.deep_view(), c as int, s as int, cur as int, exp as int),
{
    let classroom_name = trim_string(field_text(rec, c).as_str());
    let subject_name = trim_string(field_text(rec, s).as_str());
    let current_progress_ratio = ratio_or_zero_of(field_text(rec, cur));
    let expected_progress_ratio = ratio_or_zero_of(field_text(rec, exp));
    AcademicProgressImport { classroom_name, subject_name, current_progress_ratio, expected_progress_ratio }
}

fn read_teachers(h: &[String], records: Option<Vec<Vec<String>>>) -> (r: Result<ImportedData, ImportError>)
    ensures
        outcome_view(r) == csv_teachers(h.deep_view(), records.deep_view()),
{
    let n = match find_column(h, Column::TeacherName) {
        Ok(i) => i,
        Err(e) => return Err(e),
    };
    let d = match find_column(h, Column::TeacherDailyPeriods) {
        Ok(i) => i,
        Err(e) => return Err(e),
    };
    let w = match find_column(h, Column::TeacherWeeklyPeriods) {
        Ok(i) => i,
        Err(e) => return Err(e),
    };
    let q = match find_column(h, Column::TeacherSubjects) {
        Ok(i) => i,
        Err(e) => return Err(e),
    };
    let rs = match records {
        Some(rs) => rs,
        None => return Err(ImportError::CsvRecord),
    };
    let mut out: Vec<TeacherImport> = Vec::new();
    for k in 0..rs.len()
        invariant
            views(out@) == csv_teacher_rows(rs.deep_view().take(k as int), n as int, d as int, w as int, q as int),
    {
        let ghost before = views(out@);
        let t = csv_teacher_of(&rs[k], n, d, w, q);
        out.push(t);
        assert(views(out@) =~= before.push(t@));
        assert(csv_teacher_rows(rs.deep_view().take(k + 1), n as int, d as int, w as int, q as int) =~= before.push(
            csv_teacher(rs.deep_view()[k as int], n as int, d as int, w as int, q as int),
        ));
    }
    assert(rs.deep_view().take(rs@.len() as int) =~= rs.deep_view());
    assert(views(out@) == csv_teacher_rows(rs.deep_view(), n as int, d as int, w as int, q as int));
    Ok(ImportedData::Teachers(out))
}

fn read_classrooms(h: &[String], records: Option<Vec<Vec<String>>>) -> (r: Result<ImportedData, ImportError>)
    ensures
        outcome_view(r) == csv_classrooms(h.deep_view(), records.deep_view()),
{
    let n = match find_column(h, Column::ClassroomName) {
        Ok(i) => i,
        Err(e) => return Err(e),
    };
    let g = match find_column(h, Column::ClassroomGrade) {
        Ok(i) => i,
        Err(e) => return Err(e),
    };
    let rs = match records {
        Some(rs) => rs,
        None => return Err(ImportError::CsvRecord),
    };
    let mut out: Vec<ClassroomImport> = Vec::new();
    for k in 0..rs.len()
        invariant
            views(out@) == csv_classroom_rows(rs.deep_view().take(k as int), n as int, g as int),
    {
        let ghost before = views(out@);
        let c = csv_classroom_of(&rs[k], n, g);
        out.push(c);
        assert(views(out@) =~= before.push(c@));
        assert(csv_classroom_rows(rs.deep_view().take(k + 1), n as int, g as int) =~= before.push(
            csv_classroom(rs.deep_view()[k as int], n as int, g as int),
        ));
    }
    assert(rs.deep_view().take(rs@.len() as int) =~= rs.deep_view());
    assert(views(out@) == csv_classroom_rows(rs.deep_view(), n as int, g as int));
    Ok(ImportedData::Classrooms(out))
}

fn read_subjects(h: &[String], records: Option<Vec<Vec<String>>>) -> (r: Result<ImportedData, ImportError>)
    ensures
        outcome_view(r) == csv_subjects(h.deep_view(), records.deep_view()),
{
    let n = match find_column(h, Column::SubjectName) {
        Ok(i) => i,
        Err(e) => return Err(e),
    };
    let b = match find_column(h, Column::SubjectPeriods) {
        Ok(i) => i,
        Err(e) => return Err(e),
    };
    let rs = match records {
        Some(rs) => rs,
        None => return Err(ImportError::CsvRecord),
    };
    let mut out: Vec<SubjectImport> = Vec::new();
    for k in 0..rs.len()
        invariant
            views(out@) == csv_subject_rows(rs.deep_view().take(k as int), n as int, b as int),
    {
        let ghost before = views(out@);
        let s = csv_subject_of(&rs[k], n, b);
        out.push(s);
        assert(views(out@) =~= before.push(s@));
        assert(csv_subject_rows(rs.deep_view().take(k + 1), n as int, b as int) =~= before.push(
            csv_subject(rs.deep_view()[k as int], n as int, b as int),
        ));
    }
    assert(rs.deep_view().take(rs@.len() as int) =~= rs.deep_view());
    assert(views(out@) == csv_subject_rows(rs.deep_view(), n as int, b as int));
    Ok(ImportedData::Subjects(out))
}

fn read_progress(h: &[String], records: Option<Vec<Vec<String>>>) -> (r: Result<ImportedData, ImportError>)
    ensures
        outcome_view(r) == csv_progress_table(h.deep_view(), records.deep_view()),
{
    let c = match find_column(h, Column::ProgressClassroom) {
        Ok(i) => i,
        Err(e) => return Err(e),
    };
    let s = match find_column(h, Column::ProgressSubject) {
        Ok(i) => i,
        Err(e) => return Err(e),
    };
    let cur = match find_column(h, Column::ProgressCurrent) {
        Ok(i) => i,
        Err(e) => return Err(e),
    };
    let exp = match find_column(h, Column::ProgressExpected) {
        Ok(i) => i,
        Err(e) => return Err(e),
    };
    let rs = match records {
        Some(rs) => rs,
        None => return Err(ImportError::CsvRecord),
    };
    let mut out: Vec<AcademicProgressImport> = Vec::new();
    for k in 0..rs.len()
        invariant
            views(out@) == csv_progress_rows(rs.deep_view().take(k as int), c as int, s as int, cur as int, exp as int),
    {
        let ghost before = views(out@);
        let p = csv_progress_of(&rs[k], c, s, cur, exp);
        out.push(p);
        assert(views(out@) =~= before.push(p@));
        assert(csv_progress_rows(rs.deep_view().take(k + 1), c as int, s as int, cur as int, exp as int) =~= before.push(
            csv_progress(rs.deep_view()[k as int], c as int, s as int, cur as int, exp as int),
        ));
    }
    assert(rs.deep_view().take(rs@.len() as int) =~= rs.deep_view());
    assert(views(out@) == csv_progress_rows(rs.deep_view(), c as int, s as int, cur as int, exp as int));
    Ok(ImportedData::Progress(out))
}

/// Builds the import of a CSV file from its header row and its records, as the
/// CSV reader returned them (`None` where reading failed).
pub fn import_csv_table(headers: Option<Vec<String>>, records: Option<Vec<Vec<String>>>) -> (r: Result<ImportedData, ImportError>)
    ensures
        outcome_view(r) == csv_import(headers.deep_view(), records.deep_view()),
{
    let raw = match headers {
        Some(raw) => raw,
        None => return Err(ImportError::CsvHeaders),
    };
    let h = normalize_all(raw.as_slice());
    let hs = h.as_slice();
    assert(hs.deep_view() =~= normalized_headers(raw.deep_view()));
    match pick_layout(hs) {
        Some(CsvLayout::Teachers) => read_teachers(hs, records),
        Some(CsvLayout::Classrooms) => read_classrooms(hs, records),
        Some(CsvLayout::Subjects) => read_subjects(hs, records),
        Some(CsvLayout::Progress) => read_progress(hs, records),
        None => Err(ImportError::UnknownCsvLayout(raw)),
    }
}


} // verus!

verus! {

/// The header row that the `csv` crate reads from `data` (a reader built by
/// `ReaderBuilder::new().has_headers(true)`, then `Reader::headers`), each field
/// as text; `None` when reading it fails.
pub uninterp spec fn csv_header_row(data: Seq<u8>) -> Option<Seq<Seq<char>>>;

/// The records that the `csv` crate reads from `data` after its header row
/// (`Reader::records` of the same kind of reader), each as its fields' text;
/// `None` when reading any of them fails.
pub uninterp spec fn csv_data_records(data: Seq<u8>) -> Option<Seq<Seq<Seq<char>>>>;

/// Calls `csv::ReaderBuilder::new().has_headers(true).from_reader(data)` and
/// `Reader::headers`. The contract only names the result (`csv_header_row`);
/// the CSV dialect itself is the crate's.
#[verifier::external_body]
fn read_csv_headers(data: &[u8]) -> (r: Option<Vec<String>>)
    ensures
        r.deep_view() == csv_header_row(data@),
{
    let mut rdr = csv::ReaderBuilder::new().has_headers(true).from_reader(data);
    let headers = rdr.headers().ok()?;
    Some(headers.iter().map(|f| f.to_string()).collect())
}

/// Calls `csv::ReaderBuilder::new().has_headers(true).from_reader(data)` and
/// collects `Reader::records`, stopping at the first record that fails. The
/// contract only names the result (`csv_data_records`).
#[verifier::external_body]
fn read_csv_records(data: &[u8]) -> (r: Option<Vec<Vec<String>>>)
    ensures
        r.deep_view() == csv_data_records(data@),
{
    let mut rdr = csv::ReaderBuilder::new().has_headers(true).from_reader(data);
    let mut rows = Vec::new();
    for record in rdr.records() {
        rows.push(record.ok()?.iter().map(|f| f.to_string()).collect());
    }
    Some(rows)
}

/// Reads one entity table from the bytes of a CSV file: the layout is chosen
/// from the headers, the columns are found by their aliases, and each record
/// becomes a row (see `csv_import`).
pub fn parse_csv(data: &[u8]) -> (r: Result<ImportedData, ImportError>)
    ensures
        outcome_view(r) == csv_import(csv_header_row(data@), csv_data_records(data@)),
{
    let headers = read_csv_headers(data);
    if headers.is_none() {
        return Err(ImportError::CsvHeaders);
    }
    let records = read_csv_records(data);
    import_csv_table(headers, records)
}

} // verus!

verus! {

/// The number of rows an import holds.
pub open spec fn row_count(d: ImportedDataView) -> nat {
    match d {
        ImportedDataView::Excel { teachers, classrooms, subjects, progress } => teachers.len() + classrooms.len()
            + subjects.len() + progress.len(),
        ImportedDataView::Teachers(v) => v.len(),
        ImportedDataView::Classrooms(v) => v.len(),
        ImportedDataView::Subjects(v) => v.len(),
        ImportedDataView::Progress(v) => v.len(),
    }
}

/// Law: a CSV import that succeeds holds one row per record of the file,
/// all of one entity.
pub proof fn law_csv_one_row_per_record(headers: Seq<Seq<char>>, records: Seq<Seq<Seq<char>>>)
    requires
        csv_import(Some(headers), Some(records)) is Ok,
    ensures
        row_count(csv_import(Some(headers), Some(records))->Ok_0) == records.len(),
        !(csv_import(Some(headers), Some(records))->Ok_0 is Excel),
{
}


/// Whether an import holds rows of the entity of layout `l`.
pub open spec fn holds_layout(d: ImportedDataView, l: CsvLayout) -> bool {
    match l {
        CsvLayout::Teachers => d is Teachers,
        CsvLayout::Classrooms => d is Classrooms,
        CsvLayout::Subjects => d is Subjects,
        CsvLayout::Progress => d is Progress,
    }
}

/// Law: when the normalized headers hold every column of some layout and the
/// records were read, the CSV import succeeds, with an entity whose columns
/// are all there.
pub proof fn law_csv_complete_layout_imports(headers: Seq<Seq<char>>, records: Seq<Seq<Seq<char>>>, l: CsvLayout)
    requires
        layout_resolves(normalized_headers(headers), l),
    ensures
        csv_import(Some(headers), Some(records)) is Ok,
        exists|k: CsvLayout|
            layout_resolves(normalized_headers(headers), k) && #[trigger] holds_layout(
                csv_import(Some(headers), Some(records))->Ok_0,
                k,
            ),
{
    let h = normalized_headers(headers);
    assert(layout_fits(h, l, false, true));
    let k = csv_layout(h)->0;
    assert(layout_resolves(h, k));
    assert(holds_layout(csv_import(Some(headers), Some(records))->Ok_0, k));
}

/// Law: a file whose normalized headers hold every column of exactly one
/// layout is read as that layout, whatever markers of other layouts it also
/// carries (a progress file with a `classroom` column is read as progress).
pub proof fn law_csv_sole_complete_layout(headers: Seq<Seq<char>>, records: Seq<Seq<Seq<char>>>, l: CsvLayout)
    requires
        layout_resolves(normalized_headers(headers), l),
        forall|k: CsvLayout| k != l ==> !layout_resolves(normalized_headers(headers), k),
    ensures
        csv_import(Some(headers), Some(records)) is Ok,
        holds_layout(csv_import(Some(headers), Some(records))->Ok_0, l),
{
    law_csv_complete_layout_imports(headers, records, l);
}
} // verus!
