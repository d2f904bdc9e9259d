//! The records that an import produces, the errors it reports, and the column
//! aliases under which it finds its data.
use vstd::prelude::*;

verus! {

/// A teacher row: name, workload limits and the subjects the teacher is qualified for.
#[derive(Debug, Clone, PartialEq)]
pub struct TeacherImport {
    pub name: String,
    pub max_daily_periods: i32,
    pub max_weekly_periods: i32,
    pub qualified_subjects: Vec<String>,
}

/// A classroom (cohort) row.
#[derive(Debug, Clone, PartialEq)]
pub struct ClassroomImport {
    pub name: String,
    pub grade_level: i32,
}

/// A subject row.
#[derive(Debug, Clone, PartialEq)]
pub struct SubjectImport {
    pub name: String,
    pub base_periods_per_week: i32,
}

/// A curriculum progress row. The two ratios are held as the decimal text of
/// the number (text that `str::parse::<f64>` accepts), so that the value is
/// exactly the one the source file holds.
#[derive(Debug, Clone, PartialEq)]
pub struct AcademicProgressImport {
    pub classroom_name: String,
    pub subject_name: String,
    pub current_progress_ratio: String,
    pub expected_progress_ratio: String,
}

/// Everything one import file yields.
#[derive(Debug, Clone, PartialEq)]
pub enum ImportedData {
    Excel {
        teachers: Vec<TeacherImport>,
        classrooms: Vec<ClassroomImport>,
        subjects: Vec<SubjectImport>,
        progress: Vec<AcademicProgressImport>,
    },
    Teachers(Vec<TeacherImport>),
    Classrooms(Vec<ClassroomImport>),
    Subjects(Vec<SubjectImport>),
    Progress(Vec<AcademicProgressImport>),
}

/// A worksheet cell, as read from a workbook. Float cells hold the text that
/// `Display` writes for the float; date-time and error cells hold their
/// `Display` text.
#[derive(Debug, Clone, PartialEq)]
pub enum Cell {
    Int(i64),
    Float(String),
    String(String),
    Bool(bool),
    DateTime(String),
    DateTimeIso(String),
    DurationIso(String),
    Error(String),
    Empty,
}

/// Why an import failed.
#[derive(Debug, Clone, PartialEq)]
pub enum ImportError {
    /// The CSV header row could not be read.
    CsvHeaders,
    /// A CSV record could not be read.
    CsvRecord,
    /// No known entity matches the CSV headers (the headers as read).
    UnknownCsvLayout(Vec<String>),
    /// No column matches any of these aliases.
    MissingColumn(Vec<String>),
    /// The bytes are not a readable workbook.
    WorkbookOpen,
    /// A cell that should hold text holds this.
    NotText(Cell),
    /// A cell that should hold an integer holds this.
    NotInteger(Cell),
    /// A text cell that should hold an integer holds this text.
    BadInteger(String),
    /// A cell that should hold a number holds this.
    NotNumber(Cell),
    /// A text cell that should hold a number holds this text.
    BadNumber(String),
}

pub struct TeacherImportView {
    pub name: Seq<char>,
    pub max_daily_periods: i32,
    pub max_weekly_periods: i32,
    pub qualified_subjects: Seq<Seq<char>>,
}

pub struct ClassroomImportView {
    pub name: Seq<char>,
    pub grade_level: i32,
}

pub struct SubjectImportView {
    pub name: Seq<char>,
    pub base_periods_per_week: i32,
}

pub struct AcademicProgressImportView {
    pub classroom_name: Seq<char>,
    pub subject_name: Seq<char>,
    pub current_progress_ratio: Seq<char>,
    pub expected_progress_ratio: Seq<char>,
}

pub enum ImportedDataView {
    Excel {
        teachers: Seq<TeacherImportView>,
        classrooms: Seq<ClassroomImportView>,
        subjects: Seq<SubjectImportView>,
        progress: Seq<AcademicProgressImportView>,
    },
    Teachers(Seq<TeacherImportView>),
    Classrooms(Seq<ClassroomImportView>),
    Subjects(Seq<SubjectImportView>),
    Progress(Seq<AcademicProgressImportView>),
}

pub enum CellView {
    Int(i64),
    Float(Seq<char>),
    String(Seq<char>),
    Bool(bool),
    DateTime(Seq<char>),
    DateTimeIso(Seq<char>),
    DurationIso(Seq<char>),
    Error(Seq<char>),
    Empty,
}

pub enum ImportErrorView {
    CsvHeaders,
    CsvRecord,
    UnknownCsvLayout(Seq<Seq<char>>),
    MissingColumn(Seq<Seq<char>>),
    WorkbookOpen,
    NotText(CellView),
    NotInteger(CellView),
    BadInteger(Seq<char>),
    NotNumber(CellView),
    BadNumber(Seq<char>),
}

impl View for TeacherImport {
    type V = TeacherImportView;

    open spec fn view(&self) -> TeacherImportView {
        TeacherImportView {
            name: self.name@,
            max_daily_periods: self.max_daily_periods,
            max_weekly_periods: self.max_weekly_periods,
            qualified_subjects: self.qualified_subjects.deep_view(),
        }
    }
}

impl View for ClassroomImport {
    type V = ClassroomImportView;

    open spec fn view(&self) -> ClassroomImportView {
        ClassroomImportView { name: self.name@, grade_level: self.grade_level }
    }
}

impl View for SubjectImport {
    type V = SubjectImportView;

    open spec fn view(&self) -> SubjectImportView {
        SubjectImportView { name: self.name@, base_periods_per_week: self.base_periods_per_week }
    }
}

impl View for AcademicProgressImport {
    type V = AcademicProgressImportView;

    open spec fn view(&self) -> AcademicProgressImportView {
        AcademicProgressImportView {
            classroom_name: self.classroom_name@,
            subject_name: self.subject_name@,
            current_progress_ratio: self.current_progress_ratio@,
            expected_progress_ratio: self.expected_progress_ratio@,
        }
    }
}

/// The views of a sequence of values.
pub open spec fn views<T: View>(s: Seq<T>) -> Seq<T::V> {
    s.map_values(|x: T| x@)
}

impl View for ImportedData {
    type V = ImportedDataView;

    open spec fn view(&self) -> ImportedDataView {
        match self {
            ImportedData::Excel { teachers, classrooms, subjects, progress } => ImportedDataView::Excel {
                teachers: views(teachers@),
                classrooms: views(classrooms@),
                subjects: views(subjects@),
                progress: views(progress@),
            },
            ImportedData::Teachers(v) => ImportedDataView::Teachers(views(v@)),
            ImportedData::Classrooms(v) => ImportedDataView::Classrooms(views(v@)),
            ImportedData::Subjects(v) => ImportedDataView::Subjects(views(v@)),
            ImportedData::Progress(v) => ImportedDataView::Progress(views(v@)),
        }
    }
}

impl View for Cell {
    type V = CellView;

    open spec fn view(&self) -> CellView {
        match self {
            Cell::Int(i) => CellView::Int(*i),
            Cell::Float(t) => CellView::Float(t@),
            Cell::String(s) => CellView::String(s@),
            Cell::Bool(b) => CellView::Bool(*b),
            Cell::DateTime(t) => CellView::DateTime(t@),
            Cell::DateTimeIso(t) => CellView::DateTimeIso(t@),
            Cell::DurationIso(t) => CellView::DurationIso(t@),
            Cell::Error(t) => CellView::Error(t@),
            Cell::Empty => CellView::Empty,
        }
    }
}

impl View for ImportError {
    type V = ImportErrorView;

    open spec fn view(&self) -> ImportErrorView {
        match self {
            ImportError::CsvHeaders => ImportErrorView::CsvHeaders,
            ImportError::CsvRecord => ImportErrorView::CsvRecord,
            ImportError::UnknownCsvLayout(h) => ImportErrorView::UnknownCsvLayout(h.deep_view()),
            ImportError::MissingColumn(a) => ImportErrorView::MissingColumn(a.deep_view()),
            ImportError::WorkbookOpen => ImportErrorView::WorkbookOpen,
            ImportError::NotText(c) => ImportErrorView::NotText(c@),
            ImportError::NotInteger(c) => ImportErrorView::NotInteger(c@),
            ImportError::BadInteger(s) => ImportErrorView::BadInteger(s@),
            ImportError::NotNumber(c) => ImportErrorView::NotNumber(c@),
            ImportError::BadNumber(s) => ImportErrorView::BadNumber(s@),
        }
    }
}

/// The view of an import's outcome.
pub open spec fn outcome_view(r: Result<ImportedData, ImportError>) -> Result<ImportedDataView, ImportErrorView> {
    match r {
        Ok(d) => Ok(d@),
        Err(e) => Err(e@),
    }
}

/// A column that an import looks for.
#[derive(Debug, Clone, Copy, PartialEq, Eq)]
pub enum Column {
    TeacherName,
    TeacherDailyPeriods,
    TeacherWeeklyPeriods,
    TeacherSubjects,
    ClassroomName,
    ClassroomGrade,
    SubjectName,
    SubjectPeriods,
    ProgressClassroom,
    ProgressSubject,
    ProgressCurrent,
    ProgressExpected,
}

/// The normalized header names under which a column is found, in order of preference.
pub open spec fn aliases_of(c: Column) -> Seq<Seq<char>> {
    match c {
        Column::TeacherName => seq!["name"@],
        Column::TeacherDailyPeriods => seq!["max_daily_periods"@, "daily_periods"@, "max_daily"@],
        Column::TeacherWeeklyPeriods => seq!["max_weekly_periods"@, "weekly_periods"@, "max_weekly"@],
        Column::TeacherSubjects => seq!["qualified_subjects"@, "subjects"@, "qualification"@],
        Column::ClassroomName => seq!["name"@, "classroom"@, "class"@],
        Column::ClassroomGrade => seq!["grade_level"@, "grade"@, "level"@],
        Column::SubjectName => seq!["name"@, "subject"@],
        Column::SubjectPeriods => seq![
            "base_periods_per_week"@,
            "periods_per_week"@,
            "base_periods"@,
            "periods"@,
        ],
        Column::ProgressClassroom => seq!["classroom_name"@, "classroom"@, "class"@],
        Column::ProgressSubject => seq!["subject_name"@, "subject"@],
        Column::ProgressCurrent => seq![
            "current_progress_ratio"@,
            "current_progress"@,
            "current"@,
            "progress"@,
        ],
        Column::ProgressExpected => seq![
            "expected_progress_ratio"@,
            "expected_progress"@,
            "expected"@,
        ],
    }
}

/// The aliases of a column (see `aliases_of`).
pub fn column_aliases(c: Column) -> (r: Vec<&'static str>)
    ensures
        r.deep_view() == aliases_of(c),
{
    let r = match c {
        Column::TeacherName => vec!["name"],
        Column::TeacherDailyPeriods => vec!["max_daily_periods", "daily_periods", "max_daily"],
        Column::TeacherWeeklyPeriods => vec!["max_weekly_periods", "weekly_periods", "max_weekly"],
        Column::TeacherSubjects => vec!["qualified_subjects", "subjects", "qualification"],
        Column::ClassroomName => vec!["name", "classroom", "class"],
        Column::ClassroomGrade => vec!["grade_level", "grade", "level"],
        Column::SubjectName => vec!["name", "subject"],
        Column::SubjectPeriods => vec!["base_periods_per_week", "periods_per_week", "base_periods", "periods"],
        Column::ProgressClassroom => vec!["classroom_name", "classroom", "class"],
        Column::ProgressSubject => vec!["subject_name", "subject"],
        Column::ProgressCurrent => vec!["current_progress_ratio", "current_progress", "current", "progress"],
        Column::ProgressExpected => vec!["expected_progress_ratio", "expected_progress", "expected"],
    };
    assert(r.deep_view() =~= aliases_of(c));
    r
}

} // verus!

verus! {

/// The entity a column belongs to: teachers, classrooms, subjects, progress.
pub open spec fn column_entity(c: Column) -> int {
    match c {
        Column::TeacherName | Column::TeacherDailyPeriods | Column::TeacherWeeklyPeriods
        | Column::TeacherSubjects => 0,
        Column::ClassroomName | Column::ClassroomGrade => 1,
        Column::SubjectName | Column::SubjectPeriods => 2,
        _ => 3,
    }
}

/// The name of the field that a column fills, as the database and the
/// imported rows call it.
pub open spec fn field_name(c: Column) -> Seq<char> {
    match c {
        Column::TeacherName => "name"@,
        Column::TeacherDailyPeriods => "max_daily_periods"@,
        Column::TeacherWeeklyPeriods => "max_weekly_periods"@,
        Column::TeacherSubjects => "qualified_subjects"@,
        Column::ClassroomName => "name"@,
        Column::ClassroomGrade => "grade_level"@,
        Column::SubjectName => "name"@,
        Column::SubjectPeriods => "base_periods_per_week"@,
        Column::ProgressClassroom => "classroom_name"@,
        Column::ProgressSubject => "subject_name"@,
        Column::ProgressCurrent => "current_progress_ratio"@,
        Column::ProgressExpected => "expected_progress_ratio"@,
    }
}

/// No text is in both lists.
pub open spec fn disjoint_texts(a: Seq<Seq<char>>, b: Seq<Seq<char>>) -> bool {
    forall|i: int, j: int| 0 <= i < a.len() && 0 <= j < b.len() ==> #[trigger] a[i] != #[trigger] b[j]
}

proof fn lemma_aliases_apart_teacher_name_teacher_daily_periods()
    ensures
        disjoint_texts(aliases_of(Column::TeacherName), aliases_of(Column::TeacherDailyPeriods)),
        disjoint_texts(aliases_of(Column::TeacherDailyPeriods), aliases_of(Column::TeacherName)),
{
    reveal_strlit("daily_periods");
    reveal_strlit("max_daily");
    reveal_strlit("max_daily_periods");
    reveal_strlit("name");
    let a = aliases_of(Column::TeacherName);
    let b = aliases_of(Column::TeacherDailyPeriods);
    assert(a[0].len() != b[0].len());
    assert(a[0].len() != b[1].len());
    assert(a[0].len() != b[2].len());
    assert forall|i: int, j: int| 0 <= i < a.len() && 0 <= j < b.len() implies a[i] != b[j] by {
        assert(a[i] == a[0]);
        assert(b[j] == b[0] || b[j] == b[1] || b[j] == b[2]);
    }
    assert forall|i: int, j: int| 0 <= i < b.len() && 0 <= j < a.len() implies b[i] != a[j] by {
        assert(b[i] == b[0] || b[i] == b[1] || b[i] == b[2]);
        assert(a[j] == a[0]);
    }
}

proof fn lemma_aliases_apart_teacher_name_teacher_weekly_periods()
    ensures
        disjoint_texts(aliases_of(Column::TeacherName), aliases_of(Column::TeacherWeeklyPeriods)),
        disjoint_texts(aliases_of(Column::TeacherWeeklyPeriods), aliases_of(Column::TeacherName)),
{
    reveal_strlit("max_weekly");
    reveal_strlit("max_weekly_periods");
    reveal_strlit("name");
    reveal_strlit("weekly_periods");
    let a = aliases_of(Column::TeacherName);
    let b = aliases_of(Column::TeacherWeeklyPeriods);
    assert(a[0].len() != b[0].len());
    assert(a[0].len() != b[1].len());
    assert(a[0].len() != b[2].len());
    assert forall|i: int, j: int| 0 <= i < a.len() && 0 <= j < b.len() implies a[i] != b[j] by {
        assert(a[i] == a[0]);
        assert(b[j] == b[0] || b[j] == b[1] || b[j] == b[2]);
    }
    assert forall|i: int, j: int| 0 <= i < b.len() && 0 <= j < a.len() implies b[i] != a[j] by {
        assert(b[i] == b[0] || b[i] == b[1] || b[i] == b[2]);
        assert(a[j] == a[0]);
    }
}

proof fn lemma_aliases_apart_teacher_name_teacher_subjects()
    ensures
        disjoint_texts(aliases_of(Column::TeacherName), aliases_of(Column::TeacherSubjects)),
        disjoint_texts(aliases_of(Column::TeacherSubjects), aliases_of(Column::TeacherName)),
{
    reveal_strlit("name");
    reveal_strlit("qualification");
    reveal_strlit("qualified_subjects");
    reveal_strlit("subjects");
    let a = aliases_of(Column::TeacherName);
    let b = aliases_of(Column::TeacherSubjects);
    assert(a[0].len() != b[0].len());
    assert(a[0].len() != b[1].len());
    assert(a[0].len() != b[2].len());
    assert forall|i: int, j: int| 0 <= i < a.len() && 0 <= j < b.len() implies a[i] != b[j] by {
        assert(a[i] == a[0]);
        assert(b[j] == b[0] || b[j] == b[1] || b[j] == b[2]);
    }
    assert forall|i: int, j: int| 0 <= i < b.len() && 0 <= j < a.len() implies b[i] != a[j] by {
        assert(b[i] == b[0] || b[i] == b[1] || b[i] == b[2]);
        assert(a[j] == a[0]);
    }
}

proof fn lemma_aliases_apart_teacher_daily_periods_teacher_weekly_periods()
    ensures
        disjoint_texts(aliases_of(Column::TeacherDailyPeriods), aliases_of(Column::TeacherWeeklyPeriods)),
        disjoint_texts(aliases_of(Column::TeacherWeeklyPeriods), aliases_of(Column::TeacherDailyPeriods)),
{
    reveal_strlit("daily_periods");
    reveal_strlit("max_daily");
    reveal_strlit("max_daily_periods");
    reveal_strlit("max_weekly");
    reveal_strlit("max_weekly_periods");
    reveal_strlit("weekly_periods");
    let a = aliases_of(Column::TeacherDailyPeriods);
    let b = aliases_of(Column::TeacherWeeklyPeriods);
    assert(a[0].len() != b[0].len());
    assert(a[0].len() != b[1].len());
    assert(a[0].len() != b[2].len());
    assert(a[1].len() != b[0].len());
    assert(a[1].len() != b[1].len());
    assert(a[1].len() != b[2].len());
    assert(a[2].len() != b[0].len());
    assert(a[2].len() != b[1].len());
    assert(a[2].len() != b[2].len());
    assert forall|i: int, j: int| 0 <= i < a.len() && 0 <= j < b.len() implies a[i] != b[j] by {
        assert(a[i] == a[0] || a[i] == a[1] || a[i] == a[2]);
        assert(b[j] == b[0] || b[j] == b[1] || b[j] == b[2]);
    }
    assert forall|i: int, j: int| 0 <= i < b.len() && 0 <= j < a.len() implies b[i] != a[j] by {
        assert(b[i] == b[0] || b[i] == b[1] || b[i] == b[2]);
        assert(a[j] == a[0] || a[j] == a[1] || a[j] == a[2]);
    }
}

proof fn lemma_aliases_apart_teacher_daily_periods_teacher_subjects()
    ensures
        disjoint_texts(aliases_of(Column::TeacherDailyPeriods), aliases_of(Column::TeacherSubjects)),
        disjoint_texts(aliases_of(Column::TeacherSubjects), aliases_of(Column::TeacherDailyPeriods)),
{
    reveal_strlit("daily_periods");
    reveal_strlit("max_daily");
    reveal_strlit("max_daily_periods");
    reveal_strlit("qualification");
    reveal_strlit("qualified_subjects");
    reveal_strlit("subjects");
    let a = aliases_of(Column::TeacherDailyPeriods);
    let b = aliases_of(Column::TeacherSubjects);
    assert(a[0].len() != b[0].len());
    assert(a[0].len() != b[1].len());
    assert(a[0].len() != b[2].len());
    assert(a[1].len() != b[0].len());
    assert(a[1].len() != b[1].len());
    assert(a[1][0] != b[2][0]);
    assert(a[2].len() != b[0].len());
    assert(a[2].len() != b[1].len());
    assert(a[2].len() != b[2].len());
    assert forall|i: int, j: int| 0 <= i < a.len() && 0 <= j < b.len() implies a[i] != b[j] by {
        assert(a[i] == a[0] || a[i] == a[1] || a[i] == a[2]);
        assert(b[j] == b[0] || b[j] == b[1] || b[j] == b[2]);
    }
    assert forall|i: int, j: int| 0 <= i < b.len() && 0 <= j < a.len() implies b[i] != a[j] by {
        assert(b[i] == b[0] || b[i] == b[1] || b[i] == b[2]);
        assert(a[j] == a[0] || a[j] == a[1] || a[j] == a[2]);
    }
}

proof fn lemma_aliases_apart_teacher_weekly_periods_teacher_subjects()
    ensures
        disjoint_texts(aliases_of(Column::TeacherWeeklyPeriods), aliases_of(Column::TeacherSubjects)),
        disjoint_texts(aliases_of(Column::TeacherSubjects), aliases_of(Column::TeacherWeeklyPeriods)),
{
    reveal_strlit("max_weekly");
    reveal_strlit("max_weekly_periods");
    reveal_strlit("qualification");
    reveal_strlit("qualified_subjects");
    reveal_strlit("subjects");
    reveal_strlit("weekly_periods");
    let a = aliases_of(Column::TeacherWeeklyPeriods);
    let b = aliases_of(Column::TeacherSubjects);
    assert(a[0][0] != b[0][0]);
    assert(a[0].len() != b[1].len());
    assert(a[0].len() != b[2].len());
    assert(a[1].len() != b[0].len());
    assert(a[1].len() != b[1].len());
    assert(a[1].len() != b[2].len());
    assert(a[2].len() != b[0].len());
    assert(a[2].len() != b[1].len());
    assert(a[2].len() != b[2].len());
    assert forall|i: int, j: int| 0 <= i < a.len() && 0 <= j < b.len() implies a[i] != b[j] by {
        assert(a[i] == a[0] || a[i] == a[1] || a[i] == a[2]);
        assert(b[j] == b[0] || b[j] == b[1] || b[j] == b[2]);
    }
    assert forall|i: int, j: int| 0 <= i < b.len() && 0 <= j < a.len() implies b[i] != a[j] by {
        assert(b[i] == b[0] || b[i] == b[1] || b[i] == b[2]);
        assert(a[j] == a[0] || a[j] == a[1] || a[j] == a[2]);
    }
}

proof fn lemma_aliases_apart_classroom_name_classroom_grade()
    ensures
        disjoint_texts(aliases_of(Column::ClassroomName), aliases_of(Column::ClassroomGrade)),
        disjoint_texts(aliases_of(Column::ClassroomGrade), aliases_of(Column::ClassroomName)),
{
    reveal_strlit("class");
    reveal_strlit("classroom");
    reveal_strlit("grade");
    reveal_strlit("grade_level");
    reveal_strlit("level");
    reveal_strlit("name");
    let a = aliases_of(Column::ClassroomName);
    let b = aliases_of(Column::ClassroomGrade);
    assert(a[0].len() != b[0].len());
    assert(a[0].len() != b[1].len());
    assert(a[0].len() != b[2].len());
    assert(a[1].len() != b[0].len());
    assert(a[1].len() != b[1].len());
    assert(a[1].len() != b[2].len());
    assert(a[2].len() != b[0].len());
    assert(a[2][0] != b[1][0]);
    assert(a[2][0] != b[2][0]);
    assert forall|i: int, j: int| 0 <= i < a.len() && 0 <= j < b.len() implies a[i] != b[j] by {
        assert(a[i] == a[0] || a[i] == a[1] || a[i] == a[2]);
        assert(b[j] == b[0] || b[j] == b[1] || b[j] == b[2]);
    }
    assert forall|i: int, j: int| 0 <= i < b.len() && 0 <= j < a.len() implies b[i] != a[j] by {
        assert(b[i] == b[0] || b[i] == b[1] || b[i] == b[2]);
        assert(a[j] == a[0] || a[j] == a[1] || a[j] == a[2]);
    }
}

proof fn lemma_aliases_apart_subject_name_subject_periods()
    ensures
        disjoint_texts(aliases_of(Column::SubjectName), aliases_of(Column::SubjectPeriods)),
        disjoint_texts(aliases_of(Column::SubjectPeriods), aliases_of(Column::SubjectName)),
{
    reveal_strlit("base_periods");
    reveal_strlit("base_periods_per_week");
    reveal_strlit("name");
    reveal_strlit("periods");
    reveal_strlit("periods_per_week");
    reveal_strlit("subject");
    let a = aliases_of(Column::SubjectName);
    let b = aliases_of(Column::SubjectPeriods);
    assert(a[0].len() != b[0].len());
    assert(a[0].len() != b[1].len());
    assert(a[0].len() != b[2].len());
    assert(a[0].len() != b[3].len());
    assert(a[1].len() != b[0].len());
    assert(a[1].len() != b[1].len());
    assert(a[1].len() != b[2].len());
    assert(a[1][0] != b[3][0]);
    assert forall|i: int, j: int| 0 <= i < a.len() && 0 <= j < b.len() implies a[i] != b[j] by {
        assert(a[i] == a[0] || a[i] == a[1]);
        assert(b[j] == b[0] || b[j] == b[1] || b[j] == b[2] || b[j] == b[3]);
    }
    assert forall|i: int, j: int| 0 <= i < b.len() && 0 <= j < a.len() implies b[i] != a[j] by {
        assert(b[i] == b[0] || b[i] == b[1] || b[i] == b[2] || b[i] == b[3]);
        assert(a[j] == a[0] || a[j] == a[1]);
    }
}

proof fn lemma_aliases_apart_progress_classroom_progress_subject()
    ensures
        disjoint_texts(aliases_of(Column::ProgressClassroom), aliases_of(Column::ProgressSubject)),
        disjoint_texts(aliases_of(Column::ProgressSubject), aliases_of(Column::ProgressClassroom)),
{
    reveal_strlit("class");
    reveal_strlit("classroom");
    reveal_strlit("classroom_name");
    reveal_strlit("subject");
    reveal_strlit("subject_name");
    let a = aliases_of(Column::ProgressClassroom);
    let b = aliases_of(Column::ProgressSubject);
    assert(a[0].len() != b[0].len());
    assert(a[0].len() != b[1].len());
    assert(a[1].len() != b[0].len());
    assert(a[1].len() != b[1].len());
    assert(a[2].len() != b[0].len());
    assert(a[2].len() != b[1].len());
    assert forall|i: int, j: int| 0 <= i < a.len() && 0 <= j < b.len() implies a[i] != b[j] by {
        assert(a[i] == a[0] || a[i] == a[1] || a[i] == a[2]);
        assert(b[j] == b[0] || b[j] == b[1]);
    }
    assert forall|i: int, j: int| 0 <= i < b.len() && 0 <= j < a.len() implies b[i] != a[j] by {
        assert(b[i] == b[0] || b[i] == b[1]);
        assert(a[j] == a[0] || a[j] == a[1] || a[j] == a[2]);
    }
}

proof fn lemma_aliases_apart_progress_classroom_progress_current()
    ensures
        disjoint_texts(aliases_of(Column::ProgressClassroom), aliases_of(Column::ProgressCurrent)),
        disjoint_texts(aliases_of(Column::ProgressCurrent), aliases_of(Column::ProgressClassroom)),
{
    reveal_strlit("class");
    reveal_strlit("classroom");
    reveal_strlit("classroom_name");
    reveal_strlit("current");
    reveal_strlit("current_progress");
    reveal_strlit("current_progress_ratio");
    reveal_strlit("progress");
    let a = aliases_of(Column::ProgressClassroom);
    let b = aliases_of(Column::ProgressCurrent);
    assert(a[0].len() != b[0].len());
    assert(a[0].len() != b[1].len());
    assert(a[0].len() != b[2].len());
    assert(a[0].len() != b[3].len());
    assert(a[1].len() != b[0].len());
    assert(a[1].len() != b[1].len());
    assert(a[1].len() != b[2].len());
    assert(a[1].len() != b[3].len());
    assert(a[2].len() != b[0].len());
    assert(a[2].len() != b[1].len());
    assert(a[2].len() != b[2].len());
    assert(a[2].len() != b[3].len());
    assert forall|i: int, j: int| 0 <= i < a.len() && 0 <= j < b.len() implies a[i] != b[j] by {
        assert(a[i] == a[0] || a[i] == a[1] || a[i] == a[2]);
        assert(b[j] == b[0] || b[j] == b[1] || b[j] == b[2] || b[j] == b[3]);
    }
    assert forall|i: int, j: int| 0 <= i < b.len() && 0 <= j < a.len() implies b[i] != a[j] by {
        assert(b[i] == b[0] || b[i] == b[1] || b[i] == b[2] || b[i] == b[3]);
        assert(a[j] == a[0] || a[j] == a[1] || a[j] == a[2]);
    }
}

proof fn lemma_aliases_apart_progress_classroom_progress_expected()
    ensures
        disjoint_texts(aliases_of(Column::ProgressClassroom), aliases_of(Column::ProgressExpected)),
        disjoint_texts(aliases_of(Column::ProgressExpected), aliases_of(Column::ProgressClassroom)),
{
    reveal_strlit("class");
    reveal_strlit("classroom");
    reveal_strlit("classroom_name");
    reveal_strlit("expected");
    reveal_strlit("expected_progress");
    reveal_strlit("expected_progress_ratio");
    let a = aliases_of(Column::ProgressClassroom);
    let b = aliases_of(Column::ProgressExpected);
    assert(a[0].len() != b[0].len());
    assert(a[0].len() != b[1].len());
    assert(a[0].len() != b[2].len());
    assert(a[1].len() != b[0].len());
    assert(a[1].len() != b[1].len());
    assert(a[1].len() != b[2].len());
    assert(a[2].len() != b[0].len());
    assert(a[2].len() != b[1].len());
    assert(a[2].len() != b[2].len());
    assert forall|i: int, j: int| 0 <= i < a.len() && 0 <= j < b.len() implies a[i] != b[j] by {
        assert(a[i] == a[0] || a[i] == a[1] || a[i] == a[2]);
        assert(b[j] == b[0] || b[j] == b[1] || b[j] == b[2]);
    }
    assert forall|i: int, j: int| 0 <= i < b.len() && 0 <= j < a.len() implies b[i] != a[j] by {
        assert(b[i] == b[0] || b[i] == b[1] || b[i] == b[2]);
        assert(a[j] == a[0] || a[j] == a[1] || a[j] == a[2]);
    }
}

proof fn lemma_aliases_apart_progress_subject_progress_current()
    ensures
        disjoint_texts(aliases_of(Column::ProgressSubject), aliases_of(Column::ProgressCurrent)),
        disjoint_texts(aliases_of(Column::ProgressCurrent), aliases_of(Column::ProgressSubject)),
{
    reveal_strlit("current");
    reveal_strlit("current_progress");
    reveal_strlit("current_progress_ratio");
    reveal_strlit("progress");
    reveal_strlit("subject");
    reveal_strlit("subject_name");
    let a = aliases_of(Column::ProgressSubject);
    let b = aliases_of(Column::ProgressCurrent);
    assert(a[0].len() != b[0].len());
    assert(a[0].len() != b[1].len());
    assert(a[0].len() != b[2].len());
    assert(a[0].len() != b[3].len());
    assert(a[1].len() != b[0].len());
    assert(a[1].len() != b[1].len());
    assert(a[1][0] != b[2][0]);
    assert(a[1].len() != b[3].len());
    assert forall|i: int, j: int| 0 <= i < a.len() && 0 <= j < b.len() implies a[i] != b[j] by {
        assert(a[i] == a[0] || a[i] == a[1]);
        assert(b[j] == b[0] || b[j] == b[1] || b[j] == b[2] || b[j] == b[3]);
    }
    assert forall|i: int, j: int| 0 <= i < b.len() && 0 <= j < a.len() implies b[i] != a[j] by {
        assert(b[i] == b[0] || b[i] == b[1] || b[i] == b[2] || b[i] == b[3]);
        assert(a[j] == a[0] || a[j] == a[1]);
    }
}

proof fn lemma_aliases_apart_progress_subject_progress_expected()
    ensures
        disjoint_texts(aliases_of(Column::ProgressSubject), aliases_of(Column::ProgressExpected)),
        disjoint_texts(aliases_of(Column::ProgressExpected), aliases_of(Column::ProgressSubject)),
{
    reveal_strlit("expected");
    reveal_strlit("expected_progress");
    reveal_strlit("expected_progress_ratio");
    reveal_strlit("subject");
    reveal_strlit("subject_name");
    let a = aliases_of(Column::ProgressSubject);
    let b = aliases_of(Column::ProgressExpected);
    assert(a[0].len() != b[0].len());
    assert(a[0].len() != b[1].len());
    assert(a[0].len() != b[2].len());
    assert(a[1].len() != b[0].len());
    assert(a[1].len() != b[1].len());
    assert(a[1].len() != b[2].len());
    assert forall|i: int, j: int| 0 <= i < a.len() && 0 <= j < b.len() implies a[i] != b[j] by {
        assert(a[i] == a[0] || a[i] == a[1]);
        assert(b[j] == b[0] || b[j] == b[1] || b[j] == b[2]);
    }
    assert forall|i: int, j: int| 0 <= i < b.len() && 0 <= j < a.len() implies b[i] != a[j] by {
        assert(b[i] == b[0] || b[i] == b[1] || b[i] == b[2]);
        assert(a[j] == a[0] || a[j] == a[1]);
    }
}

proof fn lemma_aliases_apart_progress_current_progress_expected()
    ensures
        disjoint_texts(aliases_of(Column::ProgressCurrent), aliases_of(Column::ProgressExpected)),
        disjoint_texts(aliases_of(Column::ProgressExpected), aliases_of(Column::ProgressCurrent)),
{
    reveal_strlit("current");
    reveal_strlit("current_progress");
    reveal_strlit("current_progress_ratio");
    reveal_strlit("expected");
    reveal_strlit("expected_progress");
    reveal_strlit("expected_progress_ratio");
    reveal_strlit("progress");
    let a = aliases_of(Column::ProgressCurrent);
    let b = aliases_of(Column::ProgressExpected);
    assert(a[0].len() != b[0].len());
    assert(a[0].len() != b[1].len());
    assert(a[0].len() != b[2].len());
    assert(a[1].len() != b[0].len());
    assert(a[1].len() != b[1].len());
    assert(a[1].len() != b[2].len());
    assert(a[2].len() != b[0].len());
    assert(a[2].len() != b[1].len());
    assert(a[2].len() != b[2].len());
    assert(a[3].len() != b[0].len());
    assert(a[3].len() != b[1].len());
    assert(a[3][0] != b[2][0]);
    assert forall|i: int, j: int| 0 <= i < a.len() && 0 <= j < b.len() implies a[i] != b[j] by {
        assert(a[i] == a[0] || a[i] == a[1] || a[i] == a[2] || a[i] == a[3]);
        assert(b[j] == b[0] || b[j] == b[1] || b[j] == b[2]);
    }
    assert forall|i: int, j: int| 0 <= i < b.len() && 0 <= j < a.len() implies b[i] != a[j] by {
        assert(b[i] == b[0] || b[i] == b[1] || b[i] == b[2]);
        assert(a[j] == a[0] || a[j] == a[1] || a[j] == a[2] || a[j] == a[3]);
    }
}

/// Law: every column is first looked for under the name of the field it
/// fills, and two columns of the same entity share no alias, so a header
/// names at most one field of a table and a file headed with the field names
/// reads each field from its own column.
#[verifier::rlimit(100)]
pub proof fn law_column_aliases_name_their_field(c1: Column, c2: Column)
    ensures
        aliases_of(c1).len() > 0,
        aliases_of(c1)[0] == field_name(c1),
        column_entity(c1) == column_entity(c2) && c1 != c2 ==> disjoint_texts(aliases_of(c1), aliases_of(c2)),
{
    reveal_strlit("name");
    reveal_strlit("max_daily_periods");
    reveal_strlit("daily_periods");
    reveal_strlit("max_daily");
    reveal_strlit("max_weekly_periods");
    reveal_strlit("weekly_periods");
    reveal_strlit("max_weekly");
    reveal_strlit("qualified_subjects");
    reveal_strlit("subjects");
    reveal_strlit("qualification");
    reveal_strlit("classroom");
    reveal_strlit("class");
    reveal_strlit("grade_level");
    reveal_strlit("grade");
    reveal_strlit("level");
    reveal_strlit("subject");
    reveal_strlit("base_periods_per_week");
    reveal_strlit("periods_per_week");
    reveal_strlit("base_periods");
    reveal_strlit("periods");
    reveal_strlit("classroom_name");
    reveal_strlit("subject_name");
    reveal_strlit("current_progress_ratio");
    reveal_strlit("current_progress");
    reveal_strlit("current");
    reveal_strlit("progress");
    reveal_strlit("expected_progress_ratio");
    reveal_strlit("expected_progress");
    reveal_strlit("expected");
    if column_entity(c1) == column_entity(c2) && c1 != c2 {
        lemma_aliases_apart_teacher_name_teacher_daily_periods();
        lemma_aliases_apart_teacher_name_teacher_weekly_periods();
        lemma_aliases_apart_teacher_name_teacher_subjects();
        lemma_aliases_apart_teacher_daily_periods_teacher_weekly_periods();
        lemma_aliases_apart_teacher_daily_periods_teacher_subjects();
        lemma_aliases_apart_teacher_weekly_periods_teacher_subjects();
        lemma_aliases_apart_classroom_name_classroom_grade();
        lemma_aliases_apart_subject_name_subject_periods();
        lemma_aliases_apart_progress_classroom_progress_subject();
        lemma_aliases_apart_progress_classroom_progress_current();
        lemma_aliases_apart_progress_classroom_progress_expected();
        lemma_aliases_apart_progress_subject_progress_current();
        lemma_aliases_apart_progress_subject_progress_expected();
        lemma_aliases_apart_progress_current_progress_expected();
    }
}

} // verus!
