//! Storing an import in the database. The writes of an import form a plan of
//! steps, decided from the imported data alone; a step's id operands name the
//! earlier steps whose returned ids it uses. The runner of the plan asks
//! `BulkImport` for the next database action, performs it, and hands back the
//! reply, all inside one transaction.
use vstd::prelude::*;
use crate::importer::{
    AcademicProgressImport, AcademicProgressImportView, ClassroomImport, ClassroomImportView,
    ImportedData, ImportedDataView, SubjectImport, SubjectImportView, TeacherImport,
    TeacherImportView, views,
};

verus! {

/// Periods per week given to a subject first met as a qualification or in a progress row.
pub const DEFAULT_SUBJECT_PERIODS: i32 = 5;

/// Grade level given to a classroom first met in a progress row.
pub const DEFAULT_CLASSROOM_GRADE: i32 = 10;

/// One step of a bulk import. The `usize` operands are indices of earlier
/// steps whose replies carry the ids to use.
#[derive(Debug, Clone, PartialEq)]
pub enum DbCommand {
    /// Insert the subject; if the name exists, set its weekly periods. Yields its id.
    UpsertSubject { name: String, base_periods_per_week: i32 },
    /// Insert the subject with these periods; if the name exists, keep it. Yields its id.
    EnsureSubject { name: String, base_periods_per_week: i32 },
    /// Insert the classroom; if the name exists, set its grade. Yields its id.
    UpsertClassroom { name: String, grade_level: i32 },
    /// Insert the classroom with this grade; if the name exists, keep it. Yields its id.
    EnsureClassroom { name: String, grade_level: i32 },
    /// Look up a teacher by name. Yields the id if there is one.
    FindTeacher { name: String },
    /// Update the teacher that step `lookup` found, or insert a new one. Yields its id.
    SaveTeacher { lookup: usize, name: String, max_daily_periods: i32, max_weekly_periods: i32 },
    /// Record that the teacher of step `teacher` is qualified for the subject of step `subject`.
    Qualify { teacher: usize, subject: usize },
    /// Insert or update the progress of the classroom of step `classroom` in the subject of step `subject`.
    UpsertProgress {
        classroom: usize,
        subject: usize,
        current_progress_ratio: String,
        expected_progress_ratio: String,
    },
}

pub enum CommandView {
    UpsertSubject { name: Seq<char>, base_periods_per_week: i32 },
    EnsureSubject { name: Seq<char>, base_periods_per_week: i32 },
    UpsertClassroom { name: Seq<char>, grade_level: i32 },
    EnsureClassroom { name: Seq<char>, grade_level: i32 },
    FindTeacher { name: Seq<char> },
    SaveTeacher { lookup: int, name: Seq<char>, max_daily_periods: i32, max_weekly_periods: i32 },
    Qualify { teacher: int, subject: int },
    UpsertProgress {
        classroom: int,
        subject: int,
        current_progress_ratio: Seq<char>,
        expected_progress_ratio: Seq<char>,
    },
}

impl View for DbCommand {
    type V = CommandView;

    open spec fn view(&self) -> CommandView {
        match self {
            DbCommand::UpsertSubject { name, base_periods_per_week } => CommandView::UpsertSubject {
                name: name@,
                base_periods_per_week: *base_periods_per_week,
            },
            DbCommand::EnsureSubject { name, base_periods_per_week } => CommandView::EnsureSubject {
                name: name@,
                base_periods_per_week: *base_periods_per_week,
            },
            DbCommand::UpsertClassroom { name, grade_level } => CommandView::UpsertClassroom {
                name: name@,
                grade_level: *grade_level,
            },
            DbCommand::EnsureClassroom { name, grade_level } => CommandView::EnsureClassroom {
                name: name@,
                grade_level: *grade_level,
            },
            DbCommand::FindTeacher { name } => CommandView::FindTeacher { name: name@ },
            DbCommand::SaveTeacher { lookup, name, max_daily_periods, max_weekly_periods } => CommandView::SaveTeacher {
                lookup: *lookup as int,
                name: name@,
                max_daily_periods: *max_daily_periods,
                max_weekly_periods: *max_weekly_periods,
            },
            DbCommand::Qualify { teacher, subject } => CommandView::Qualify {
                teacher: *teacher as int,
                subject: *subject as int,
            },
            DbCommand::UpsertProgress {
                classroom,
                subject,
                current_progress_ratio,
                expected_progress_ratio,
            } => CommandView::UpsertProgress {
                classroom: *classroom as int,
                subject: *subject as int,
                current_progress_ratio: current_progress_ratio@,
                expected_progress_ratio: expected_progress_ratio@,
            },
        }
    }
}

/// A plan being built: its steps, and for each subject and classroom name
/// met so far, the step that yields its id.
pub struct PlanView {
    pub steps: Seq<CommandView>,
    pub subjects: Map<Seq<char>, int>,
    pub classrooms: Map<Seq<char>, int>,
}

pub open spec fn empty_plan() -> PlanView {
    PlanView { steps: Seq::empty(), subjects: Map::empty(), classrooms: Map::empty() }
}

pub open spec fn push_step(p: PlanView, c: CommandView) -> PlanView {
    PlanView { steps: p.steps.push(c), subjects: p.subjects, classrooms: p.classrooms }
}

/// An explicit subject row: upserted, and its name now refers to this step.
pub open spec fn plan_subject(p: PlanView, s: SubjectImportView) -> PlanView {
    PlanView {
        steps: p.steps.push(CommandView::UpsertSubject { name: s.name, base_periods_per_week: s.base_periods_per_week }),
        subjects: p.subjects.insert(s.name, p.steps.len() as int),
        classrooms: p.classrooms,
    }
}

pub open spec fn plan_subjects(p: PlanView, ss: Seq<SubjectImportView>) -> PlanView
    decreases ss.len(),
{
    if ss.len() == 0 {
        p
    } else {
        plan_subject(plan_subjects(p, ss.drop_last()), ss.last())
    }
}

/// An explicit classroom row: upserted, and its name now refers to this step.
pub open spec fn plan_classroom(p: PlanView, c: ClassroomImportView) -> PlanView {
    PlanView {
        steps: p.steps.push(CommandView::UpsertClassroom { name: c.name, grade_level: c.grade_level }),
        subjects: p.subjects,
        classrooms: p.classrooms.insert(c.name, p.steps.len() as int),
    }
}

pub open spec fn plan_classrooms(p: PlanView, cs: Seq<ClassroomImportView>) -> PlanView
    decreases cs.len(),
{
    if cs.len() == 0 {
        p
    } else {
        plan_classroom(plan_classrooms(p, cs.drop_last()), cs.last())
    }
}

/// The step that yields the id of subject `name`: the one recorded for the
/// name, else the new `EnsureSubject` step that `subject_ref` adds.
pub open spec fn subject_step(p: PlanView, name: Seq<char>) -> int {
    if p.subjects.contains_key(name) {
        p.subjects[name]
    } else {
        p.steps.len() as int
    }
}

pub open spec fn subject_ref(p: PlanView, name: Seq<char>) -> PlanView {
    if p.subjects.contains_key(name) {
        p
    } else {
        PlanView {
            steps: p.steps.push(CommandView::EnsureSubject { name, base_periods_per_week: DEFAULT_SUBJECT_PERIODS }),
            subjects: p.subjects.insert(name, p.steps.len() as int),
            classrooms: p.classrooms,
        }
    }
}

/// The step that yields the id of classroom `name` (see `subject_step`).
pub open spec fn classroom_step(p: PlanView, name: Seq<char>) -> int {
    if p.classrooms.contains_key(name) {
        p.classrooms[name]
    } else {
        p.steps.len() as int
    }
}

pub open spec fn classroom_ref(p: PlanView, name: Seq<char>) -> PlanView {
    if p.classrooms.contains_key(name) {
        p
    } else {
        PlanView {
            steps: p.steps.push(CommandView::EnsureClassroom { name, grade_level: DEFAULT_CLASSROOM_GRADE }),
            subjects: p.subjects,
            classrooms: p.classrooms.insert(name, p.steps.len() as int),
        }
    }
}

/// The qualifications of the teacher saved by step `teacher`, in order. With
/// `cached` a subject already met is reused; without it every qualification
/// ensures its subject anew.
pub open spec fn plan_qualifications(p: PlanView, teacher: int, names: Seq<Seq<char>>, cached: bool) -> PlanView
    decreases names.len(),
{
    if names.len() == 0 {
        p
    } else {
        let p0 = plan_qualifications(p, teacher, names.drop_last(), cached);
        let name = names.last();
        if cached {
            push_step(subject_ref(p0, name), CommandView::Qualify { teacher, subject: subject_step(p0, name) })
        } else {
            let k = p0.steps.len() as int;
            push_step(
                push_step(p0, CommandView::EnsureSubject { name, base_periods_per_week: DEFAULT_SUBJECT_PERIODS }),
                CommandView::Qualify { teacher, subject: k },
            )
        }
    }
}

/// A teacher row: look the teacher up by name, update or insert it, then its qualifications.
pub open spec fn plan_teacher(p: PlanView, t: TeacherImportView, cached: bool) -> PlanView {
    let k = p.steps.len() as int;
    let p1 = push_step(
        push_step(p, CommandView::FindTeacher { name: t.name }),
        CommandView::SaveTeacher {
            lookup: k,
            name: t.name,
            max_daily_periods: t.max_daily_periods,
            max_weekly_periods: t.max_weekly_periods,
        },
    );
    plan_qualifications(p1, k + 1, t.qualified_subjects, cached)
}

pub open spec fn plan_teachers(p: PlanView, ts: Seq<TeacherImportView>, cached: bool) -> PlanView
    decreases ts.len(),
{
    if ts.len() == 0 {
        p
    } else {
        plan_teacher(plan_teachers(p, ts.drop_last(), cached), ts.last(), cached)
    }
}

/// A progress row: the ids of its classroom and subject (reused when `cached`
/// and already met, else ensured), then the progress upsert.
pub open spec fn plan_progress(p: PlanView, r: AcademicProgressImportView, cached: bool) -> PlanView {
    if cached {
        let p1 = classroom_ref(p, r.classroom_name);
        let p2 = subject_ref(p1, r.subject_name);
        push_step(
            p2,
            CommandView::UpsertProgress {
                classroom: classroom_step(p, r.classroom_name),
                subject: subject_step(p1, r.subject_name),
                current_progress_ratio: r.current_progress_ratio,
                expected_progress_ratio: r.expected_progress_ratio,
            },
        )
    } else {
        let k = p.steps.len() as int;
        push_step(
            push_step(
                push_step(p, CommandView::EnsureClassroom { name: r.classroom_name, grade_level: DEFAULT_CLASSROOM_GRADE }),
                CommandView::EnsureSubject { name: r.subject_name, base_periods_per_week: DEFAULT_SUBJECT_PERIODS },
            ),
            CommandView::UpsertProgress {
                classroom: k,
                subject: k + 1,
                current_progress_ratio: r.current_progress_ratio,
                expected_progress_ratio: r.expected_progress_ratio,
            },
        )
    }
}

pub open spec fn plan_progress_rows(p: PlanView, rs: Seq<AcademicProgressImportView>, cached: bool) -> PlanView
    decreases rs.len(),
{
    if rs.len() == 0 {
        p
    } else {
        plan_progress(plan_progress_rows(p, rs.drop_last(), cached), rs.last(), cached)
    }
}

/// The steps that store an import. A workbook stores its subjects, then its
/// classrooms, teachers and progress, reusing the ids of names already met;
/// a single-entity file stores its rows alone.
pub open spec fn plan_of(d: ImportedDataView) -> Seq<CommandView> {
    match d {
        ImportedDataView::Excel { teachers, classrooms, subjects, progress } => plan_progress_rows(
            plan_teachers(plan_classrooms(plan_subjects(empty_plan(), subjects), classrooms), teachers, true),
            progress,
            true,
        ).steps,
        ImportedDataView::Teachers(ts) => plan_teachers(empty_plan(), ts, false).steps,
        ImportedDataView::Classrooms(cs) => plan_classrooms(empty_plan(), cs).steps,
        ImportedDataView::Subjects(ss) => plan_subjects(empty_plan(), ss).steps,
        ImportedDataView::Progress(rs) => plan_progress_rows(empty_plan(), rs, false).steps,
    }
}

} // verus!

verus! {

/// The names met so far, each with the step that yields its id; a later
/// entry for a name replaces an earlier one.
pub struct NameTable {
    entries: Vec<(String, usize)>,
}

pub open spec fn table_map(e: Seq<(String, usize)>) -> Map<Seq<char>, int>
    decreases e.len(),
{
    if e.len() == 0 {
        Map::empty()
    } else {
        table_map(e.drop_last()).insert(e.last().0@, e.last().1 as int)
    }
}

impl View for NameTable {
    type V = Map<Seq<char>, int>;

    closed spec fn view(&self) -> Map<Seq<char>, int> {
        table_map(self.entries@)
    }
}

/// Entries after index `j` that do not hold `name` do not change what the
/// table says of it.
proof fn lemma_table_suffix(e: Seq<(String, usize)>, j: int, name: Seq<char>)
    requires
        0 <= j <= e.len(),
        forall|m: int| j <= m < e.len() ==> (#[trigger] e[m]).0@ != name,
    ensures
        table_map(e).contains_key(name) == table_map(e.take(j)).contains_key(name),
        table_map(e).contains_key(name) ==> table_map(e)[name] == table_map(e.take(j))[name],
    decreases e.len() - j,
{
    if j < e.len() {
        assert(e.take(j + 1).drop_last() =~= e.take(j));
        assert(e.take(j + 1).last() == e[j]);
        lemma_table_suffix(e, j + 1, name);
    } else {
        assert(e.take(j) =~= e);
    }
}

impl NameTable {
    pub fn new() -> (t: NameTable)
        ensures
            t@ == Map::<Seq<char>, int>::empty(),
    {
        NameTable { entries: Vec::new() }
    }

    pub fn insert(&mut self, name: String, step: usize)
        ensures
            final(self)@ == old(self)@.insert(name@, step as int),
    {
        let ghost before = self.entries@;
        self.entries.push((name, step));
        assert(self.entries@.drop_last() =~= before);
    }

    pub fn get(&self, name: &String) -> (r: Option<usize>)
        ensures
            match r {
                Some(k) => self@.contains_key(name@) && self@[name@] == k as int,
                None => !self@.contains_key(name@),
            },
    {
        let n = self.entries.len();
        let mut j: usize = n;
        while j > 0
            invariant
                j <= n == self.entries@.len(),
                forall|m: int| j <= m < n ==> (#[trigger] self.entries@[m]).0@ != name@,
            decreases j,
        {
            if self.entries[j - 1].0 == *name {
                proof {
                    lemma_table_suffix(self.entries@, j as int, name@);
                    let t = self.entries@.take(j as int);
                    assert(t.drop_last() =~= self.entries@.take(j - 1));
                    assert(t.last() == self.entries@[j - 1]);
                }
                return Some(self.entries[j - 1].1);
            }
            j = j - 1;
        }
        proof {
            lemma_table_suffix(self.entries@, 0, name@);
            assert(self.entries@.take(0) =~= Seq::<(String, usize)>::empty());
        }
        None
    }
}

/// A plan being built (see `PlanView`).
pub struct Planner {
    steps: Vec<DbCommand>,
    subjects: NameTable,
    classrooms: NameTable,
}

impl View for Planner {
    type V = PlanView;

    closed spec fn view(&self) -> PlanView {
        PlanView { steps: views(self.steps@), subjects: self.subjects@, classrooms: self.classrooms@ }
    }
}

impl Planner {
    pub fn new() -> (p: Planner)
        ensures
            p@ == empty_plan(),
    {
        let p = Planner { steps: Vec::new(), subjects: NameTable::new(), classrooms: NameTable::new() };
        assert(views(p.steps@) =~= Seq::<CommandView>::empty());
        p
    }

    fn push(&mut self, c: DbCommand)
        ensures
            final(self)@ == push_step(old(self)@, c@),
            final(self).steps@.len() == old(self).steps@.len() + 1,
    {
        let ghost before = views(self.steps@);
        self.steps.push(c);
        assert(views(self.steps@) =~= before.push(c@));
    }

    /// The steps of the plan.
    pub fn into_steps(self) -> (r: Vec<DbCommand>)
        ensures
            views(r@) == self@.steps,
    {
        self.steps
    }

    pub fn add_subject(&mut self, s: &SubjectImport)
        ensures
            final(self)@ == plan_subject(old(self)@, s@),
    {
        let k = self.steps.len();
        self.push(DbCommand::UpsertSubject { name: s.name.clone(), base_periods_per_week: s.base_periods_per_week });
        self.subjects.insert(s.name.clone(), k);
    }

    pub fn add_classroom(&mut self, c: &ClassroomImport)
        ensures
            final(self)@ == plan_classroom(old(self)@, c@),
    {
        let k = self.steps.len();
        self.push(DbCommand::UpsertClassroom { name: c.name.clone(), grade_level: c.grade_level });
        self.classrooms.insert(c.name.clone(), k);
    }

    /// The step yielding the id of subject `name`, adding it when not met yet.
    pub fn subject_ref(&mut self, name: &String) -> (k: usize)
        ensures
            k as int == subject_step(old(self)@, name@),
            final(self)@ == subject_ref(old(self)@, name@),
    {
        match self.subjects.get(name) {
            Some(k) => k,
            None => {
                let k = self.steps.len();
                self.push(DbCommand::EnsureSubject { name: name.clone(), base_periods_per_week: DEFAULT_SUBJECT_PERIODS });
                self.subjects.insert(name.clone(), k);
                k
            },
        }
    }

    /// The step yielding the id of classroom `name`, adding it when not met yet.
    pub fn classroom_ref(&mut self, name: &String) -> (k: usize)
        ensures
            k as int == classroom_step(old(self)@, name@),
            final(self)@ == classroom_ref(old(self)@, name@),
    {
        match self.classrooms.get(name) {
            Some(k) => k,
            None => {
                let k = self.steps.len();
                self.push(DbCommand::EnsureClassroom { name: name.clone(), grade_level: DEFAULT_CLASSROOM_GRADE });
                self.classrooms.insert(name.clone(), k);
                k
            },
        }
    }
}

} // verus!

verus! {

impl Planner {
    pub fn add_qualifications(&mut self, teacher: usize, names: &Vec<String>, cached: bool)
        ensures
            final(self)@ == plan_qualifications(old(self)@, teacher as int, names.deep_view(), cached),
    {
        let n = names.len();
        for i in 0..n
            invariant
                n == names@.len(),
                self@ == plan_qualifications(old(self)@, teacher as int, names.deep_view().take(i as int), cached),
        {
            let ghost p0 = self@;
            let ghost nm = names.deep_view().take(i + 1);
            assert(nm.drop_last() =~= names.deep_view().take(i as int));
            assert(nm.last() == names[i as int]@);
            if cached {
                let s = self.subject_ref(&names[i]);
                self.push(DbCommand::Qualify { teacher, subject: s });
            } else {
                let k = self.steps.len();
                self.push(DbCommand::EnsureSubject { name: names[i].clone(), base_periods_per_week: DEFAULT_SUBJECT_PERIODS });
                self.push(DbCommand::Qualify { teacher, subject: k });
            }
        }
        assert(names.deep_view().take(n as int) =~= names.deep_view());
    }

    pub fn add_teacher(&mut self, t: &TeacherImport, cached: bool)
        ensures
            final(self)@ == plan_teacher(old(self)@, t@, cached),
    {
        let k = self.steps.len();
        self.push(DbCommand::FindTeacher { name: t.name.clone() });
        let save = self.steps.len();
        self.push(
            DbCommand::SaveTeacher {
                lookup: k,
                name: t.name.clone(),
                max_daily_periods: t.max_daily_periods,
                max_weekly_periods: t.max_weekly_periods,
            },
        );
        self.add_qualifications(save, &t.qualified_subjects, cached);
    }

    pub fn add_progress(&mut self, r: &AcademicProgressImport, cached: bool)
        ensures
            final(self)@ == plan_progress(old(self)@, r@, cached),
    {
        if cached {
            let c = self.classroom_ref(&r.classroom_name);
            let s = self.subject_ref(&r.subject_name);
            self.push(
                DbCommand::UpsertProgress {
                    classroom: c,
                    subject: s,
                    current_progress_ratio: r.current_progress_ratio.clone(),
                    expected_progress_ratio: r.expected_progress_ratio.clone(),
                },
            );
        } else {
            let c = self.steps.len();
            self.push(DbCommand::EnsureClassroom { name: r.classroom_name.clone(), grade_level: DEFAULT_CLASSROOM_GRADE });
            let s = self.steps.len();
            self.push(DbCommand::EnsureSubject { name: r.subject_name.clone(), base_periods_per_week: DEFAULT_SUBJECT_PERIODS });
            self.push(
                DbCommand::UpsertProgress {
                    classroom: c,
                    subject: s,
                    current_progress_ratio: r.current_progress_ratio.clone(),
                    expected_progress_ratio: r.expected_progress_ratio.clone(),
                },
            );
        }
    }

    pub fn add_subjects(&mut self, ss: &Vec<SubjectImport>)
        ensures
            final(self)@ == plan_subjects(old(self)@, views(ss@)),
    {
        for i in 0..ss.len()
            invariant
                self@ == plan_subjects(old(self)@, views(ss@).take(i as int)),
        {
            assert(views(ss@).take(i + 1).drop_last() =~= views(ss@).take(i as int));
            self.add_subject(&ss[i]);
        }
        assert(views(ss@).take(ss@.len() as int) =~= views(ss@));
    }

    pub fn add_classrooms(&mut self, cs: &Vec<ClassroomImport>)
        ensures
            final(self)@ == plan_classrooms(old(self)@, views(cs@)),
    {
        for i in 0..cs.len()
            invariant
                self@ == plan_classrooms(old(self)@, views(cs@).take(i as int)),
        {
            assert(views(cs@).take(i + 1).drop_last() =~= views(cs@).take(i as int));
            self.add_classroom(&cs[i]);
        }
        assert(views(cs@).take(cs@.len() as int) =~= views(cs@));
    }

    pub fn add_teachers(&mut self, ts: &Vec<TeacherImport>, cached: bool)
        ensures
            final(self)@ == plan_teachers(old(self)@, views(ts@), cached),
    {
        for i in 0..ts.len()
            invariant
                self@ == plan_teachers(old(self)@, views(ts@).take(i as int), cached),
        {
            assert(views(ts@).take(i + 1).drop_last() =~= views(ts@).take(i as int));
            self.add_teacher(&ts[i], cached);
        }
        assert(views(ts@).take(ts@.len() as int) =~= views(ts@));
    }

    pub fn add_progress_rows(&mut self, rs: &Vec<AcademicProgressImport>, cached: bool)
        ensures
            final(self)@ == plan_progress_rows(old(self)@, views(rs@), cached),
    {
        for i in 0..rs.len()
            invariant
                self@ == plan_progress_rows(old(self)@, views(rs@).take(i as int), cached),
        {
            assert(views(rs@).take(i + 1).drop_last() =~= views(rs@).take(i as int));
            self.add_progress(&rs[i], cached);
        }
        assert(views(rs@).take(rs@.len() as int) =~= views(rs@));
    }
}

/// The steps that store an import (see `plan_of`).
pub fn plan_bulk_import(data: &ImportedData) -> (r: Vec<DbCommand>)
    ensures
        views(r@) == plan_of(data@),
{
    let mut p = Planner::new();
    match data {
        ImportedData::Excel { teachers, classrooms, subjects, progress } => {
            p.add_subjects(subjects);
            p.add_classrooms(classrooms);
            p.add_teachers(teachers, true);
            p.add_progress_rows(progress, true);
        },
        ImportedData::Teachers(ts) => p.add_teachers(ts, false),
        ImportedData::Classrooms(cs) => p.add_classrooms(cs),
        ImportedData::Subjects(ss) => p.add_subjects(ss),
        ImportedData::Progress(rs) => p.add_progress_rows(rs, false),
    }
    p.into_steps()
}

} // verus!

verus! {

/// What the database answered to an action: the id of the written row, the
/// result of a teacher lookup, or plain completion.
#[derive(Debug, Clone, Copy, PartialEq, Eq, Structural)]
pub enum Reply {
    Id(i32),
    Found(Option<i32>),
    Done,
}

/// A database action with concrete ids.
#[derive(Debug, Clone, PartialEq)]
pub enum DbAction {
    UpsertSubject { name: String, base_periods_per_week: i32 },
    EnsureSubject { name: String, base_periods_per_week: i32 },
    UpsertClassroom { name: String, grade_level: i32 },
    EnsureClassroom { name: String, grade_level: i32 },
    FindTeacher { name: String },
    UpdateTeacher { id: i32, max_daily_periods: i32, max_weekly_periods: i32 },
    InsertTeacher { name: String, max_daily_periods: i32, max_weekly_periods: i32 },
    Qualify { teacher_id: i32, subject_id: i32 },
    UpsertProgress {
        classroom_id: i32,
        subject_id: i32,
        current_progress_ratio: String,
        expected_progress_ratio: String,
    },
    /// Every step has been performed.
    Finished,
    /// A step needs an id that the replies so far do not hold.
    Unanswered,
}

pub enum ActionView {
    UpsertSubject { name: Seq<char>, base_periods_per_week: i32 },
    EnsureSubject { name: Seq<char>, base_periods_per_week: i32 },
    UpsertClassroom { name: Seq<char>, grade_level: i32 },
    EnsureClassroom { name: Seq<char>, grade_level: i32 },
    FindTeacher { name: Seq<char> },
    UpdateTeacher { id: i32, max_daily_periods: i32, max_weekly_periods: i32 },
    InsertTeacher { name: Seq<char>, max_daily_periods: i32, max_weekly_periods: i32 },
    Qualify { teacher_id: i32, subject_id: i32 },
    UpsertProgress {
        classroom_id: i32,
        subject_id: i32,
        current_progress_ratio: Seq<char>,
        expected_progress_ratio: Seq<char>,
    },
    Finished,
    Unanswered,
}

impl View for DbAction {
    type V = ActionView;

    open spec fn view(&self) -> ActionView {
        match self {
            DbAction::UpsertSubject { name, base_periods_per_week } => ActionView::UpsertSubject {
                name: name@,
                base_periods_per_week: *base_periods_per_week,
            },
            DbAction::EnsureSubject { name, base_periods_per_week } => ActionView::EnsureSubject {
                name: name@,
                base_periods_per_week: *base_periods_per_week,
            },
            DbAction::UpsertClassroom { name, grade_level } => ActionView::UpsertClassroom {
                name: name@,
                grade_level: *grade_level,
            },
            DbAction::EnsureClassroom { name, grade_level } => ActionView::EnsureClassroom {
                name: name@,
                grade_level: *grade_level,
            },
            DbAction::FindTeacher { name } => ActionView::FindTeacher { name: name@ },
            DbAction::UpdateTeacher { id, max_daily_periods, max_weekly_periods } => ActionView::UpdateTeacher {
                id: *id,
                max_daily_periods: *max_daily_periods,
                max_weekly_periods: *max_weekly_periods,
            },
            DbAction::InsertTeacher { name, max_daily_periods, max_weekly_periods } => ActionView::InsertTeacher {
                name: name@,
                max_daily_periods: *max_daily_periods,
                max_weekly_periods: *max_weekly_periods,
            },
            DbAction::Qualify { teacher_id, subject_id } => ActionView::Qualify {
                teacher_id: *teacher_id,
                subject_id: *subject_id,
            },
            DbAction::UpsertProgress {
                classroom_id,
                subject_id,
                current_progress_ratio,
                expected_progress_ratio,
            } => ActionView::UpsertProgress {
                classroom_id: *classroom_id,
                subject_id: *subject_id,
                current_progress_ratio: current_progress_ratio@,
                expected_progress_ratio: expected_progress_ratio@,
            },
            DbAction::Finished => ActionView::Finished,
            DbAction::Unanswered => ActionView::Unanswered,
        }
    }
}

/// The id that the reply to step `k` carries, if any.
pub open spec fn reply_id(replies: Seq<Reply>, k: int) -> Option<i32> {
    if 0 <= k < replies.len() {
        match replies[k] {
            Reply::Id(x) => Some(x),
            _ => None,
        }
    } else {
        None
    }
}

/// The action that performs a step, given the replies to the steps before it:
/// a teacher is updated when its lookup found one and inserted otherwise, and
/// every id operand takes the id that its step returned.
pub open spec fn action_for(c: CommandView, replies: Seq<Reply>) -> ActionView {
    match c {
        CommandView::UpsertSubject { name, base_periods_per_week } => ActionView::UpsertSubject {
            name,
            base_periods_per_week,
        },
        CommandView::EnsureSubject { name, base_periods_per_week } => ActionView::EnsureSubject {
            name,
            base_periods_per_week,
        },
        CommandView::UpsertClassroom { name, grade_level } => ActionView::UpsertClassroom { name, grade_level },
        CommandView::EnsureClassroom { name, grade_level } => ActionView::EnsureClassroom { name, grade_level },
        CommandView::FindTeacher { name } => ActionView::FindTeacher { name },
        CommandView::SaveTeacher { lookup, name, max_daily_periods, max_weekly_periods } => if 0 <= lookup
            < replies.len() {
            match replies[lookup] {
                Reply::Found(Some(id)) => ActionView::UpdateTeacher { id, max_daily_periods, max_weekly_periods },
                Reply::Found(None) => ActionView::InsertTeacher { name, max_daily_periods, max_weekly_periods },
                _ => ActionView::Unanswered,
            }
        } else {
            ActionView::Unanswered
        },
        CommandView::Qualify { teacher, subject } => match (reply_id(replies, teacher), reply_id(replies, subject)) {
            (Some(teacher_id), Some(subject_id)) => ActionView::Qualify { teacher_id, subject_id },
            _ => ActionView::Unanswered,
        },
        CommandView::UpsertProgress { classroom, subject, current_progress_ratio, expected_progress_ratio } => match (
            reply_id(replies, classroom),
            reply_id(replies, subject),
        ) {
            (Some(classroom_id), Some(subject_id)) => ActionView::UpsertProgress {
                classroom_id,
                subject_id,
                current_progress_ratio,
                expected_progress_ratio,
            },
            _ => ActionView::Unanswered,
        },
    }
}

/// The next action of a run: that of the first step without a reply, or
/// `Finished` once every step has one.
pub open spec fn next_action_of(plan: Seq<CommandView>, replies: Seq<Reply>) -> ActionView {
    if replies.len() < plan.len() {
        action_for(plan[replies.len() as int], replies)
    } else {
        ActionView::Finished
    }
}

/// A bulk import in progress: its plan and the replies received so far.
pub struct BulkImport {
    steps: Vec<DbCommand>,
    replies: Vec<Reply>,
}

fn reply_id_of(replies: &Vec<Reply>, k: usize) -> (r: Option<i32>)
    ensures
        r == reply_id(replies@, k as int),
{
    if k < replies.len() {
        match replies[k] {
            Reply::Id(x) => Some(x),
            _ => None,
        }
    } else {
        None
    }
}

impl BulkImport {
    pub closed spec fn plan(&self) -> Seq<CommandView> {
        views(self.steps@)
    }

    pub closed spec fn replies(&self) -> Seq<Reply> {
        self.replies@
    }

    /// Starts storing an import: its plan (see `plan_of`), no replies yet.
    pub fn new(data: &ImportedData) -> (r: BulkImport)
        ensures
            r.plan() == plan_of(data@),
            r.replies() == Seq::<Reply>::empty(),
    {
        BulkImport { steps: plan_bulk_import(data), replies: Vec::new() }
    }

    /// The number of steps of the plan.
    pub fn step_count(&self) -> (n: usize)
        ensures
            n == self.plan().len(),
    {
        self.steps.len()
    }

    /// The action to perform next (see `next_action_of`).
    pub fn next_action(&self) -> (a: DbAction)
        ensures
            a@ == next_action_of(self.plan(), self.replies()),
    {
        let k = self.replies.len();
        if k >= self.steps.len() {
            return DbAction::Finished;
        }
        assert(self.plan()[k as int] == self.steps@[k as int]@);
        match &self.steps[k] {
            DbCommand::UpsertSubject { name, base_periods_per_week } => DbAction::UpsertSubject {
                name: name.clone(),
                base_periods_per_week: *base_periods_per_week,
            },
            DbCommand::EnsureSubject { name, base_periods_per_week } => DbAction::EnsureSubject {
                name: name.clone(),
                base_periods_per_week: *base_periods_per_week,
            },
            DbCommand::UpsertClassroom { name, grade_level } => DbAction::UpsertClassroom {
                name: name.clone(),
                grade_level: *grade_level,
            },
            DbCommand::EnsureClassroom { name, grade_level } => DbAction::EnsureClassroom {
                name: name.clone(),
                grade_level: *grade_level,
            },
            DbCommand::FindTeacher { name } => DbAction::FindTeacher { name: name.clone() },
            DbCommand::SaveTeacher { lookup, name, max_daily_periods, max_weekly_periods } => {
                if *lookup < self.replies.len() {
                    match self.replies[*lookup] {
                        Reply::Found(Some(id)) => DbAction::UpdateTeacher {
                            id,
                            max_daily_periods: *max_daily_periods,
                            max_weekly_periods: *max_weekly_periods,
                        },
                        Reply::Found(None) => DbAction::InsertTeacher {
                            name: name.clone(),
                            max_daily_periods: *max_daily_periods,
                            max_weekly_periods: *max_weekly_periods,
                        },
                        _ => DbAction::Unanswered,
                    }
                } else {
                    DbAction::Unanswered
                }
            },
            DbCommand::Qualify { teacher, subject } => {
                match (reply_id_of(&self.replies, *teacher), reply_id_of(&self.replies, *subject)) {
                    (Some(teacher_id), Some(subject_id)) => DbAction::Qualify { teacher_id, subject_id },
                    _ => DbAction::Unanswered,
                }
            },
            DbCommand::UpsertProgress { classroom, subject, current_progress_ratio, expected_progress_ratio } => {
                match (reply_id_of(&self.replies, *classroom), reply_id_of(&self.replies, *subject)) {
                    (Some(classroom_id), Some(subject_id)) => DbAction::UpsertProgress {
                        classroom_id,
                        subject_id,
                        current_progress_ratio: current_progress_ratio.clone(),
                        expected_progress_ratio: expected_progress_ratio.clone(),
                    },
                    _ => DbAction::Unanswered,
                }
            },
        }
    }

    /// Records the reply to the action last performed.
    pub fn record(&mut self, reply: Reply)
        ensures
            final(self).plan() == old(self).plan(),
            final(self).replies() == old(self).replies().push(reply),
    {
        self.replies.push(reply);
    }
}

} // verus!

verus! {

/// A step that writes the subject `name` and yields its id.
pub open spec fn writes_subject(c: CommandView, name: Seq<char>) -> bool {
    match c {
        CommandView::UpsertSubject { name: n, .. } => n == name,
        CommandView::EnsureSubject { name: n, .. } => n == name,
        _ => false,
    }
}

/// A step that writes the classroom `name` and yields its id.
pub open spec fn writes_classroom(c: CommandView, name: Seq<char>) -> bool {
    match c {
        CommandView::UpsertClassroom { name: n, .. } => n == name,
        CommandView::EnsureClassroom { name: n, .. } => n == name,
        _ => false,
    }
}

/// The name of the row that a step writes or looks up (empty for links).
pub open spec fn row_name(c: CommandView) -> Seq<char> {
    match c {
        CommandView::UpsertSubject { name, .. } => name,
        CommandView::EnsureSubject { name, .. } => name,
        CommandView::UpsertClassroom { name, .. } => name,
        CommandView::EnsureClassroom { name, .. } => name,
        CommandView::FindTeacher { name } => name,
        CommandView::SaveTeacher { name, .. } => name,
        _ => Seq::<char>::empty(),
    }
}

/// The operands of step `k` name earlier steps of the right kind: a teacher
/// save names the lookup of the same teacher, a qualification names a teacher
/// save and a subject write, a progress row names a classroom write and a
/// subject write.
pub open spec fn operands_ok(steps: Seq<CommandView>, k: int) -> bool {
    match steps[k] {
        CommandView::SaveTeacher { lookup, name, .. } => 0 <= lookup < k && steps[lookup]
            == CommandView::FindTeacher { name },
        CommandView::Qualify { teacher, subject } => {
            &&& 0 <= teacher < k
            &&& steps[teacher] is SaveTeacher
            &&& 0 <= subject < k
            &&& writes_subject(steps[subject], row_name(steps[subject]))
        },
        CommandView::UpsertProgress { classroom, subject, .. } => {
            &&& 0 <= classroom < k
            &&& writes_classroom(steps[classroom], row_name(steps[classroom]))
            &&& 0 <= subject < k
            &&& writes_subject(steps[subject], row_name(steps[subject]))
        },
        _ => true,
    }
}

pub open spec fn plan_well_formed(steps: Seq<CommandView>) -> bool {
    forall|k: int| 0 <= k < steps.len() ==> #[trigger] operands_ok(steps, k)
}

/// Every name recorded for a subject or classroom refers to a step that writes it.
pub open spec fn tables_consistent(p: PlanView) -> bool {
    &&& forall|n: Seq<char>| #[trigger] p.subjects.contains_key(n) ==> 0 <= p.subjects[n] < p.steps.len() && writes_subject(p.steps[p.subjects[n]], n)
    &&& forall|n: Seq<char>| #[trigger] p.classrooms.contains_key(n) ==> 0 <= p.classrooms[n] < p.steps.len() && writes_classroom(p.steps[p.classrooms[n]], n)
}

pub open spec fn plan_ok(p: PlanView) -> bool {
    plan_well_formed(p.steps) && tables_consistent(p)
}

/// `q` holds the steps of `p`, and maybe more after them.
pub open spec fn extends(q: Seq<CommandView>, p: Seq<CommandView>) -> bool {
    p.len() <= q.len() && forall|j: int| 0 <= j < p.len() ==> #[trigger] q[j] == p[j]
}

proof fn lemma_push_ok(p: PlanView, c: CommandView)
    requires
        plan_ok(p),
        operands_ok(p.steps.push(c), p.steps.len() as int),
    ensures
        plan_ok(push_step(p, c)),
        extends(push_step(p, c).steps, p.steps),
{
    let s = p.steps.push(c);
    assert forall|k: int| 0 <= k < s.len() implies #[trigger] operands_ok(s, k) by {
        if k < p.steps.len() {
            assert(operands_ok(p.steps, k));
        }
    }
}

proof fn lemma_subject_ref_ok(p: PlanView, name: Seq<char>)
    requires
        plan_ok(p),
    ensures
        plan_ok(subject_ref(p, name)),
        extends(subject_ref(p, name).steps, p.steps),
        0 <= subject_step(p, name) < subject_ref(p, name).steps.len(),
        writes_subject(subject_ref(p, name).steps[subject_step(p, name)], name),
{
    if !p.subjects.contains_key(name) {
        let q = subject_ref(p, name);
        lemma_push_ok(p, CommandView::EnsureSubject { name, base_periods_per_week: DEFAULT_SUBJECT_PERIODS });
        assert forall|n: Seq<char>| #[trigger] q.subjects.contains_key(n) implies 0 <= q.subjects[n] < q.steps.len()
            && writes_subject(q.steps[q.subjects[n]], n) by {
            if n != name {
                assert(p.subjects.contains_key(n));
            }
        }
    }
}

proof fn lemma_classroom_ref_ok(p: PlanView, name: Seq<char>)
    requires
        plan_ok(p),
    ensures
        plan_ok(classroom_ref(p, name)),
        extends(classroom_ref(p, name).steps, p.steps),
        0 <= classroom_step(p, name) < classroom_ref(p, name).steps.len(),
        writes_classroom(classroom_ref(p, name).steps[classroom_step(p, name)], name),
{
    if !p.classrooms.contains_key(name) {
        let q = classroom_ref(p, name);
        lemma_push_ok(p, CommandView::EnsureClassroom { name, grade_level: DEFAULT_CLASSROOM_GRADE });
        assert forall|n: Seq<char>| #[trigger] q.classrooms.contains_key(n) implies 0 <= q.classrooms[n]
            < q.steps.len() && writes_classroom(q.steps[q.classrooms[n]], n) by {
            if n != name {
                assert(p.classrooms.contains_key(n));
            }
        }
    }
}

proof fn lemma_plan_subjects_ok(p: PlanView, ss: Seq<SubjectImportView>)
    requires
        plan_ok(p),
    ensures
        plan_ok(plan_subjects(p, ss)),
        extends(plan_subjects(p, ss).steps, p.steps),
    decreases ss.len(),
{
    if ss.len() > 0 {
        lemma_plan_subjects_ok(p, ss.drop_last());
        let p0 = plan_subjects(p, ss.drop_last());
        let s = ss.last();
        let c = CommandView::UpsertSubject { name: s.name, base_periods_per_week: s.base_periods_per_week };
        lemma_push_ok(p0, c);
        let q = plan_subject(p0, s);
        assert forall|n: Seq<char>| #[trigger] q.subjects.contains_key(n) implies 0 <= q.subjects[n] < q.steps.len()
            && writes_subject(q.steps[q.subjects[n]], n) by {
            if n != s.name {
                assert(p0.subjects.contains_key(n));
            }
        }
        assert(tables_consistent(q));
    }
}

proof fn lemma_plan_classrooms_ok(p: PlanView, cs: Seq<ClassroomImportView>)
    requires
        plan_ok(p),
    ensures
        plan_ok(plan_classrooms(p, cs)),
        extends(plan_classrooms(p, cs).steps, p.steps),
    decreases cs.len(),
{
    if cs.len() > 0 {
        lemma_plan_classrooms_ok(p, cs.drop_last());
        let p0 = plan_classrooms(p, cs.drop_last());
        let c = cs.last();
        let cmd = CommandView::UpsertClassroom { name: c.name, grade_level: c.grade_level };
        lemma_push_ok(p0, cmd);
        let q = plan_classroom(p0, c);
        assert forall|n: Seq<char>| #[trigger] q.classrooms.contains_key(n) implies 0 <= q.classrooms[n]
            < q.steps.len() && writes_classroom(q.steps[q.classrooms[n]], n) by {
            if n != c.name {
                assert(p0.classrooms.contains_key(n));
            }
        }
        assert(tables_consistent(q));
    }
}

} // verus!

verus! {

proof fn lemma_extends_trans(a: Seq<CommandView>, b: Seq<CommandView>, c: Seq<CommandView>)
    requires
        extends(b, a),
        extends(c, b),
    ensures
        extends(c, a),
{
    assert forall|j: int| 0 <= j < a.len() implies #[trigger] c[j] == a[j] by {
        assert(c[j] == b[j]);
    }
}

proof fn lemma_plan_qualifications_ok(p: PlanView, teacher: int, names: Seq<Seq<char>>, cached: bool)
    requires
        plan_ok(p),
        0 <= teacher < p.steps.len(),
        p.steps[teacher] is SaveTeacher,
    ensures
        plan_ok(plan_qualifications(p, teacher, names, cached)),
        extends(plan_qualifications(p, teacher, names, cached).steps, p.steps),
    decreases names.len(),
{
    if names.len() > 0 {
        lemma_plan_qualifications_ok(p, teacher, names.drop_last(), cached);
        let p0 = plan_qualifications(p, teacher, names.drop_last(), cached);
        let name = names.last();
        assert(p0.steps[teacher] == p.steps[teacher]);
        if cached {
            lemma_subject_ref_ok(p0, name);
            let p1 = subject_ref(p0, name);
            assert(p1.steps[teacher] == p0.steps[teacher]);
            let c = CommandView::Qualify { teacher, subject: subject_step(p0, name) };
            assert(operands_ok(p1.steps.push(c), p1.steps.len() as int));
            lemma_push_ok(p1, c);
            lemma_extends_trans(p.steps, p0.steps, p1.steps);
            lemma_extends_trans(p.steps, p1.steps, push_step(p1, c).steps);
        } else {
            let k = p0.steps.len() as int;
            let e = CommandView::EnsureSubject { name, base_periods_per_week: DEFAULT_SUBJECT_PERIODS };
            lemma_push_ok(p0, e);
            let p1 = push_step(p0, e);
            let c = CommandView::Qualify { teacher, subject: k };
            assert(operands_ok(p1.steps.push(c), p1.steps.len() as int));
            lemma_push_ok(p1, c);
            lemma_extends_trans(p.steps, p0.steps, p1.steps);
            lemma_extends_trans(p.steps, p1.steps, push_step(p1, c).steps);
        }
    }
}

proof fn lemma_plan_teachers_ok(p: PlanView, ts: Seq<TeacherImportView>, cached: bool)
    requires
        plan_ok(p),
    ensures
        plan_ok(plan_teachers(p, ts, cached)),
        extends(plan_teachers(p, ts, cached).steps, p.steps),
    decreases ts.len(),
{
    if ts.len() > 0 {
        lemma_plan_teachers_ok(p, ts.drop_last(), cached);
        let p0 = plan_teachers(p, ts.drop_last(), cached);
        let t = ts.last();
        let k = p0.steps.len() as int;
        let f = CommandView::FindTeacher { name: t.name };
        lemma_push_ok(p0, f);
        let p1 = push_step(p0, f);
        let s = CommandView::SaveTeacher {
            lookup: k,
            name: t.name,
            max_daily_periods: t.max_daily_periods,
            max_weekly_periods: t.max_weekly_periods,
        };
        assert(operands_ok(p1.steps.push(s), p1.steps.len() as int));
        lemma_push_ok(p1, s);
        let p2 = push_step(p1, s);
        lemma_plan_qualifications_ok(p2, k + 1, t.qualified_subjects, cached);
        lemma_extends_trans(p0.steps, p1.steps, p2.steps);
        lemma_extends_trans(p0.steps, p2.steps, plan_teacher(p0, t, cached).steps);
        lemma_extends_trans(p.steps, p0.steps, plan_teacher(p0, t, cached).steps);
    }
}

proof fn lemma_plan_progress_rows_ok(p: PlanView, rs: Seq<AcademicProgressImportView>, cached: bool)
    requires
        plan_ok(p),
    ensures
        plan_ok(plan_progress_rows(p, rs, cached)),
        extends(plan_progress_rows(p, rs, cached).steps, p.steps),
    decreases rs.len(),
{
    if rs.len() > 0 {
        lemma_plan_progress_rows_ok(p, rs.drop_last(), cached);
        let p0 = plan_progress_rows(p, rs.drop_last(), cached);
        let r = rs.last();
        if cached {
            lemma_classroom_ref_ok(p0, r.classroom_name);
            let p1 = classroom_ref(p0, r.classroom_name);
            lemma_subject_ref_ok(p1, r.subject_name);
            let p2 = subject_ref(p1, r.subject_name);
            let ci = classroom_step(p0, r.classroom_name);
            assert(p2.steps[ci] == p1.steps[ci]);
            let c = CommandView::UpsertProgress {
                classroom: ci,
                subject: subject_step(p1, r.subject_name),
                current_progress_ratio: r.current_progress_ratio,
                expected_progress_ratio: r.expected_progress_ratio,
            };
            assert(operands_ok(p2.steps.push(c), p2.steps.len() as int));
            lemma_push_ok(p2, c);
            lemma_extends_trans(p0.steps, p1.steps, p2.steps);
            lemma_extends_trans(p0.steps, p2.steps, push_step(p2, c).steps);
            lemma_extends_trans(p.steps, p0.steps, push_step(p2, c).steps);
        } else {
            let k = p0.steps.len() as int;
            let ec = CommandView::EnsureClassroom { name: r.classroom_name, grade_level: DEFAULT_CLASSROOM_GRADE };
            lemma_push_ok(p0, ec);
            let p1 = push_step(p0, ec);
            let es = CommandView::EnsureSubject { name: r.subject_name, base_periods_per_week: DEFAULT_SUBJECT_PERIODS };
            lemma_push_ok(p1, es);
            let p2 = push_step(p1, es);
            let c = CommandView::UpsertProgress {
                classroom: k,
                subject: k + 1,
                current_progress_ratio: r.current_progress_ratio,
                expected_progress_ratio: r.expected_progress_ratio,
            };
            assert(operands_ok(p2.steps.push(c), p2.steps.len() as int));
            lemma_push_ok(p2, c);
            lemma_extends_trans(p0.steps, p1.steps, p2.steps);
            lemma_extends_trans(p0.steps, p2.steps, push_step(p2, c).steps);
            lemma_extends_trans(p.steps, p0.steps, push_step(p2, c).steps);
        }
    }
}

/// Law: in the plan of any import, every id that a step uses comes from an
/// earlier step that writes a row of the right kind, and every teacher save
/// follows the lookup of the same teacher.
pub proof fn law_plan_operands_name_earlier_steps(d: ImportedDataView)
    ensures
        plan_well_formed(plan_of(d)),
{
    let e = empty_plan();
    assert(plan_ok(e));
    match d {
        ImportedDataView::Excel { teachers, classrooms, subjects, progress } => {
            lemma_plan_subjects_ok(e, subjects);
            let p1 = plan_subjects(e, subjects);
            lemma_plan_classrooms_ok(p1, classrooms);
            let p2 = plan_classrooms(p1, classrooms);
            lemma_plan_teachers_ok(p2, teachers, true);
            let p3 = plan_teachers(p2, teachers, true);
            lemma_plan_progress_rows_ok(p3, progress, true);
        },
        ImportedDataView::Teachers(ts) => lemma_plan_teachers_ok(e, ts, false),
        ImportedDataView::Classrooms(cs) => lemma_plan_classrooms_ok(e, cs),
        ImportedDataView::Subjects(ss) => lemma_plan_subjects_ok(e, ss),
        ImportedDataView::Progress(rs) => lemma_plan_progress_rows_ok(e, rs, false),
    }
}

} // verus!

verus! {

/// A step whose reply carries the id of the row it wrote.
pub open spec fn yields_id(c: CommandView) -> bool {
    ||| c is UpsertSubject
    ||| c is EnsureSubject
    ||| c is UpsertClassroom
    ||| c is EnsureClassroom
    ||| c is SaveTeacher
}

/// The replies so far answer their steps in kind: an id for every write, a
/// lookup result for every teacher lookup.
pub open spec fn replies_fit(plan: Seq<CommandView>, replies: Seq<Reply>) -> bool {
    forall|j: int|
        0 <= j < replies.len() && j < plan.len() ==> (yields_id(plan[j]) ==> #[trigger] replies[j] is Id) && (
        plan[j] is FindTeacher ==> replies[j] is Found)
}

/// Law: when every write answers with an id and every lookup with its
/// result, a run of a plan never meets a step it cannot turn into an action.
pub proof fn law_fitting_replies_leave_no_step_unanswered(plan: Seq<CommandView>, replies: Seq<Reply>)
    requires
        plan_well_formed(plan),
        replies_fit(plan, replies),
    ensures
        !(next_action_of(plan, replies) is Unanswered),
{
    let k = replies.len() as int;
    if k < plan.len() {
        assert(operands_ok(plan, k));
        match plan[k] {
            CommandView::SaveTeacher { lookup, .. } => {
                assert(replies[lookup] is Found);
            },
            CommandView::Qualify { teacher, subject } => {
                assert(replies[teacher] is Id);
                assert(replies[subject] is Id);
            },
            CommandView::UpsertProgress { classroom, subject, .. } => {
                assert(replies[classroom] is Id);
                assert(replies[subject] is Id);
            },
            _ => {},
        }
    }
}

} // verus!

verus! {

/// The (teacher, subject) name pairs that the qualification steps of a plan
/// link, in order.
pub open spec fn qualification_pairs(steps: Seq<CommandView>) -> Seq<(Seq<char>, Seq<char>)>
    decreases steps.len(),
{
    if steps.len() == 0 {
        Seq::empty()
    } else {
        let prev = qualification_pairs(steps.drop_last());
        match steps.last() {
            CommandView::Qualify { teacher, subject } => prev.push((row_name(steps[teacher]), row_name(steps[subject]))),
            _ => prev,
        }
    }
}

/// The (teacher, subject) name pairs that the teacher rows list, in order.
pub open spec fn listed_qualifications(ts: Seq<TeacherImportView>) -> Seq<(Seq<char>, Seq<char>)>
    decreases ts.len(),
{
    if ts.len() == 0 {
        Seq::empty()
    } else {
        let t = ts.last();
        listed_qualifications(ts.drop_last()) + t.qualified_subjects.map_values(|q: Seq<char>| (t.name, q))
    }
}

/// The (classroom, subject, current, expected) values that the progress
/// steps of a plan write, in order.
pub open spec fn progress_writes(steps: Seq<CommandView>) -> Seq<(Seq<char>, Seq<char>, Seq<char>, Seq<char>)>
    decreases steps.len(),
{
    if steps.len() == 0 {
        Seq::empty()
    } else {
        let prev = progress_writes(steps.drop_last());
        match steps.last() {
            CommandView::UpsertProgress { classroom, subject, current_progress_ratio, expected_progress_ratio } => prev.push(
                (row_name(steps[classroom]), row_name(steps[subject]), current_progress_ratio, expected_progress_ratio),
            ),
            _ => prev,
        }
    }
}

/// The values that the progress rows hold, in order.
pub open spec fn listed_progress(rs: Seq<AcademicProgressImportView>) -> Seq<(Seq<char>, Seq<char>, Seq<char>, Seq<char>)> {
    rs.map_values(
        |r: AcademicProgressImportView|
            (r.classroom_name, r.subject_name, r.current_progress_ratio, r.expected_progress_ratio),
    )
}

/// A step that is neither a link nor a progress write.
pub open spec fn plain_step(c: CommandView) -> bool {
    !(c is Qualify) && !(c is UpsertProgress)
}

proof fn lemma_push_plain(s: Seq<CommandView>, c: CommandView)
    requires
        plain_step(c),
    ensures
        qualification_pairs(s.push(c)) == qualification_pairs(s),
        progress_writes(s.push(c)) == progress_writes(s),
{
    assert(s.push(c).drop_last() =~= s);
}

proof fn lemma_subject_ref_plain(p: PlanView, name: Seq<char>)
    ensures
        qualification_pairs(subject_ref(p, name).steps) == qualification_pairs(p.steps),
        progress_writes(subject_ref(p, name).steps) == progress_writes(p.steps),
{
    if !p.subjects.contains_key(name) {
        lemma_push_plain(p.steps, CommandView::EnsureSubject { name, base_periods_per_week: DEFAULT_SUBJECT_PERIODS });
    }
}

proof fn lemma_classroom_ref_plain(p: PlanView, name: Seq<char>)
    ensures
        qualification_pairs(classroom_ref(p, name).steps) == qualification_pairs(p.steps),
        progress_writes(classroom_ref(p, name).steps) == progress_writes(p.steps),
{
    if !p.classrooms.contains_key(name) {
        lemma_push_plain(p.steps, CommandView::EnsureClassroom { name, grade_level: DEFAULT_CLASSROOM_GRADE });
    }
}

proof fn lemma_plan_subjects_plain(p: PlanView, ss: Seq<SubjectImportView>)
    ensures
        qualification_pairs(plan_subjects(p, ss).steps) == qualification_pairs(p.steps),
        progress_writes(plan_subjects(p, ss).steps) == progress_writes(p.steps),
    decreases ss.len(),
{
    if ss.len() > 0 {
        lemma_plan_subjects_plain(p, ss.drop_last());
        let p0 = plan_subjects(p, ss.drop_last());
        let s = ss.last();
        lemma_push_plain(p0.steps, CommandView::UpsertSubject { name: s.name, base_periods_per_week: s.base_periods_per_week });
    }
}

proof fn lemma_plan_classrooms_plain(p: PlanView, cs: Seq<ClassroomImportView>)
    ensures
        qualification_pairs(plan_classrooms(p, cs).steps) == qualification_pairs(p.steps),
        progress_writes(plan_classrooms(p, cs).steps) == progress_writes(p.steps),
    decreases cs.len(),
{
    if cs.len() > 0 {
        lemma_plan_classrooms_plain(p, cs.drop_last());
        let p0 = plan_classrooms(p, cs.drop_last());
        let c = cs.last();
        lemma_push_plain(p0.steps, CommandView::UpsertClassroom { name: c.name, grade_level: c.grade_level });
    }
}

proof fn lemma_plan_qualifications_pairs(p: PlanView, teacher: int, names: Seq<Seq<char>>, cached: bool)
    requires
        plan_ok(p),
        0 <= teacher < p.steps.len(),
        p.steps[teacher] is SaveTeacher,
    ensures
        qualification_pairs(plan_qualifications(p, teacher, names, cached).steps) == qualification_pairs(p.steps)
            + names.map_values(|q: Seq<char>| (row_name(p.steps[teacher]), q)),
        progress_writes(plan_qualifications(p, teacher, names, cached).steps) == progress_writes(p.steps),
    decreases names.len(),
{
    let tn = row_name(p.steps[teacher]);
    if names.len() == 0 {
        assert(names.map_values(|q: Seq<char>| (tn, q)) =~= Seq::<(Seq<char>, Seq<char>)>::empty());
        assert(qualification_pairs(p.steps) + Seq::<(Seq<char>, Seq<char>)>::empty() =~= qualification_pairs(p.steps));
    } else {
        lemma_plan_qualifications_pairs(p, teacher, names.drop_last(), cached);
        lemma_plan_qualifications_ok(p, teacher, names.drop_last(), cached);
        let p0 = plan_qualifications(p, teacher, names.drop_last(), cached);
        let name = names.last();
        assert(p0.steps[teacher] == p.steps[teacher]);
        let before = qualification_pairs(p.steps) + names.drop_last().map_values(|q: Seq<char>| (tn, q));
        assert(before.push((tn, name)) =~= qualification_pairs(p.steps) + names.map_values(|q: Seq<char>| (tn, q)));
        if cached {
            lemma_subject_ref_ok(p0, name);
            lemma_subject_ref_plain(p0, name);
            let p1 = subject_ref(p0, name);
            let c = CommandView::Qualify { teacher, subject: subject_step(p0, name) };
            assert(p1.steps.push(c).drop_last() =~= p1.steps);
            assert(p1.steps.push(c)[teacher] == p.steps[teacher]);
        } else {
            let k = p0.steps.len() as int;
            let e = CommandView::EnsureSubject { name, base_periods_per_week: DEFAULT_SUBJECT_PERIODS };
            lemma_push_plain(p0.steps, e);
            let s1 = p0.steps.push(e);
            let c = CommandView::Qualify { teacher, subject: k };
            assert(s1.push(c).drop_last() =~= s1);
            assert(s1.push(c)[teacher] == p.steps[teacher]);
        }
    }
}

proof fn lemma_plan_teachers_pairs(p: PlanView, ts: Seq<TeacherImportView>, cached: bool)
    requires
        plan_ok(p),
    ensures
        qualification_pairs(plan_teachers(p, ts, cached).steps) == qualification_pairs(p.steps) + listed_qualifications(ts),
        progress_writes(plan_teachers(p, ts, cached).steps) == progress_writes(p.steps),
    decreases ts.len(),
{
    if ts.len() == 0 {
        assert(qualification_pairs(p.steps) + Seq::<(Seq<char>, Seq<char>)>::empty() =~= qualification_pairs(p.steps));
    } else {
        lemma_plan_teachers_pairs(p, ts.drop_last(), cached);
        lemma_plan_teachers_ok(p, ts.drop_last(), cached);
        let p0 = plan_teachers(p, ts.drop_last(), cached);
        let t = ts.last();
        let k = p0.steps.len() as int;
        let f = CommandView::FindTeacher { name: t.name };
        lemma_push_ok(p0, f);
        lemma_push_plain(p0.steps, f);
        let p1 = push_step(p0, f);
        let s = CommandView::SaveTeacher {
            lookup: k,
            name: t.name,
            max_daily_periods: t.max_daily_periods,
            max_weekly_periods: t.max_weekly_periods,
        };
        assert(operands_ok(p1.steps.push(s), p1.steps.len() as int));
        lemma_push_ok(p1, s);
        lemma_push_plain(p1.steps, s);
        let p2 = push_step(p1, s);
        lemma_plan_qualifications_pairs(p2, k + 1, t.qualified_subjects, cached);
        assert(row_name(p2.steps[k + 1]) == t.name);
        assert(qualification_pairs(p.steps) + listed_qualifications(ts) =~= (qualification_pairs(p.steps)
            + listed_qualifications(ts.drop_last())) + t.qualified_subjects.map_values(|q: Seq<char>| (t.name, q)));
    }
}

proof fn lemma_plan_progress_writes(p: PlanView, rs: Seq<AcademicProgressImportView>, cached: bool)
    requires
        plan_ok(p),
    ensures
        progress_writes(plan_progress_rows(p, rs, cached).steps) == progress_writes(p.steps) + listed_progress(rs),
        qualification_pairs(plan_progress_rows(p, rs, cached).steps) == qualification_pairs(p.steps),
    decreases rs.len(),
{
    if rs.len() == 0 {
        assert(listed_progress(rs) =~= Seq::<(Seq<char>, Seq<char>, Seq<char>, Seq<char>)>::empty());
        assert(progress_writes(p.steps) + listed_progress(rs) =~= progress_writes(p.steps));
    } else {
        lemma_plan_progress_writes(p, rs.drop_last(), cached);
        lemma_plan_progress_rows_ok(p, rs.drop_last(), cached);
        let p0 = plan_progress_rows(p, rs.drop_last(), cached);
        let r = rs.last();
        let row = (r.classroom_name, r.subject_name, r.current_progress_ratio, r.expected_progress_ratio);
        assert(listed_progress(rs) =~= listed_progress(rs.drop_last()).push(row));
        assert(progress_writes(p.steps) + listed_progress(rs) =~= (progress_writes(p.steps) + listed_progress(
            rs.drop_last(),
        )).push(row));
        if cached {
            lemma_classroom_ref_ok(p0, r.classroom_name);
            lemma_classroom_ref_plain(p0, r.classroom_name);
            let p1 = classroom_ref(p0, r.classroom_name);
            lemma_subject_ref_ok(p1, r.subject_name);
            lemma_subject_ref_plain(p1, r.subject_name);
            let p2 = subject_ref(p1, r.subject_name);
            let ci = classroom_step(p0, r.classroom_name);
            assert(p2.steps[ci] == p1.steps[ci]);
            let c = CommandView::UpsertProgress {
                classroom: ci,
                subject: subject_step(p1, r.subject_name),
                current_progress_ratio: r.current_progress_ratio,
                expected_progress_ratio: r.expected_progress_ratio,
            };
            assert(p2.steps.push(c).drop_last() =~= p2.steps);
        } else {
            let k = p0.steps.len() as int;
            let ec = CommandView::EnsureClassroom { name: r.classroom_name, grade_level: DEFAULT_CLASSROOM_GRADE };
            lemma_push_plain(p0.steps, ec);
            let s1 = p0.steps.push(ec);
            let es = CommandView::EnsureSubject { name: r.subject_name, base_periods_per_week: DEFAULT_SUBJECT_PERIODS };
            lemma_push_plain(s1, es);
            let s2 = s1.push(es);
            let c = CommandView::UpsertProgress {
                classroom: k,
                subject: k + 1,
                current_progress_ratio: r.current_progress_ratio,
                expected_progress_ratio: r.expected_progress_ratio,
            };
            assert(s2.push(c).drop_last() =~= s2);
        }
    }
}

/// The qualifications that an import links, as (teacher, subject) name pairs.
pub open spec fn imported_qualifications(d: ImportedDataView) -> Seq<(Seq<char>, Seq<char>)> {
    match d {
        ImportedDataView::Excel { teachers, .. } => listed_qualifications(teachers),
        ImportedDataView::Teachers(ts) => listed_qualifications(ts),
        _ => Seq::empty(),
    }
}

/// The progress rows of an import.
pub open spec fn imported_progress(d: ImportedDataView) -> Seq<AcademicProgressImportView> {
    match d {
        ImportedDataView::Excel { progress, .. } => progress,
        ImportedDataView::Progress(rs) => rs,
        _ => Seq::empty(),
    }
}

/// Law: storing an import links exactly the qualifications its teacher rows
/// list, in order, each to the teacher of that row and the subject of that
/// name; and it writes exactly its progress rows, in order, each against the
/// classroom and the subject of the row's names.
pub proof fn law_plan_stores_what_was_imported(d: ImportedDataView)
    ensures
        qualification_pairs(plan_of(d)) == imported_qualifications(d),
        progress_writes(plan_of(d)) == listed_progress(imported_progress(d)),
{
    let e = empty_plan();
    assert(plan_ok(e));
    assert(listed_progress(Seq::<AcademicProgressImportView>::empty()) =~= Seq::empty());
    match d {
        ImportedDataView::Excel { teachers, classrooms, subjects, progress } => {
            lemma_plan_subjects_ok(e, subjects);
            lemma_plan_subjects_plain(e, subjects);
            let p1 = plan_subjects(e, subjects);
            lemma_plan_classrooms_ok(p1, classrooms);
            lemma_plan_classrooms_plain(p1, classrooms);
            let p2 = plan_classrooms(p1, classrooms);
            lemma_plan_teachers_ok(p2, teachers, true);
            lemma_plan_teachers_pairs(p2, teachers, true);
            let p3 = plan_teachers(p2, teachers, true);
            lemma_plan_progress_writes(p3, progress, true);
            assert(Seq::<(Seq<char>, Seq<char>)>::empty() + listed_qualifications(teachers) =~= listed_qualifications(teachers));
            assert(Seq::<(Seq<char>, Seq<char>, Seq<char>, Seq<char>)>::empty() + listed_progress(progress) =~= listed_progress(progress));
        },
        ImportedDataView::Teachers(ts) => {
            lemma_plan_teachers_pairs(e, ts, false);
            assert(Seq::<(Seq<char>, Seq<char>)>::empty() + listed_qualifications(ts) =~= listed_qualifications(ts));
        },
        ImportedDataView::Classrooms(cs) => lemma_plan_classrooms_plain(e, cs),
        ImportedDataView::Subjects(ss) => lemma_plan_subjects_plain(e, ss),
        ImportedDataView::Progress(rs) => {
            lemma_plan_progress_writes(e, rs, false);
            assert(Seq::<(Seq<char>, Seq<char>, Seq<char>, Seq<char>)>::empty() + listed_progress(rs) =~= listed_progress(rs));
        },
    }
}

} // verus!

verus! {

/// A row that a plan writes from the values of an imported row.
pub enum StoredRow {
    Subject { name: Seq<char>, base_periods_per_week: i32 },
    Classroom { name: Seq<char>, grade_level: i32 },
    Teacher { name: Seq<char>, max_daily_periods: i32, max_weekly_periods: i32 },
}

/// The imported row that a step writes, if it writes one.
pub open spec fn row_of(c: CommandView) -> Seq<StoredRow> {
    match c {
        CommandView::UpsertSubject { name, base_periods_per_week } => seq![StoredRow::Subject { name, base_periods_per_week }],
        CommandView::UpsertClassroom { name, grade_level } => seq![StoredRow::Classroom { name, grade_level }],
        CommandView::SaveTeacher { name, max_daily_periods, max_weekly_periods, .. } => seq![
            StoredRow::Teacher { name, max_daily_periods, max_weekly_periods },
        ],
        _ => Seq::empty(),
    }
}

/// The imported rows that the steps of a plan write, in order.
pub open spec fn stored_rows(steps: Seq<CommandView>) -> Seq<StoredRow>
    decreases steps.len(),
{
    if steps.len() == 0 {
        Seq::empty()
    } else {
        stored_rows(steps.drop_last()) + row_of(steps.last())
    }
}

pub open spec fn subject_rows(ss: Seq<SubjectImportView>) -> Seq<StoredRow> {
    ss.map_values(|s: SubjectImportView| StoredRow::Subject { name: s.name, base_periods_per_week: s.base_periods_per_week })
}

pub open spec fn classroom_rows(cs: Seq<ClassroomImportView>) -> Seq<StoredRow> {
    cs.map_values(|c: ClassroomImportView| StoredRow::Classroom { name: c.name, grade_level: c.grade_level })
}

pub open spec fn teacher_rows(ts: Seq<TeacherImportView>) -> Seq<StoredRow> {
    ts.map_values(
        |t: TeacherImportView|
            StoredRow::Teacher {
                name: t.name,
                max_daily_periods: t.max_daily_periods,
                max_weekly_periods: t.max_weekly_periods,
            },
    )
}

/// The subject, classroom and teacher rows of an import, in the order a
/// workbook stores them: subjects, classrooms, teachers.
pub open spec fn imported_rows(d: ImportedDataView) -> Seq<StoredRow> {
    match d {
        ImportedDataView::Excel { teachers, classrooms, subjects, .. } => subject_rows(subjects) + classroom_rows(
            classrooms,
        ) + teacher_rows(teachers),
        ImportedDataView::Teachers(ts) => teacher_rows(ts),
        ImportedDataView::Classrooms(cs) => classroom_rows(cs),
        ImportedDataView::Subjects(ss) => subject_rows(ss),
        ImportedDataView::Progress(_) => Seq::empty(),
    }
}

proof fn lemma_push_rows(s: Seq<CommandView>, c: CommandView)
    ensures
        stored_rows(s.push(c)) == stored_rows(s) + row_of(c),
{
    assert(s.push(c).drop_last() =~= s);
}

proof fn lemma_refs_keep_rows(p: PlanView, name: Seq<char>)
    ensures
        stored_rows(subject_ref(p, name).steps) == stored_rows(p.steps),
        stored_rows(classroom_ref(p, name).steps) == stored_rows(p.steps),
{
    let e1 = CommandView::EnsureSubject { name, base_periods_per_week: DEFAULT_SUBJECT_PERIODS };
    let e2 = CommandView::EnsureClassroom { name, grade_level: DEFAULT_CLASSROOM_GRADE };
    lemma_push_rows(p.steps, e1);
    lemma_push_rows(p.steps, e2);
    assert(stored_rows(p.steps) + Seq::<StoredRow>::empty() =~= stored_rows(p.steps));
}

proof fn lemma_subjects_rows(p: PlanView, ss: Seq<SubjectImportView>)
    ensures
        stored_rows(plan_subjects(p, ss).steps) == stored_rows(p.steps) + subject_rows(ss),
    decreases ss.len(),
{
    if ss.len() == 0 {
        assert(stored_rows(p.steps) + subject_rows(ss) =~= stored_rows(p.steps));
    } else {
        lemma_subjects_rows(p, ss.drop_last());
        let p0 = plan_subjects(p, ss.drop_last());
        let s = ss.last();
        lemma_push_rows(p0.steps, CommandView::UpsertSubject { name: s.name, base_periods_per_week: s.base_periods_per_week });
        assert(subject_rows(ss) =~= subject_rows(ss.drop_last()) + seq![
            StoredRow::Subject { name: s.name, base_periods_per_week: s.base_periods_per_week },
        ]);
        assert(stored_rows(p.steps) + subject_rows(ss) =~= stored_rows(p.steps) + subject_rows(ss.drop_last()) + seq![
            StoredRow::Subject { name: s.name, base_periods_per_week: s.base_periods_per_week },
        ]);
    }
}

proof fn lemma_classrooms_rows(p: PlanView, cs: Seq<ClassroomImportView>)
    ensures
        stored_rows(plan_classrooms(p, cs).steps) == stored_rows(p.steps) + classroom_rows(cs),
    decreases cs.len(),
{
    if cs.len() == 0 {
        assert(stored_rows(p.steps) + classroom_rows(cs) =~= stored_rows(p.steps));
    } else {
        lemma_classrooms_rows(p, cs.drop_last());
        let p0 = plan_classrooms(p, cs.drop_last());
        let c = cs.last();
        let r = seq![StoredRow::Classroom { name: c.name, grade_level: c.grade_level }];
        lemma_push_rows(p0.steps, CommandView::UpsertClassroom { name: c.name, grade_level: c.grade_level });
        assert(classroom_rows(cs) =~= classroom_rows(cs.drop_last()) + r);
        assert(stored_rows(p.steps) + classroom_rows(cs) =~= stored_rows(p.steps) + classroom_rows(cs.drop_last()) + r);
    }
}

proof fn lemma_qualifications_rows(p: PlanView, teacher: int, names: Seq<Seq<char>>, cached: bool)
    ensures
        stored_rows(plan_qualifications(p, teacher, names, cached).steps) == stored_rows(p.steps),
    decreases names.len(),
{
    if names.len() > 0 {
        lemma_qualifications_rows(p, teacher, names.drop_last(), cached);
        let p0 = plan_qualifications(p, teacher, names.drop_last(), cached);
        let name = names.last();
        let e = Seq::<StoredRow>::empty();
        if cached {
            lemma_refs_keep_rows(p0, name);
            let p1 = subject_ref(p0, name);
            lemma_push_rows(p1.steps, CommandView::Qualify { teacher, subject: subject_step(p0, name) });
            assert(stored_rows(p1.steps) + e =~= stored_rows(p1.steps));
        } else {
            let k = p0.steps.len() as int;
            let es = CommandView::EnsureSubject { name, base_periods_per_week: DEFAULT_SUBJECT_PERIODS };
            lemma_push_rows(p0.steps, es);
            lemma_push_rows(p0.steps.push(es), CommandView::Qualify { teacher, subject: k });
            assert(stored_rows(p0.steps) + e =~= stored_rows(p0.steps));
        }
    }
}

proof fn lemma_teachers_rows(p: PlanView, ts: Seq<TeacherImportView>, cached: bool)
    ensures
        stored_rows(plan_teachers(p, ts, cached).steps) == stored_rows(p.steps) + teacher_rows(ts),
    decreases ts.len(),
{
    if ts.len() == 0 {
        assert(stored_rows(p.steps) + teacher_rows(ts) =~= stored_rows(p.steps));
    } else {
        lemma_teachers_rows(p, ts.drop_last(), cached);
        let p0 = plan_teachers(p, ts.drop_last(), cached);
        let t = ts.last();
        let k = p0.steps.len() as int;
        let f = CommandView::FindTeacher { name: t.name };
        let s = CommandView::SaveTeacher {
            lookup: k,
            name: t.name,
            max_daily_periods: t.max_daily_periods,
            max_weekly_periods: t.max_weekly_periods,
        };
        lemma_push_rows(p0.steps, f);
        lemma_push_rows(p0.steps.push(f), s);
        let p2 = push_step(push_step(p0, f), s);
        lemma_qualifications_rows(p2, k + 1, t.qualified_subjects, cached);
        let r = seq![
            StoredRow::Teacher {
                name: t.name,
                max_daily_periods: t.max_daily_periods,
                max_weekly_periods: t.max_weekly_periods,
            },
        ];
        assert(stored_rows(p0.steps) + Seq::<StoredRow>::empty() =~= stored_rows(p0.steps));
        assert(teacher_rows(ts) =~= teacher_rows(ts.drop_last()) + r);
        assert(stored_rows(p.steps) + teacher_rows(ts) =~= stored_rows(p.steps) + teacher_rows(ts.drop_last()) + r);
    }
}

proof fn lemma_progress_rows_keep_rows(p: PlanView, rs: Seq<AcademicProgressImportView>, cached: bool)
    ensures
        stored_rows(plan_progress_rows(p, rs, cached).steps) == stored_rows(p.steps),
    decreases rs.len(),
{
    if rs.len() > 0 {
        lemma_progress_rows_keep_rows(p, rs.drop_last(), cached);
        let p0 = plan_progress_rows(p, rs.drop_last(), cached);
        let r = rs.last();
        let e = Seq::<StoredRow>::empty();
        if cached {
            lemma_refs_keep_rows(p0, r.classroom_name);
            let p1 = classroom_ref(p0, r.classroom_name);
            lemma_refs_keep_rows(p1, r.subject_name);
            let p2 = subject_ref(p1, r.subject_name);
            let c = CommandView::UpsertProgress {
                classroom: classroom_step(p0, r.classroom_name),
                subject: subject_step(p1, r.subject_name),
                current_progress_ratio: r.current_progress_ratio,
                expected_progress_ratio: r.expected_progress_ratio,
            };
            lemma_push_rows(p2.steps, c);
            assert(stored_rows(p2.steps) + e =~= stored_rows(p2.steps));
        } else {
            let k = p0.steps.len() as int;
            let ec = CommandView::EnsureClassroom { name: r.classroom_name, grade_level: DEFAULT_CLASSROOM_GRADE };
            let es = CommandView::EnsureSubject { name: r.subject_name, base_periods_per_week: DEFAULT_SUBJECT_PERIODS };
            let c = CommandView::UpsertProgress {
                classroom: k,
                subject: k + 1,
                current_progress_ratio: r.current_progress_ratio,
                expected_progress_ratio: r.expected_progress_ratio,
            };
            lemma_push_rows(p0.steps, ec);
            lemma_push_rows(p0.steps.push(ec), es);
            lemma_push_rows(p0.steps.push(ec).push(es), c);
            assert(stored_rows(p0.steps) + e =~= stored_rows(p0.steps));
        }
    }
}

/// Law: storing an import writes exactly its subject, classroom and teacher
/// rows with their own values, in order (a workbook's subjects first, then its
/// classrooms, then its teachers); every other write only adds a missing
/// subject or classroom, a qualification or a progress row.
pub proof fn law_plan_writes_every_imported_row(d: ImportedDataView)
    ensures
        stored_rows(plan_of(d)) == imported_rows(d),
{
    let e = empty_plan();
    let none = Seq::<StoredRow>::empty();
    match d {
        ImportedDataView::Excel { teachers, classrooms, subjects, progress } => {
            lemma_subjects_rows(e, subjects);
            let p1 = plan_subjects(e, subjects);
            lemma_classrooms_rows(p1, classrooms);
            let p2 = plan_classrooms(p1, classrooms);
            lemma_teachers_rows(p2, teachers, true);
            let p3 = plan_teachers(p2, teachers, true);
            lemma_progress_rows_keep_rows(p3, progress, true);
            assert(none + subject_rows(subjects) =~= subject_rows(subjects));
        },
        ImportedDataView::Teachers(ts) => {
            lemma_teachers_rows(e, ts, false);
            assert(none + teacher_rows(ts) =~= teacher_rows(ts));
        },
        ImportedDataView::Classrooms(cs) => {
            lemma_classrooms_rows(e, cs);
            assert(none + classroom_rows(cs) =~= classroom_rows(cs));
        },
        ImportedDataView::Subjects(ss) => {
            lemma_subjects_rows(e, ss);
            assert(none + subject_rows(ss) =~= subject_rows(ss));
        },
        ImportedDataView::Progress(rs) => {
            lemma_progress_rows_keep_rows(e, rs, false);
        },
    }
}

} // verus!

verus! {

/// Every subject and classroom that a step writes is recorded under its name.
pub open spec fn tables_complete(p: PlanView) -> bool {
    &&& forall|j: int|
        0 <= j < p.steps.len() && #[trigger] writes_subject(p.steps[j], row_name(p.steps[j])) ==> p.subjects.contains_key(
            row_name(p.steps[j]),
        )
    &&& forall|j: int|
        0 <= j < p.steps.len() && #[trigger] writes_classroom(p.steps[j], row_name(p.steps[j])) ==> p.classrooms.contains_key(
            row_name(p.steps[j]),
        )
}

/// A subject or classroom is given default values only when no earlier step
/// wrote one of that name.
pub open spec fn defaults_only_for_new_names(steps: Seq<CommandView>) -> bool {
    forall|k: int, j: int|
        0 <= j < k < steps.len() ==> {
            &&& (#[trigger] steps[k] is EnsureSubject ==> !writes_subject(#[trigger] steps[j], row_name(steps[k])))
            &&& (steps[k] is EnsureClassroom ==> !writes_classroom(steps[j], row_name(steps[k])))
        }
}

pub open spec fn cache_ok(p: PlanView) -> bool {
    tables_complete(p) && defaults_only_for_new_names(p.steps)
}

/// Pushing a step that writes no subject or classroom with defaults, while
/// recording what it writes.
proof fn lemma_push_cache(p: PlanView, q: PlanView, c: CommandView)
    requires
        cache_ok(p),
        q.steps == p.steps.push(c),
        forall|n: Seq<char>| #[trigger] p.subjects.contains_key(n) ==> q.subjects.contains_key(n),
        forall|n: Seq<char>| #[trigger] p.classrooms.contains_key(n) ==> q.classrooms.contains_key(n),
        writes_subject(c, row_name(c)) ==> q.subjects.contains_key(row_name(c)),
        writes_classroom(c, row_name(c)) ==> q.classrooms.contains_key(row_name(c)),
        c is EnsureSubject ==> !p.subjects.contains_key(row_name(c)),
        c is EnsureClassroom ==> !p.classrooms.contains_key(row_name(c)),
    ensures
        cache_ok(q),
{
    let s = q.steps;
    let n = p.steps.len() as int;
    assert forall|j: int| 0 <= j < s.len() && #[trigger] writes_subject(s[j], row_name(s[j])) implies q.subjects.contains_key(
        row_name(s[j]),
    ) by {
        if j < n {
            assert(s[j] == p.steps[j]);
            assert(writes_subject(p.steps[j], row_name(p.steps[j])));
        }
    }
    assert forall|j: int| 0 <= j < s.len() && #[trigger] writes_classroom(s[j], row_name(s[j])) implies q.classrooms.contains_key(
        row_name(s[j]),
    ) by {
        if j < n {
            assert(s[j] == p.steps[j]);
            assert(writes_classroom(p.steps[j], row_name(p.steps[j])));
        }
    }
    assert forall|k: int, j: int| 0 <= j < k < s.len() implies {
        &&& (#[trigger] s[k] is EnsureSubject ==> !writes_subject(#[trigger] s[j], row_name(s[k])))
        &&& (s[k] is EnsureClassroom ==> !writes_classroom(s[j], row_name(s[k])))
    } by {
        assert(s[j] == p.steps[j]);
        if k < n {
            assert(s[k] == p.steps[k]);
        } else {
            if c is EnsureSubject && writes_subject(s[j], row_name(c)) {
                assert(writes_subject(p.steps[j], row_name(p.steps[j])));
            }
            if c is EnsureClassroom && writes_classroom(s[j], row_name(c)) {
                assert(writes_classroom(p.steps[j], row_name(p.steps[j])));
            }
        }
    }
}

proof fn lemma_subject_ref_cache(p: PlanView, name: Seq<char>)
    requires
        cache_ok(p),
    ensures
        cache_ok(subject_ref(p, name)),
        forall|n: Seq<char>| #[trigger] p.subjects.contains_key(n) ==> subject_ref(p, name).subjects.contains_key(n),
        forall|n: Seq<char>| #[trigger] p.classrooms.contains_key(n) ==> subject_ref(p, name).classrooms.contains_key(n),
{
    if !p.subjects.contains_key(name) {
        lemma_push_cache(p, subject_ref(p, name), CommandView::EnsureSubject { name, base_periods_per_week: DEFAULT_SUBJECT_PERIODS });
    }
}

proof fn lemma_classroom_ref_cache(p: PlanView, name: Seq<char>)
    requires
        cache_ok(p),
    ensures
        cache_ok(classroom_ref(p, name)),
        forall|n: Seq<char>| #[trigger] p.subjects.contains_key(n) ==> classroom_ref(p, name).subjects.contains_key(n),
        forall|n: Seq<char>| #[trigger] p.classrooms.contains_key(n) ==> classroom_ref(p, name).classrooms.contains_key(n),
{
    if !p.classrooms.contains_key(name) {
        lemma_push_cache(p, classroom_ref(p, name), CommandView::EnsureClassroom { name, grade_level: DEFAULT_CLASSROOM_GRADE });
    }
}

proof fn lemma_subjects_cache(p: PlanView, ss: Seq<SubjectImportView>)
    requires
        cache_ok(p),
    ensures
        cache_ok(plan_subjects(p, ss)),
    decreases ss.len(),
{
    if ss.len() > 0 {
        lemma_subjects_cache(p, ss.drop_last());
        let p0 = plan_subjects(p, ss.drop_last());
        let s = ss.last();
        lemma_push_cache(p0, plan_subject(p0, s), CommandView::UpsertSubject { name: s.name, base_periods_per_week: s.base_periods_per_week });
    }
}

proof fn lemma_classrooms_cache(p: PlanView, cs: Seq<ClassroomImportView>)
    requires
        cache_ok(p),
    ensures
        cache_ok(plan_classrooms(p, cs)),
    decreases cs.len(),
{
    if cs.len() > 0 {
        lemma_classrooms_cache(p, cs.drop_last());
        let p0 = plan_classrooms(p, cs.drop_last());
        let c = cs.last();
        lemma_push_cache(p0, plan_classroom(p0, c), CommandView::UpsertClassroom { name: c.name, grade_level: c.grade_level });
    }
}

proof fn lemma_qualifications_cache(p: PlanView, teacher: int, names: Seq<Seq<char>>)
    requires
        cache_ok(p),
    ensures
        cache_ok(plan_qualifications(p, teacher, names, true)),
    decreases names.len(),
{
    if names.len() > 0 {
        lemma_qualifications_cache(p, teacher, names.drop_last());
        let p0 = plan_qualifications(p, teacher, names.drop_last(), true);
        let name = names.last();
        lemma_subject_ref_cache(p0, name);
        let p1 = subject_ref(p0, name);
        let c = CommandView::Qualify { teacher, subject: subject_step(p0, name) };
        lemma_push_cache(p1, push_step(p1, c), c);
    }
}

proof fn lemma_teachers_cache(p: PlanView, ts: Seq<TeacherImportView>)
    requires
        cache_ok(p),
    ensures
        cache_ok(plan_teachers(p, ts, true)),
    decreases ts.len(),
{
    if ts.len() > 0 {
        lemma_teachers_cache(p, ts.drop_last());
        let p0 = plan_teachers(p, ts.drop_last(), true);
        let t = ts.last();
        let k = p0.steps.len() as int;
        let f = CommandView::FindTeacher { name: t.name };
        let s = CommandView::SaveTeacher {
            lookup: k,
            name: t.name,
            max_daily_periods: t.max_daily_periods,
            max_weekly_periods: t.max_weekly_periods,
        };
        lemma_push_cache(p0, push_step(p0, f), f);
        let p1 = push_step(p0, f);
        lemma_push_cache(p1, push_step(p1, s), s);
        lemma_qualifications_cache(push_step(p1, s), k + 1, t.qualified_subjects);
    }
}

proof fn lemma_progress_cache(p: PlanView, rs: Seq<AcademicProgressImportView>)
    requires
        cache_ok(p),
    ensures
        cache_ok(plan_progress_rows(p, rs, true)),
    decreases rs.len(),
{
    if rs.len() > 0 {
        lemma_progress_cache(p, rs.drop_last());
        let p0 = plan_progress_rows(p, rs.drop_last(), true);
        let r = rs.last();
        lemma_classroom_ref_cache(p0, r.classroom_name);
        let p1 = classroom_ref(p0, r.classroom_name);
        lemma_subject_ref_cache(p1, r.subject_name);
        let p2 = subject_ref(p1, r.subject_name);
        let c = CommandView::UpsertProgress {
            classroom: classroom_step(p0, r.classroom_name),
            subject: subject_step(p1, r.subject_name),
            current_progress_ratio: r.current_progress_ratio,
            expected_progress_ratio: r.expected_progress_ratio,
        };
        lemma_push_cache(p2, push_step(p2, c), c);
    }
}

/// Law: within a workbook import, a subject or classroom is created with
/// default values only for a name that no earlier step wrote; a name met
/// again reuses the id already returned.
pub proof fn law_workbook_defaults_only_new_names(
    teachers: Seq<TeacherImportView>,
    classrooms: Seq<ClassroomImportView>,
    subjects: Seq<SubjectImportView>,
    progress: Seq<AcademicProgressImportView>,
)
    ensures
        defaults_only_for_new_names(plan_of(ImportedDataView::Excel { teachers, classrooms, subjects, progress })),
{
    let e = empty_plan();
    lemma_subjects_cache(e, subjects);
    let p1 = plan_subjects(e, subjects);
    lemma_classrooms_cache(p1, classrooms);
    let p2 = plan_classrooms(p1, classrooms);
    lemma_teachers_cache(p2, teachers);
    lemma_progress_cache(plan_teachers(p2, teachers, true), progress);
}

} // verus!

verus! {

/// The index in `steps` of the progress step that makes the `j`-th progress
/// write (see `progress_writes`); `-1` when there is none.
pub open spec fn progress_step_index(steps: Seq<CommandView>, j: int) -> int
    decreases steps.len(),
{
    if steps.len() == 0 {
        -1
    } else if steps.last() is UpsertProgress && j == progress_writes(steps.drop_last()).len() {
        steps.len() - 1
    } else {
        progress_step_index(steps.drop_last(), j)
    }
}

/// The classroom and subject steps that a progress step takes its ids from.
pub open spec fn progress_operands(c: CommandView) -> (int, int) {
    match c {
        CommandView::UpsertProgress { classroom, subject, .. } => (classroom, subject),
        _ => (-1, -1),
    }
}

proof fn lemma_well_formed_prefix(steps: Seq<CommandView>)
    requires
        steps.len() > 0,
        plan_well_formed(steps),
    ensures
        plan_well_formed(steps.drop_last()),
{
    let s0 = steps.drop_last();
    assert forall|k: int| 0 <= k < s0.len() implies #[trigger] operands_ok(s0, k) by {
        assert(operands_ok(steps, k));
        assert(s0[k] == steps[k]);
        match steps[k] {
            CommandView::SaveTeacher { lookup, .. } => {
                assert(s0[lookup] == steps[lookup]);
            },
            CommandView::Qualify { teacher, subject } => {
                assert(s0[teacher] == steps[teacher]);
                assert(s0[subject] == steps[subject]);
            },
            CommandView::UpsertProgress { classroom, subject, .. } => {
                assert(s0[classroom] == steps[classroom]);
                assert(s0[subject] == steps[subject]);
            },
            _ => {},
        }
    }
}

/// The `j`-th progress write of a well-formed plan is made by the step at
/// `progress_step_index`, from that step's own operands and ratios.
proof fn lemma_progress_step_index(steps: Seq<CommandView>, j: int)
    requires
        plan_well_formed(steps),
        0 <= j < progress_writes(steps).len(),
    ensures
        0 <= progress_step_index(steps, j) < steps.len(),
        steps[progress_step_index(steps, j)] matches CommandView::UpsertProgress {
            classroom,
            subject,
            current_progress_ratio,
            expected_progress_ratio,
        } && 0 <= classroom < progress_step_index(steps, j) && 0 <= subject < progress_step_index(steps, j)
            && progress_writes(steps)[j] == (
            row_name(steps[classroom]),
            row_name(steps[subject]),
            current_progress_ratio,
            expected_progress_ratio,
        ),
    decreases steps.len(),
{
    let s0 = steps.drop_last();
    let n = steps.len() - 1;
    assert(operands_ok(steps, n));
    if steps.last() is UpsertProgress && j == progress_writes(s0).len() {
    } else {
        lemma_well_formed_prefix(steps);
        lemma_progress_step_index(s0, j);
        let k = progress_step_index(s0, j);
        assert(steps[k] == s0[k]);
        let (c, s) = progress_operands(s0[k]);
        assert(steps[c] == s0[c]);
        assert(steps[s] == s0[s]);
    }
}

/// Law: in a run of the plan of any import, the action that stores the `j`-th
/// imported progress row, once the steps it takes its ids from have answered
/// with ids, writes that row's current ratio as the current ratio and its
/// expected ratio as the expected ratio, against those ids; and those steps
/// are the ones that write the row's classroom and subject.
pub proof fn law_progress_action_writes_imported_row(d: ImportedDataView, j: int, replies: Seq<Reply>)
    requires
        0 <= j < imported_progress(d).len(),
        replies.len() == progress_step_index(plan_of(d), j),
        reply_id(replies, progress_operands(plan_of(d)[replies.len() as int]).0) is Some,
        reply_id(replies, progress_operands(plan_of(d)[replies.len() as int]).1) is Some,
    ensures
        ({
            let row = imported_progress(d)[j];
            let (c, s) = progress_operands(plan_of(d)[replies.len() as int]);
            &&& row_name(plan_of(d)[c]) == row.classroom_name
            &&& row_name(plan_of(d)[s]) == row.subject_name
            &&& next_action_of(plan_of(d), replies) == ActionView::UpsertProgress {
                classroom_id: reply_id(replies, c)->0,
                subject_id: reply_id(replies, s)->0,
                current_progress_ratio: row.current_progress_ratio,
                expected_progress_ratio: row.expected_progress_ratio,
            }
        }),
{
    let plan = plan_of(d);
    law_plan_operands_name_earlier_steps(d);
    law_plan_stores_what_was_imported(d);
    lemma_progress_step_index(plan, j);
}

} // verus!

verus! {

/// The index in `steps` of the step that writes the `j`-th stored row (see
/// `stored_rows`); `-1` when there is none.
pub open spec fn row_step_index(steps: Seq<CommandView>, j: int) -> int
    decreases steps.len(),
{
    if steps.len() == 0 {
        -1
    } else if row_of(steps.last()).len() == 1 && j == stored_rows(steps.drop_last()).len() {
        steps.len() - 1
    } else {
        row_step_index(steps.drop_last(), j)
    }
}

/// The lookup step whose result a teacher save uses.
pub open spec fn save_lookup(c: CommandView) -> int {
    match c {
        CommandView::SaveTeacher { lookup, .. } => lookup,
        _ => -1,
    }
}

proof fn lemma_row_of_len(c: CommandView)
    ensures
        row_of(c).len() <= 1,
{
}

proof fn lemma_row_step_index(steps: Seq<CommandView>, j: int)
    requires
        0 <= j < stored_rows(steps).len(),
    ensures
        0 <= row_step_index(steps, j) < steps.len(),
        row_of(steps[row_step_index(steps, j)]) == seq![stored_rows(steps)[j]],
    decreases steps.len(),
{
    let s0 = steps.drop_last();
    lemma_row_of_len(steps.last());
    if row_of(steps.last()).len() == 1 && j == stored_rows(s0).len() {
        assert(stored_rows(steps)[j] == row_of(steps.last())[0]);
        assert(row_of(steps.last()) =~= seq![row_of(steps.last())[0]]);
    } else {
        assert(j < stored_rows(s0).len());
        lemma_row_step_index(s0, j);
        let k = row_step_index(s0, j);
        assert(steps[k] == s0[k]);
        assert(stored_rows(steps)[j] == stored_rows(s0)[j]);
    }
}

/// Law: in a run of the plan of any import, the action that stores the
/// `j`-th imported subject, classroom or teacher row writes that row's own
/// values: a subject or a classroom is upserted with its values; a teacher is
/// updated, under the id that the lookup of its name found, or else inserted,
/// with its own daily and weekly limits.
pub proof fn law_row_action_writes_imported_values(d: ImportedDataView, j: int, replies: Seq<Reply>)
    requires
        0 <= j < imported_rows(d).len(),
        replies.len() == row_step_index(plan_of(d), j),
    ensures
        match imported_rows(d)[j] {
            StoredRow::Subject { name, base_periods_per_week } => next_action_of(plan_of(d), replies)
                == ActionView::UpsertSubject { name, base_periods_per_week },
            StoredRow::Classroom { name, grade_level } => next_action_of(plan_of(d), replies)
                == ActionView::UpsertClassroom { name, grade_level },
            StoredRow::Teacher { name, max_daily_periods, max_weekly_periods } => {
                let lookup = save_lookup(plan_of(d)[replies.len() as int]);
                &&& 0 <= lookup < replies.len()
                &&& plan_of(d)[lookup] == CommandView::FindTeacher { name }
                &&& match replies[lookup] {
                    Reply::Found(Some(id)) => next_action_of(plan_of(d), replies) == ActionView::UpdateTeacher {
                        id,
                        max_daily_periods,
                        max_weekly_periods,
                    },
                    Reply::Found(None) => next_action_of(plan_of(d), replies) == ActionView::InsertTeacher {
                        name,
                        max_daily_periods,
                        max_weekly_periods,
                    },
                    _ => next_action_of(plan_of(d), replies) is Unanswered,
                }
            },
        },
{
    let plan = plan_of(d);
    law_plan_operands_name_earlier_steps(d);
    law_plan_writes_every_imported_row(d);
    lemma_row_step_index(plan, j);
    let k = replies.len() as int;
    assert(operands_ok(plan, k));
    assert(row_of(plan[k])[0] == imported_rows(d)[j]);
}

/// The index in `steps` of the step that makes the `j`-th qualification (see
/// `qualification_pairs`); `-1` when there is none.
pub open spec fn qualify_step_index(steps: Seq<CommandView>, j: int) -> int
    decreases steps.len(),
{
    if steps.len() == 0 {
        -1
    } else if steps.last() is Qualify && j == qualification_pairs(steps.drop_last()).len() {
        steps.len() - 1
    } else {
        qualify_step_index(steps.drop_last(), j)
    }
}

/// The teacher and subject steps that a qualification takes its ids from.
pub open spec fn qualify_operands(c: CommandView) -> (int, int) {
    match c {
        CommandView::Qualify { teacher, subject } => (teacher, subject),
        _ => (-1, -1),
    }
}

proof fn lemma_qualify_step_index(steps: Seq<CommandView>, j: int)
    requires
        plan_well_formed(steps),
        0 <= j < qualification_pairs(steps).len(),
    ensures
        0 <= qualify_step_index(steps, j) < steps.len(),
        steps[qualify_step_index(steps, j)] matches CommandView::Qualify { teacher, subject } && 0 <= teacher
            < qualify_step_index(steps, j) && 0 <= subject < qualify_step_index(steps, j)
            && qualification_pairs(steps)[j] == (row_name(steps[teacher]), row_name(steps[subject])),
    decreases steps.len(),
{
    let s0 = steps.drop_last();
    let n = steps.len() - 1;
    assert(operands_ok(steps, n));
    if steps.last() is Qualify && j == qualification_pairs(s0).len() {
    } else {
        lemma_well_formed_prefix(steps);
        lemma_qualify_step_index(s0, j);
        let k = qualify_step_index(s0, j);
        assert(steps[k] == s0[k]);
        let (t, s) = qualify_operands(s0[k]);
        assert(steps[t] == s0[t]);
        assert(steps[s] == s0[s]);
    }
}

/// Law: in a run of the plan of any import, the action that stores the `j`-th
/// qualification that the teacher rows list, once its teacher and subject
/// steps have answered with ids, links the teacher's id to the subject's id;
/// and those steps are the ones that write that teacher and that subject.
pub proof fn law_qualify_action_links_listed_pair(d: ImportedDataView, j: int, replies: Seq<Reply>)
    requires
        0 <= j < imported_qualifications(d).len(),
        replies.len() == qualify_step_index(plan_of(d), j),
        reply_id(replies, qualify_operands(plan_of(d)[replies.len() as int]).0) is Some,
        reply_id(replies, qualify_operands(plan_of(d)[replies.len() as int]).1) is Some,
    ensures
        ({
            let (teacher, subject) = imported_qualifications(d)[j];
            let (t, s) = qualify_operands(plan_of(d)[replies.len() as int]);
            &&& row_name(plan_of(d)[t]) == teacher
            &&& row_name(plan_of(d)[s]) == subject
            &&& next_action_of(plan_of(d), replies) == ActionView::Qualify {
                teacher_id: reply_id(replies, t)->0,
                subject_id: reply_id(replies, s)->0,
            }
        }),
{
    let plan = plan_of(d);
    law_plan_operands_name_earlier_steps(d);
    law_plan_stores_what_was_imported(d);
    lemma_qualify_step_index(plan, j);
}

} // verus!
