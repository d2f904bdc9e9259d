//! The scheduling domain: strongly typed identifiers, time slots, teachers,
//! classrooms, subjects, constraints and the timetable that a solver produces.
use vstd::prelude::*;
use std::collections::HashSet;

verus! {

#[verifier::external_type_specification]
#[verifier::external_body]
pub struct ExNaiveDate(chrono::NaiveDate);

#[derive(Debug, Clone, Copy, PartialEq, Eq, Hash, Structural)]
pub struct TeacherId(pub u32);

#[derive(Debug, Clone, Copy, PartialEq, Eq, Hash, Structural)]
pub struct ClassroomId(pub u32);

#[derive(Debug, Clone, Copy, PartialEq, Eq, Hash, Structural)]
pub struct SubjectId(pub u32);

/// A school day; the week runs Sunday to Thursday.
#[derive(Debug, Clone, Copy, PartialEq, Eq, Hash, Structural)]
pub enum DayOfWeek {
    Sunday,
    Monday,
    Tuesday,
    Wednesday,
    Thursday,
}

/// A period of a day (period 1, 2, 3, ...).
#[derive(Debug, Clone, Copy, PartialEq, Eq, Hash, Structural)]
pub struct TimeSlot {
    pub day: DayOfWeek,
    pub period: u8,
}

#[derive(Debug, Clone)]
pub struct Subject {
    pub id: SubjectId,
    pub name: String,
    /// Default required periods per week for a normal class.
    pub base_periods_per_week: u8,
}

#[derive(Debug)]
pub struct Teacher {
    pub id: TeacherId,
    pub name: String,
    /// Subjects this teacher is qualified to teach.
    pub qualified_subjects: HashSet<SubjectId>,
    /// Preferred periods (a soft constraint).
    pub preferences: Vec<TimeSlotPreference>,
    /// Most periods this teacher can teach per day and per week.
    pub max_daily_periods: u8,
    pub max_weekly_periods: u8,
}

/// `HashSet::clone`: a set with the same elements.
#[verifier::external_body]
fn clone_subject_set(s: &HashSet<SubjectId>) -> (r: HashSet<SubjectId>)
    ensures
        r@ == s@,
{
    s.clone()
}

impl Clone for Teacher {
    fn clone(&self) -> (r: Teacher)
        ensures
            r.id == self.id,
            r.name@ == self.name@,
            r.qualified_subjects@ == self.qualified_subjects@,
            r.preferences@ == self.preferences@,
            r.max_daily_periods == self.max_daily_periods,
            r.max_weekly_periods == self.max_weekly_periods,
    {
        let mut preferences: Vec<TimeSlotPreference> = Vec::new();
        for i in 0..self.preferences.len()
            invariant
                preferences@ == self.preferences@.take(i as int),
        {
            preferences.push(self.preferences[i]);
            assert(preferences@ =~= self.preferences@.take(i + 1));
        }
        assert(preferences@ =~= self.preferences@);
        Teacher {
            id: self.id,
            name: self.name.clone(),
            qualified_subjects: clone_subject_set(&self.qualified_subjects),
            preferences,
            max_daily_periods: self.max_daily_periods,
            max_weekly_periods: self.max_weekly_periods,
        }
    }
}

/// A stationary cohort, e.g. "Grade 10 - Section A".
#[derive(Debug, Clone)]
pub struct Classroom {
    pub id: ClassroomId,
    pub name: String,
    pub grade_level: u8,
}

/// A day or span of days without lessons.
#[derive(Debug)]
pub enum CalendarEvent {
    NationalHoliday(chrono::NaiveDate),
    EmergencyBreak { start: chrono::NaiveDate, end: chrono::NaiveDate, reason: String },
}

impl Clone for CalendarEvent {
    fn clone(&self) -> (r: CalendarEvent)
        ensures
            match (self, r) {
                (CalendarEvent::NationalHoliday(a), CalendarEvent::NationalHoliday(b)) => a == b,
                (
                    CalendarEvent::EmergencyBreak { start: s1, end: e1, reason: r1 },
                    CalendarEvent::EmergencyBreak { start: s2, end: e2, reason: r2 },
                ) => s1 == s2 && e1 == e2 && r1@ == r2@,
                _ => false,
            },
    {
        match self {
            CalendarEvent::NationalHoliday(d) => CalendarEvent::NationalHoliday(*d),
            CalendarEvent::EmergencyBreak { start, end, reason } => CalendarEvent::EmergencyBreak {
                start: *start,
                end: *end,
                reason: reason.clone(),
            },
        }
    }
}

#[derive(Debug, Clone, Copy, PartialEq, Eq, Structural)]
pub struct TimeSlotPreference {
    pub slot: TimeSlot,
    /// Positive values: preferred; negative values: disliked or unavailable.
    pub preference_score: i8,
}

#[derive(Debug, Clone)]
pub enum HardConstraint {
    /// A teacher cannot teach two classes at the same slot.
    TeacherNoOverlap,
    /// A classroom can only have one teacher at a time.
    ClassroomNoOverlap,
    /// Fixed periods (e.g. Sunday period 1 is always morning assembly).
    FixedSlot { classroom_id: ClassroomId, subject_id: SubjectId, slot: TimeSlot },
    /// A teacher cannot teach more than this many consecutive periods.
    MaxConsecutivePeriods { teacher_id: TeacherId, max_periods: u8 },
}

#[derive(Debug, Clone)]
pub enum SoftConstraint {
    /// Honor teacher preferred and disliked time slots.
    TeacherPreference { teacher_id: TeacherId, weight: u32 },
    /// Minimize free periods in the middle of a teacher's day.
    MinimizeTeacherGaps { teacher_id: TeacherId, weight: u32 },
    /// Spread a subject evenly through the week.
    DistributeSubjectEvenly { classroom_id: ClassroomId, subject_id: SubjectId, weight: u32 },
}

/// One lesson of the timetable: who teaches what to whom, and when.
#[derive(Debug, Clone, Copy, PartialEq, Eq, Structural)]
pub struct ScheduleAssignment {
    pub classroom_id: ClassroomId,
    pub subject_id: SubjectId,
    pub teacher_id: TeacherId,
    pub slot: TimeSlot,
}

#[derive(Debug, Clone)]
pub struct Timetable {
    pub assignments: Vec<ScheduleAssignment>,
}

/// An assignment of this teacher at this slot.
pub open spec fn busy_with(a: ScheduleAssignment, teacher_id: TeacherId, slot: TimeSlot) -> bool {
    a.teacher_id == teacher_id && a.slot == slot
}

/// Index of the first assignment of the teacher at the slot.
pub open spec fn first_busy(assignments: Seq<ScheduleAssignment>, teacher_id: TeacherId, slot: TimeSlot) -> Option<int>
    decreases assignments.len(),
{
    if assignments.len() == 0 {
        None
    } else {
        match first_busy(assignments.drop_last(), teacher_id, slot) {
            Some(i) => Some(i),
            None => if busy_with(assignments.last(), teacher_id, slot) {
                Some(assignments.len() - 1)
            } else {
                None
            },
        }
    }
}

/// `TeacherNoOverlap`: no teacher has two assignments at the same slot.
pub open spec fn teacher_no_overlap(assignments: Seq<ScheduleAssignment>) -> bool {
    forall|i: int, j: int|
        0 <= i < assignments.len() && 0 <= j < assignments.len() && i != j
            && #[trigger] assignments[i].teacher_id == #[trigger] assignments[j].teacher_id ==> assignments[i].slot
            != assignments[j].slot
}

impl Default for Timetable {
    fn default() -> (t: Timetable)
        ensures
            t.assignments@ == Seq::<ScheduleAssignment>::empty(),
    {
        Timetable { assignments: Vec::new() }
    }
}

impl Timetable {
    /// The first assignment of the teacher at the slot, if the teacher is busy then.
    pub fn get_teacher_assignment(&self, teacher_id: TeacherId, slot: TimeSlot) -> (r: Option<&ScheduleAssignment>)
        ensures
            match first_busy(self.assignments@, teacher_id, slot) {
                Some(i) => r == Some(&self.assignments@[i]),
                None => r is None,
            },
    {
        let n = self.assignments.len();
        let mut i: usize = 0;
        while i < n
            invariant
                i <= n == self.assignments@.len(),
                first_busy(self.assignments@.take(i as int), teacher_id, slot) is None,
            decreases n - i,
        {
            let a = &self.assignments[i];
            assert(self.assignments@.take(i + 1).drop_last() =~= self.assignments@.take(i as int));
            if a.teacher_id == teacher_id && a.slot == slot {
                proof {
                    lemma_first_busy_prefix(self.assignments@, teacher_id, slot, i + 1);
                }
                return Some(a);
            }
            i = i + 1;
        }
        assert(self.assignments@.take(n as int) =~= self.assignments@);
        None
    }
}

/// A match found among the first assignments is the match among all of them.
pub proof fn lemma_first_busy_prefix(assignments: Seq<ScheduleAssignment>, teacher_id: TeacherId, slot: TimeSlot, k: int)
    requires
        0 <= k <= assignments.len(),
        first_busy(assignments.take(k), teacher_id, slot) is Some,
    ensures
        first_busy(assignments, teacher_id, slot) == first_busy(assignments.take(k), teacher_id, slot),
    decreases assignments.len() - k,
{
    if k < assignments.len() {
        assert(assignments.take(k + 1).drop_last() =~= assignments.take(k));
        lemma_first_busy_prefix(assignments, teacher_id, slot, k + 1);
    } else {
        assert(assignments.take(k) =~= assignments);
    }
}

pub proof fn lemma_first_busy(assignments: Seq<ScheduleAssignment>, teacher_id: TeacherId, slot: TimeSlot)
    ensures
        match first_busy(assignments, teacher_id, slot) {
            Some(i) => 0 <= i < assignments.len() && busy_with(assignments[i], teacher_id, slot)
                && forall|j: int| 0 <= j < i ==> !busy_with(#[trigger] assignments[j], teacher_id, slot),
            None => forall|j: int| 0 <= j < assignments.len() ==> !busy_with(#[trigger] assignments[j], teacher_id, slot),
        },
    decreases assignments.len(),
{
    if assignments.len() > 0 {
        lemma_first_busy(assignments.drop_last(), teacher_id, slot);
        assert forall|j: int| 0 <= j < assignments.len() - 1 implies assignments[j] == assignments.drop_last()[j] by {}
    }
}

/// The lookup answers whether the teacher is busy: it finds an assignment of
/// the teacher at the slot exactly when the timetable has one.
pub proof fn law_lookup_finds_busy_teacher(assignments: Seq<ScheduleAssignment>, teacher_id: TeacherId, slot: TimeSlot)
    ensures
        (first_busy(assignments, teacher_id, slot) is Some) <==> exists|j: int|
            0 <= j < assignments.len() && busy_with(#[trigger] assignments[j], teacher_id, slot),
        first_busy(assignments, teacher_id, slot) matches Some(i) ==> busy_with(assignments[i], teacher_id, slot),
{
    lemma_first_busy(assignments, teacher_id, slot);
}

/// Under `TeacherNoOverlap`, the assignment that the lookup finds is the only
/// assignment of the teacher at the slot.
pub proof fn law_lookup_unique_without_overlap(
    assignments: Seq<ScheduleAssignment>,
    teacher_id: TeacherId,
    slot: TimeSlot,
    j: int,
)
    requires
        teacher_no_overlap(assignments),
        0 <= j < assignments.len(),
        busy_with(assignments[j], teacher_id, slot),
    ensures
        first_busy(assignments, teacher_id, slot) == Some(j),
{
    lemma_first_busy(assignments, teacher_id, slot);
    let i = first_busy(assignments, teacher_id, slot)->0;
    if i != j {
        assert(assignments[i].teacher_id == assignments[j].teacher_id);
    }
}

} // verus!
