use class_scheduler::model::{
    CalendarEvent, ClassroomId, DayOfWeek, ScheduleAssignment, SubjectId, Teacher, TeacherId, TimeSlot, Timetable,
};
use std::collections::HashSet;

fn slot(day: DayOfWeek, period: u8) -> TimeSlot {
    TimeSlot { day, period }
}

fn lesson(teacher: u32, classroom: u32, s: TimeSlot) -> ScheduleAssignment {
    ScheduleAssignment { classroom_id: ClassroomId(classroom), subject_id: SubjectId(1), teacher_id: TeacherId(teacher), slot: s }
}

#[test]
fn finds_the_assignment_of_a_busy_teacher() {
    let t = Timetable {
        assignments: vec![
            lesson(1, 10, slot(DayOfWeek::Sunday, 1)),
            lesson(2, 11, slot(DayOfWeek::Sunday, 1)),
            lesson(1, 12, slot(DayOfWeek::Monday, 2)),
            lesson(1, 13, slot(DayOfWeek::Monday, 2)),
        ],
    };
    assert_eq!(t.get_teacher_assignment(TeacherId(2), slot(DayOfWeek::Sunday, 1)), Some(&t.assignments[1]));
    assert_eq!(t.get_teacher_assignment(TeacherId(1), slot(DayOfWeek::Monday, 2)).unwrap().classroom_id, ClassroomId(12));
    assert_eq!(t.get_teacher_assignment(TeacherId(2), slot(DayOfWeek::Monday, 2)), None);
    assert_eq!(t.get_teacher_assignment(TeacherId(1), slot(DayOfWeek::Thursday, 1)), None);
}

#[test]
fn empty_timetable_has_no_assignments() {
    let t = Timetable::default();
    assert!(t.assignments.is_empty());
    assert_eq!(t.get_teacher_assignment(TeacherId(1), slot(DayOfWeek::Sunday, 1)), None);
}

#[test]
fn clones_keep_their_contents() {
    let mut quals = HashSet::new();
    quals.insert(SubjectId(3));
    let t = Teacher {
        id: TeacherId(9),
        name: "Alice".to_string(),
        qualified_subjects: quals,
        preferences: vec![],
        max_daily_periods: 5,
        max_weekly_periods: 20,
    };
    let c = t.clone();
    assert_eq!(c.qualified_subjects, t.qualified_subjects);
    assert_eq!(c.name, "Alice");
    let d = chrono::NaiveDate::from_ymd_opt(2024, 9, 1).unwrap();
    match (CalendarEvent::NationalHoliday(d)).clone() {
        CalendarEvent::NationalHoliday(e) => assert_eq!(e, d),
        _ => panic!("variant changed"),
    }
}
