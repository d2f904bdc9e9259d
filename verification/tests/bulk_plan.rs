use class_scheduler::importer::{AcademicProgressImport, ClassroomImport, ImportedData, SubjectImport, TeacherImport};
use class_scheduler::plan::{plan_bulk_import, BulkImport, DbAction, DbCommand, NameTable, Reply};

fn teacher(name: &str, quals: &[&str]) -> TeacherImport {
    TeacherImport {
        name: name.to_string(),
        max_daily_periods: 5,
        max_weekly_periods: 20,
        qualified_subjects: quals.iter().map(|q| q.to_string()).collect(),
    }
}

fn progress(c: &str, s: &str) -> AcademicProgressImport {
    AcademicProgressImport {
        classroom_name: c.to_string(),
        subject_name: s.to_string(),
        current_progress_ratio: "0.5".to_string(),
        expected_progress_ratio: "0.75".to_string(),
    }
}

#[test]
fn name_table_keeps_the_latest_step() {
    let mut t = NameTable::new();
    t.insert("Math".to_string(), 0);
    t.insert("Art".to_string(), 1);
    t.insert("Math".to_string(), 4);
    assert_eq!(t.get(&"Math".to_string()), Some(4));
    assert_eq!(t.get(&"Art".to_string()), Some(1));
    assert_eq!(t.get(&"PE".to_string()), None);
}

#[test]
fn workbook_plan_reuses_known_names() {
    let data = ImportedData::Excel {
        teachers: vec![teacher("Alice", &["Math", "Physics"])],
        classrooms: vec![ClassroomImport { name: "10A".to_string(), grade_level: 10 }],
        subjects: vec![SubjectImport { name: "Math".to_string(), base_periods_per_week: 6 }],
        progress: vec![progress("10A", "Physics"), progress("11B", "Math")],
    };
    let plan = plan_bulk_import(&data);
    assert_eq!(
        plan,
        vec![
            DbCommand::UpsertSubject { name: "Math".to_string(), base_periods_per_week: 6 },
            DbCommand::UpsertClassroom { name: "10A".to_string(), grade_level: 10 },
            DbCommand::FindTeacher { name: "Alice".to_string() },
            DbCommand::SaveTeacher { lookup: 2, name: "Alice".to_string(), max_daily_periods: 5, max_weekly_periods: 20 },
            DbCommand::Qualify { teacher: 3, subject: 0 },
            DbCommand::EnsureSubject { name: "Physics".to_string(), base_periods_per_week: 5 },
            DbCommand::Qualify { teacher: 3, subject: 5 },
            DbCommand::UpsertProgress {
                classroom: 1,
                subject: 5,
                current_progress_ratio: "0.5".to_string(),
                expected_progress_ratio: "0.75".to_string(),
            },
            DbCommand::EnsureClassroom { name: "11B".to_string(), grade_level: 10 },
            DbCommand::UpsertProgress {
                classroom: 8,
                subject: 0,
                current_progress_ratio: "0.5".to_string(),
                expected_progress_ratio: "0.75".to_string(),
            },
        ]
    );
}

#[test]
fn single_entity_plans_do_not_reuse_names() {
    let plan = plan_bulk_import(&ImportedData::Teachers(vec![teacher("Bob", &["Art", "Art"])]));
    assert_eq!(
        plan,
        vec![
            DbCommand::FindTeacher { name: "Bob".to_string() },
            DbCommand::SaveTeacher { lookup: 0, name: "Bob".to_string(), max_daily_periods: 5, max_weekly_periods: 20 },
            DbCommand::EnsureSubject { name: "Art".to_string(), base_periods_per_week: 5 },
            DbCommand::Qualify { teacher: 1, subject: 2 },
            DbCommand::EnsureSubject { name: "Art".to_string(), base_periods_per_week: 5 },
            DbCommand::Qualify { teacher: 1, subject: 4 },
        ]
    );
    let plan = plan_bulk_import(&ImportedData::Progress(vec![progress("10A", "Math")]));
    assert_eq!(plan.len(), 3);
    assert_eq!(plan[0], DbCommand::EnsureClassroom { name: "10A".to_string(), grade_level: 10 });
    let plan = plan_bulk_import(&ImportedData::Subjects(vec![
        SubjectImport { name: "Math".to_string(), base_periods_per_week: 6 },
        SubjectImport { name: "Math".to_string(), base_periods_per_week: 7 },
    ]));
    assert_eq!(plan.len(), 2);
    let plan = plan_bulk_import(&ImportedData::Classrooms(vec![]));
    assert!(plan.is_empty());
}

#[test]
fn a_run_uses_the_returned_ids() {
    let data = ImportedData::Teachers(vec![teacher("Bob", &["Art"]), teacher("Eve", &[])]);
    let mut run = BulkImport::new(&data);
    assert_eq!(run.step_count(), 6);
    assert_eq!(run.next_action(), DbAction::FindTeacher { name: "Bob".to_string() });
    run.record(Reply::Found(Some(41)));
    assert_eq!(
        run.next_action(),
        DbAction::UpdateTeacher { id: 41, max_daily_periods: 5, max_weekly_periods: 20 }
    );
    run.record(Reply::Id(41));
    assert_eq!(run.next_action(), DbAction::EnsureSubject { name: "Art".to_string(), base_periods_per_week: 5 });
    run.record(Reply::Id(7));
    assert_eq!(run.next_action(), DbAction::Qualify { teacher_id: 41, subject_id: 7 });
    run.record(Reply::Done);
    assert_eq!(run.next_action(), DbAction::FindTeacher { name: "Eve".to_string() });
    run.record(Reply::Found(None));
    assert_eq!(
        run.next_action(),
        DbAction::InsertTeacher { name: "Eve".to_string(), max_daily_periods: 5, max_weekly_periods: 20 }
    );
    run.record(Reply::Id(42));
    assert_eq!(run.next_action(), DbAction::Finished);
}

#[test]
fn a_wrong_reply_leaves_the_step_unanswered() {
    let data = ImportedData::Teachers(vec![teacher("Bob", &["Art"])]);
    let mut run = BulkImport::new(&data);
    run.record(Reply::Done);
    assert_eq!(run.next_action(), DbAction::Unanswered);
}

#[test]
fn every_listed_qualification_is_linked() {
    let data = ImportedData::Excel {
        teachers: vec![teacher("A", &["Math", "Art"]), teacher("B", &["Art", "PE"])],
        classrooms: vec![],
        subjects: vec![],
        progress: vec![],
    };
    let plan = plan_bulk_import(&data);
    let mut pairs = vec![];
    for c in &plan {
        if let DbCommand::Qualify { teacher, subject } = c {
            let t = match &plan[*teacher] {
                DbCommand::SaveTeacher { name, .. } => name.clone(),
                _ => panic!("not a teacher save"),
            };
            let s = match &plan[*subject] {
                DbCommand::UpsertSubject { name, .. } | DbCommand::EnsureSubject { name, .. } => name.clone(),
                _ => panic!("not a subject write"),
            };
            pairs.push((t, s));
        }
    }
    let want: Vec<(String, String)> = [("A", "Math"), ("A", "Art"), ("B", "Art"), ("B", "PE")]
        .iter()
        .map(|(a, b)| (a.to_string(), b.to_string()))
        .collect();
    assert_eq!(pairs, want);
    let ensures = plan.iter().filter(|c| matches!(c, DbCommand::EnsureSubject { .. })).count();
    assert_eq!(ensures, 3);
}
