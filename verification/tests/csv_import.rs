use class_scheduler::csv_import::{find_header_csv, import_csv_table, parse_csv};
use class_scheduler::importer::{
    AcademicProgressImport, ClassroomImport, ImportError, ImportedData, SubjectImport, TeacherImport,
};

fn strings(v: &[&str]) -> Vec<String> {
    v.iter().map(|s| s.to_string()).collect()
}

#[test]
fn finds_first_matching_header() {
    let headers = strings(&["id", "class", "name", "classroom"]);
    assert_eq!(find_header_csv(&headers, &["name", "classroom", "class"]), Ok(1));
    assert_eq!(find_header_csv(&headers, &["classroom"]), Ok(3));
    assert_eq!(
        find_header_csv(&headers, &["grade", "level"]),
        Err(ImportError::MissingColumn(strings(&["grade", "level"])))
    );
}

#[test]
fn reads_teachers_csv() {
    let data = b"Name, Max Daily Periods ,max-weekly-periods,Qualified Subjects\n Alice ,5,20,\"Math, Physics\"\nBob,x,18,\n";
    let got = parse_csv(data).unwrap();
    assert_eq!(
        got,
        ImportedData::Teachers(vec![
            TeacherImport {
                name: "Alice".to_string(),
                max_daily_periods: 5,
                max_weekly_periods: 20,
                qualified_subjects: strings(&["Math", "Physics"]),
            },
            TeacherImport {
                name: "Bob".to_string(),
                max_daily_periods: 0,
                max_weekly_periods: 18,
                qualified_subjects: vec![],
            },
        ])
    );
}

#[test]
fn reads_classrooms_csv() {
    let data = b"class,grade\nGrade 10 - A,10\nGrade 11 - B, 11\n";
    let got = parse_csv(data).unwrap();
    assert_eq!(
        got,
        ImportedData::Classrooms(vec![
            ClassroomImport { name: "Grade 10 - A".to_string(), grade_level: 10 },
            ClassroomImport { name: "Grade 11 - B".to_string(), grade_level: 0 },
        ])
    );
}

#[test]
fn reads_subjects_csv() {
    let data = b"subject,periods_per_week\nMath,6\n";
    assert_eq!(
        parse_csv(data).unwrap(),
        ImportedData::Subjects(vec![SubjectImport { name: "Math".to_string(), base_periods_per_week: 6 }])
    );
}

#[test]
fn reads_progress_csv() {
    let data = b"classroom_name,subject,current_progress,expected\n10A,Math,0.5,0.75\n10B,Art,abc,1e-1\n";
    assert_eq!(
        parse_csv(data).unwrap(),
        ImportedData::Progress(vec![
            AcademicProgressImport {
                classroom_name: "10A".to_string(),
                subject_name: "Math".to_string(),
                current_progress_ratio: "0.5".to_string(),
                expected_progress_ratio: "0.75".to_string(),
            },
            AcademicProgressImport {
                classroom_name: "10B".to_string(),
                subject_name: "Art".to_string(),
                current_progress_ratio: "0".to_string(),
                expected_progress_ratio: "1e-1".to_string(),
            },
        ])
    );
}

#[test]
fn teacher_markers_take_precedence() {
    let data = b"name,class,max_daily\nA,B,3\n";
    match parse_csv(data) {
        Err(ImportError::MissingColumn(aliases)) => assert_eq!(aliases, strings(&["grade_level", "grade", "level"])),
        other => panic!("unexpected {:?}", other),
    }
    let data = b"name,class,max_daily_periods\nA,B,3\n";
    match parse_csv(data) {
        Err(ImportError::MissingColumn(aliases)) => {
            assert_eq!(aliases, strings(&["max_weekly_periods", "weekly_periods", "max_weekly"]))
        },
        other => panic!("unexpected {:?}", other),
    }
    let data = b"qualified_subjects,max_weekly,max_daily,name\nM,4,2,T\n";
    match parse_csv(data).unwrap() {
        ImportedData::Teachers(ts) => assert_eq!(ts.len(), 1),
        other => panic!("unexpected {:?}", other),
    }
}

#[test]
fn unknown_layout_reports_headers() {
    let data = b"foo,Bar\n1,2\n";
    assert_eq!(parse_csv(data), Err(ImportError::UnknownCsvLayout(strings(&["foo", "Bar"]))));
    assert_eq!(parse_csv(b""), Err(ImportError::UnknownCsvLayout(vec![])));
}

#[test]
fn bad_records_fail_the_import() {
    let data = b"name,grade_level\nA,1\nB,2,3\n";
    assert_eq!(parse_csv(data), Err(ImportError::CsvRecord));
    let data = b"name,grade_level\nA,\xff\n";
    assert_eq!(parse_csv(data), Err(ImportError::CsvRecord));
}

#[test]
fn unreadable_headers_fail_the_import() {
    assert_eq!(parse_csv(b"na\xffme,grade\n"), Err(ImportError::CsvHeaders));
}

#[test]
fn table_import_uses_given_fields() {
    let headers = Some(strings(&["Subject", "Base Periods"]));
    let records = Some(vec![strings(&["Math"]), strings(&[" Art ", "3"])]);
    assert_eq!(
        import_csv_table(headers, records).unwrap(),
        ImportedData::Subjects(vec![
            SubjectImport { name: "Math".to_string(), base_periods_per_week: 0 },
            SubjectImport { name: "Art".to_string(), base_periods_per_week: 3 },
        ])
    );
    assert_eq!(import_csv_table(None, None), Err(ImportError::CsvHeaders));
    assert_eq!(import_csv_table(Some(strings(&["name", "grade"])), None), Err(ImportError::CsvRecord));
    assert_eq!(import_csv_table(Some(strings(&["name", "level_x"])), None), Err(ImportError::UnknownCsvLayout(strings(&["name", "level_x"]))));
    assert_eq!(import_csv_table(Some(strings(&["name", "grade_level"])), None), Err(ImportError::CsvRecord));
}

#[test]
fn every_record_becomes_one_row() {
    let data = b"name,grade_level\na,1\nb,2\nc,3\n";
    match parse_csv(data).unwrap() {
        ImportedData::Classrooms(cs) => assert_eq!(cs.len(), 3),
        other => panic!("unexpected {:?}", other),
    }
}

#[test]
fn progress_file_with_classroom_column_is_progress() {
    let data = b"Classroom,Subject,Current Progress,Expected Progress\n10-A,Math,0.5,0.75\n";
    assert_eq!(
        parse_csv(data).unwrap(),
        ImportedData::Progress(vec![AcademicProgressImport {
            classroom_name: "10-A".to_string(),
            subject_name: "Math".to_string(),
            current_progress_ratio: "0.5".to_string(),
            expected_progress_ratio: "0.75".to_string(),
        }])
    );
}

#[test]
fn teachers_file_with_alias_columns_only() {
    let data = b"name,daily_periods,weekly_periods,subjects\nAnn,4,18,Math\n";
    assert_eq!(
        parse_csv(data).unwrap(),
        ImportedData::Teachers(vec![TeacherImport {
            name: "Ann".to_string(),
            max_daily_periods: 4,
            max_weekly_periods: 18,
            qualified_subjects: strings(&["Math"]),
        }])
    );
}

#[test]
fn marked_complete_layout_wins_over_unmarked_one() {
    let data = b"name,daily_periods,weekly_periods,subjects,class,grade_level\nX,1,2,M,9\n";
    match parse_csv(data) {
        Err(ImportError::CsvRecord) => {},
        other => panic!("unexpected {:?}", other),
    }
    let data = b"name,daily_periods,weekly_periods,subjects,class,grade_level\nX,1,2,M,C,9\n";
    assert_eq!(
        parse_csv(data).unwrap(),
        ImportedData::Classrooms(vec![ClassroomImport { name: "X".to_string(), grade_level: 9 }])
    );
}
