use class_scheduler::excel_import::{
    cell_to_string, find_header, get_float_val, get_int_val, get_sheet_range, get_string_val, import_workbook,
    is_blank_row, parse_excel, parse_progress_sheet, parse_teachers_sheet, Sheet,
};
use class_scheduler::importer::{
    AcademicProgressImport, Cell, ClassroomImport, ImportError, ImportedData, SubjectImport, TeacherImport,
};

fn s(v: &str) -> Cell {
    Cell::String(v.to_string())
}

fn sheet(name: &str, rows: Vec<Vec<Cell>>) -> Sheet {
    Sheet { name: name.to_string(), rows: Some(rows) }
}

#[test]
fn cells_display_as_calamine_does() {
    assert_eq!(cell_to_string(&Cell::Int(-12)), "-12");
    assert_eq!(cell_to_string(&Cell::Bool(true)), "true");
    assert_eq!(cell_to_string(&Cell::Float("2.5".to_string())), "2.5");
    assert_eq!(cell_to_string(&Cell::Empty), "");
    assert_eq!(cell_to_string(&Cell::Error("#DIV/0!".to_string())), "#DIV/0!");
}

#[test]
fn string_values() {
    assert_eq!(get_string_val(&s("Math")), Ok("Math".to_string()));
    assert_eq!(get_string_val(&Cell::Int(7)), Ok("7".to_string()));
    assert_eq!(get_string_val(&Cell::Bool(false)), Ok("false".to_string()));
    assert_eq!(get_string_val(&Cell::Empty), Err(ImportError::NotText(Cell::Empty)));
    let d = Cell::DateTime("2024-01-01".to_string());
    assert_eq!(get_string_val(&d), Err(ImportError::NotText(d.clone())));
}

#[test]
fn integer_values() {
    assert_eq!(get_int_val(&Cell::Int(5)), Ok(5));
    assert_eq!(get_int_val(&Cell::Int(4294967301)), Ok(4294967301i64 as i32));
    assert_eq!(get_int_val(&Cell::Float("4.9".to_string())), Ok(4));
    assert_eq!(get_int_val(&Cell::Float("-1e300".to_string())), Ok(0));
    assert_eq!(get_int_val(&Cell::Float("NaN".to_string())), Ok(0));
    assert_eq!(get_int_val(&Cell::Float("inf".to_string())), Ok(i32::MAX));
    assert_eq!(get_int_val(&s("12")), Ok(12));
    assert_eq!(get_int_val(&s(" 12")), Err(ImportError::BadInteger(" 12".to_string())));
    assert_eq!(get_int_val(&Cell::Bool(true)), Ok(1));
    assert_eq!(get_int_val(&Cell::Empty), Err(ImportError::NotInteger(Cell::Empty)));
}

#[test]
fn number_values() {
    assert_eq!(get_float_val(&Cell::Float("0.75".to_string())), Ok("0.75".to_string()));
    assert_eq!(get_float_val(&Cell::Int(1)), Ok("1".to_string()));
    assert_eq!(get_float_val(&s("5e-1")), Ok("5e-1".to_string()));
    assert_eq!(get_float_val(&s("half")), Err(ImportError::BadNumber("half".to_string())));
    assert_eq!(get_float_val(&Cell::Bool(true)), Err(ImportError::NotNumber(Cell::Bool(true))));
}

#[test]
fn header_cells_are_normalized() {
    let headers = vec![Cell::Int(1), s(" Qualified Subjects "), s("NAME")];
    assert_eq!(find_header(&headers, &["name"]), Ok(2));
    assert_eq!(find_header(&headers, &["subjects", "qualified_subjects"]), Ok(1));
    assert_eq!(find_header(&headers, &["1"]), Ok(0));
    assert_eq!(find_header(&headers, &["grade"]), Err(ImportError::MissingColumn(vec!["grade".to_string()])));
}

#[test]
fn sheets_are_found_ignoring_case() {
    let sheets = vec![sheet("Other", vec![]), sheet("TEACHERS", vec![vec![s("x")]]), sheet("teachers", vec![])];
    let rows = get_sheet_range(&sheets, "Teachers").unwrap();
    assert_eq!(rows.len(), 1);
    assert!(get_sheet_range(&sheets, "Subjects").is_none());
    let broken = vec![Sheet { name: "Teachers".to_string(), rows: None }];
    assert!(get_sheet_range(&broken, "teachers").is_none());
}

#[test]
fn blank_rows() {
    assert!(is_blank_row(&vec![]));
    assert!(is_blank_row(&vec![Cell::Empty, Cell::Empty]));
    assert!(!is_blank_row(&vec![Cell::Empty, s("")]));
}

fn workbook() -> Vec<Sheet> {
    vec![
        sheet("Teachers", vec![
            vec![s("Name"), s("Max Daily"), s("Weekly Periods"), s("Subjects")],
            vec![s("Alice"), Cell::Int(5), Cell::Float("20".to_string()), s("Math, Physics")],
            vec![Cell::Empty, Cell::Empty, Cell::Empty, Cell::Empty],
            vec![s("Bob"), s("4"), Cell::Bool(true), Cell::Empty],
        ]),
        sheet("classrooms", vec![vec![s("Class"), s("Grade")], vec![s("10A"), Cell::Int(10)]]),
        sheet("Subjects", vec![vec![s("Subject"), s("Periods")], vec![s("Math"), Cell::Float("6".to_string())]]),
        sheet("Academic Progress", vec![
            vec![s("Classroom"), s("Subject"), s("Current"), s("Expected")],
            vec![s("10A"), s("Math"), Cell::Float("0.5".to_string()), Cell::Int(1)],
        ]),
    ]
}

#[test]
fn reads_a_workbook() {
    let got = import_workbook(&workbook()).unwrap();
    assert_eq!(
        got,
        ImportedData::Excel {
            teachers: vec![
                TeacherImport {
                    name: "Alice".to_string(),
                    max_daily_periods: 5,
                    max_weekly_periods: 20,
                    qualified_subjects: vec!["Math".to_string(), "Physics".to_string()],
                },
                TeacherImport {
                    name: "Bob".to_string(),
                    max_daily_periods: 4,
                    max_weekly_periods: 1,
                    qualified_subjects: vec![],
                },
            ],
            classrooms: vec![ClassroomImport { name: "10A".to_string(), grade_level: 10 }],
            subjects: vec![SubjectImport { name: "Math".to_string(), base_periods_per_week: 6 }],
            progress: vec![AcademicProgressImport {
                classroom_name: "10A".to_string(),
                subject_name: "Math".to_string(),
                current_progress_ratio: "0.5".to_string(),
                expected_progress_ratio: "1".to_string(),
            }],
        }
    );
}

#[test]
fn missing_sheets_give_no_rows() {
    assert_eq!(
        import_workbook(&[]).unwrap(),
        ImportedData::Excel { teachers: vec![], classrooms: vec![], subjects: vec![], progress: vec![] }
    );
    assert_eq!(parse_teachers_sheet(&[sheet("Teachers", vec![])]).unwrap(), vec![]);
}

#[test]
fn progress_sheet_names_are_tried_in_order() {
    let sheets = vec![
        sheet("AcademicProgress", vec![vec![s("class"), s("subject"), s("progress"), s("expected_progress")],
            vec![s("A"), s("B"), Cell::Int(0), Cell::Int(1)]]),
        Sheet { name: "Progress".to_string(), rows: None },
    ];
    assert_eq!(parse_progress_sheet(&sheets).unwrap().len(), 1);
}

#[test]
fn the_first_bad_cell_fails_the_workbook() {
    let mut wb = workbook();
    wb[0] = sheet("Teachers", vec![
        vec![s("Name"), s("Max Daily"), s("Weekly Periods"), s("Subjects")],
        vec![s("Alice"), s("five"), Cell::Empty, s("Math")],
    ]);
    assert_eq!(import_workbook(&wb), Err(ImportError::BadInteger("five".to_string())));
    let mut wb = workbook();
    wb[1] = sheet("Classrooms", vec![vec![s("Name"), s("Level")], vec![Cell::Empty, Cell::Int(3)]]);
    assert_eq!(import_workbook(&wb), Err(ImportError::NotText(Cell::Empty)));
    let mut wb = workbook();
    wb[2] = sheet("Subjects", vec![vec![s("Name")], vec![s("Math")]]);
    assert_eq!(
        import_workbook(&wb),
        Err(ImportError::MissingColumn(
            ["base_periods_per_week", "periods_per_week", "base_periods", "periods"].iter().map(|a| a.to_string()).collect()
        ))
    );
}

#[test]
fn non_workbook_bytes_are_refused() {
    assert_eq!(parse_excel(b"not a workbook"), Err(ImportError::WorkbookOpen));
}
