use class_scheduler::excel_import::parse_excel;
use class_scheduler::importer::{ClassroomImport, ImportedData, SubjectImport, TeacherImport};
use std::io::{Cursor, Write};

const MAIN_NS: &str = "http://schemas.openxmlformats.org/spreadsheetml/2006/main";
const REL_NS: &str = "http://schemas.openxmlformats.org/package/2006/relationships";
const DOC_REL: &str = "http://schemas.openxmlformats.org/officeDocument/2006/relationships";

fn cell(r: &str, v: &str) -> String {
    match v.parse::<f64>() {
        Ok(_) => format!("<c r=\"{}\"><v>{}</v></c>", r, v),
        Err(_) => format!("<c r=\"{}\" t=\"inlineStr\"><is><t>{}</t></is></c>", r, v),
    }
}

fn sheet_xml(rows: &[&[&str]]) -> String {
    let mut body = String::new();
    for (i, row) in rows.iter().enumerate() {
        body.push_str(&format!("<row r=\"{}\">", i + 1));
        for (j, v) in row.iter().enumerate() {
            let col = (b'A' + j as u8) as char;
            body.push_str(&cell(&format!("{}{}", col, i + 1), v));
        }
        body.push_str("</row>");
    }
    format!("<?xml version=\"1.0\" encoding=\"UTF-8\"?><worksheet xmlns=\"{}\"><sheetData>{}</sheetData></worksheet>", MAIN_NS, body)
}

fn workbook_bytes(sheets: &[(&str, &[&[&str]])]) -> Vec<u8> {
    let mut zip = zip::ZipWriter::new(Cursor::new(Vec::new()));
    let opts = zip::write::SimpleFileOptions::default().compression_method(zip::CompressionMethod::Stored);
    zip.start_file("_rels/.rels", opts).unwrap();
    zip.write_all(format!("<?xml version=\"1.0\" encoding=\"UTF-8\"?><Relationships xmlns=\"{}\"><Relationship Id=\"rId1\" Type=\"{}/officeDocument\" Target=\"xl/workbook.xml\"/></Relationships>", REL_NS, DOC_REL).as_bytes()).unwrap();
    let mut wb = String::new();
    let mut rels = String::new();
    for (i, (name, _)) in sheets.iter().enumerate() {
        wb.push_str(&format!("<sheet name=\"{}\" sheetId=\"{}\" r:id=\"rId{}\"/>", name, i + 1, i + 1));
        rels.push_str(&format!("<Relationship Id=\"rId{}\" Type=\"{}/worksheet\" Target=\"worksheets/sheet{}.xml\"/>", i + 1, DOC_REL, i + 1));
    }
    zip.start_file("xl/workbook.xml", opts).unwrap();
    zip.write_all(format!("<?xml version=\"1.0\" encoding=\"UTF-8\"?><workbook xmlns=\"{}\" xmlns:r=\"{}\"><sheets>{}</sheets></workbook>", MAIN_NS, DOC_REL, wb).as_bytes()).unwrap();
    zip.start_file("xl/_rels/workbook.xml.rels", opts).unwrap();
    zip.write_all(format!("<?xml version=\"1.0\" encoding=\"UTF-8\"?><Relationships xmlns=\"{}\">{}</Relationships>", REL_NS, rels).as_bytes()).unwrap();
    for (i, (_, rows)) in sheets.iter().enumerate() {
        zip.start_file(format!("xl/worksheets/sheet{}.xml", i + 1), opts).unwrap();
        zip.write_all(sheet_xml(rows).as_bytes()).unwrap();
    }
    zip.finish().unwrap().into_inner()
}

#[test]
fn reads_an_xlsx_file() {
    let bytes = workbook_bytes(&[
        ("teachers", &[&["Name", "Max Daily Periods", "Max Weekly Periods", "Qualified Subjects"], &["Alice", "5", "20.9", "Math, Art"]]),
        ("Classrooms", &[&["Name", "Grade Level"], &["10A", "10"]]),
        ("Subjects", &[&["Name", "Base Periods Per Week"], &["Math", "6"]]),
    ]);
    let got = parse_excel(&bytes).unwrap();
    assert_eq!(
        got,
        ImportedData::Excel {
            teachers: vec![TeacherImport {
                name: "Alice".to_string(),
                max_daily_periods: 5,
                max_weekly_periods: 20,
                qualified_subjects: vec!["Math".to_string(), "Art".to_string()],
            }],
            classrooms: vec![ClassroomImport { name: "10A".to_string(), grade_level: 10 }],
            subjects: vec![SubjectImport { name: "Math".to_string(), base_periods_per_week: 6 }],
            progress: vec![],
        }
    );
}
