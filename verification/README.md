# class_scheduler

A library for a school timetabling tool built around stationary classrooms
(teachers move between cohorts; the week runs Sunday to Thursday), written in
Verus and verified.

- `src/model.rs`: identifiers, time slots, teachers, classrooms, subjects,
  hard and soft constraints, and the timetable with its teacher lookup.
- `src/text.rs`: trimming, header normalization, comma separated name lists,
  `i32` parsing, `f64` syntax and the decimal text of numbers.
- `src/importer.rs`: the rows an import yields and the errors it reports.
- `src/csv_import.rs`: one entity table from a CSV file, recognized by its headers.
- `src/excel_import.rs`: the `Teachers`, `Classrooms`, `Subjects` and
  `Progress` sheets of an `.xlsx` workbook.
- `src/plan.rs`: the database steps that store an import, and the state
  machine that turns them into actions with the ids the database returned.
- `app/`: the command-line tool: it reads the file, calls the library, and
  runs the storage plan against PostgreSQL in one transaction.
