//! Ingestion and data-model library for a school timetabling tool.
pub mod text;
pub mod importer;
pub mod csv_import;
pub mod excel_import;
pub mod model;
pub mod plan;
