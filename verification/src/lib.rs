//! Equation Exporter's library: render plans for LaTeX and Typst formulas and
//! the errors they report, the validation of Office Math (OMML) fragments and
//! the DOCX package that carries one, and the clipboard payloads of copied
//! files.
pub mod app;
pub mod commands;
pub mod dev_server;
pub mod error;
pub mod export;
pub mod linux_clipboard;
pub mod omml_laws;
pub mod omml_scan;
pub mod render;
pub mod wps_office;
pub mod xml_rules;
pub mod xml_source;
