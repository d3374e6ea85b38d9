# Equation Exporter

Renders LaTeX or Typst formulas to PDF or SVG, saves or copies the result, and
wraps Office Math (OMML) formulas into a minimal DOCX package for WPS Office and
Word.

- `src/` is the verified library (Verus). It holds the rendering plans and the
  decisions taken after each step (`render`, `app::latex`, `app::typst`,
  `commands`), the user-facing errors (`error`), the OMML rules (`xml_rules`,
  `omml_scan`, `omml_laws`), the quick-xml reading of a fragment (`xml_source`),
  the DOCX package (`wps_office`), the clipboard payloads (`linux_clipboard`,
  `export`) and the start of the frontend's development server (`dev_server`).
- `app/` is the program around it: the egui window, the Tauri commands, the
  file system, processes, temporary directories, clipboards, and the actions
  that the development server's start decides on.
- `tests/` runs the library.
