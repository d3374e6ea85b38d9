use equation_exporter::app::{Backend, MyApp, Output, EDITOR_PANEL_RESIZABLE};

#[test]
fn defaults_to_latex_pdf_and_an_empty_formula() {
    let app = MyApp::default();

    assert_eq!(app.backend, Backend::Latex);
    assert_eq!(app.output, Output::Pdf);
    assert!(app.source.is_empty());
}

#[test]
fn exposes_both_backend_and_output_options() {
    assert_eq!(Backend::Latex.label(), "LaTeX");
    assert_eq!(Backend::Typst.label(), "Typst");
    assert_eq!(Output::Pdf.label(), "PDF");
    assert_eq!(Output::Svg.label(), "SVG");
}

#[test]
fn allows_resizing_the_editor_and_preview_split() {
    assert!(EDITOR_PANEL_RESIZABLE);
}

#[test]
fn backend_and_output_defaults_match_the_editor_defaults() {
    assert_eq!(Backend::default(), Backend::Latex);
    assert_eq!(Output::default(), Output::Pdf);
}
