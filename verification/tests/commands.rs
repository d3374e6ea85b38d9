use equation_exporter::commands::OutputFormat;

#[test]
fn output_format_selects_the_requested_filename() {
    assert_eq!(OutputFormat::Pdf.filename(), "equation.pdf");
    assert_eq!(OutputFormat::Svg.filename(), "equation.svg");
}
