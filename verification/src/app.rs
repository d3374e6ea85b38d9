//! The editor's choices: backend, default output format and formula source.
pub mod backend;
pub mod latex;
pub mod typst;

use vstd::prelude::*;

verus! {

/// The editor and preview panels can be resized against each other.
pub const EDITOR_PANEL_RESIZABLE: bool = true;

/// The backend chosen in the editor.
#[derive(Clone, Copy, Debug, PartialEq, Eq, Structural)]
pub enum Backend {
    Latex,
    Typst,
}

impl Backend {
    pub open spec fn spec_label(self) -> Seq<char> {
        match self {
            Backend::Latex => "LaTeX"@,
            Backend::Typst => "Typst"@,
        }
    }

    /// The name shown in the backend selector.
    pub fn label(self) -> (label: &'static str)
        ensures
            label@ == self.spec_label(),
    {
        match self {
            Backend::Latex => "LaTeX",
            Backend::Typst => "Typst",
        }
    }
}

impl Default for Backend {
    fn default() -> (backend: Self)
        ensures
            backend == Backend::Latex,
    {
        Backend::Latex
    }
}

/// The default output format chosen in the editor.
#[derive(Clone, Copy, Debug, PartialEq, Eq, Structural)]
pub enum Output {
    Pdf,
    Svg,
}

impl Output {
    pub open spec fn spec_label(self) -> Seq<char> {
        match self {
            Output::Pdf => "PDF"@,
            Output::Svg => "SVG"@,
        }
    }

    /// The name shown in the format selector.
    pub fn label(self) -> (label: &'static str)
        ensures
            label@ == self.spec_label(),
    {
        match self {
            Output::Pdf => "PDF",
            Output::Svg => "SVG",
        }
    }
}

impl Default for Output {
    fn default() -> (output: Self)
        ensures
            output == Output::Pdf,
    {
        Output::Pdf
    }
}

/// The state of the editor window.
pub struct MyApp {
    pub backend: Backend,
    pub output: Output,
    pub source: String,
}

impl Default for MyApp {
    /// LaTeX, PDF and an empty formula.
    fn default() -> (app: Self)
        ensures
            app.backend == Backend::Latex,
            app.output == Output::Pdf,
            app.source@ == Seq::<char>::empty(),
    {
        MyApp { backend: Backend::Latex, output: Output::Pdf, source: String::new() }
    }
}

/// Law: the selectors show "LaTeX" and "Typst" for the backends and "PDF" and
/// "SVG" for the formats, each name once.
pub proof fn law_labels()
    ensures
        Backend::Latex.spec_label() == "LaTeX"@,
        Backend::Typst.spec_label() == "Typst"@,
        Output::Pdf.spec_label() == "PDF"@,
        Output::Svg.spec_label() == "SVG"@,
        Backend::Latex.spec_label() != Backend::Typst.spec_label(),
        Output::Pdf.spec_label() != Output::Svg.spec_label(),
{
    reveal_strlit("LaTeX");
    reveal_strlit("Typst");
    reveal_strlit("PDF");
    reveal_strlit("SVG");
    assert(Backend::Latex.spec_label()[0] != Backend::Typst.spec_label()[0]);
    assert(Output::Pdf.spec_label()[0] != Output::Svg.spec_label()[0]);
}

} // verus!
