//! Export requests: the output format and the rendering plan of a backend.
pub use crate::app::backend::Backend;

use vstd::prelude::*;
use crate::app::latex::{latex_plan, render_latex_plan};
use crate::app::typst::{render_typst_plan, typst_plan};
use crate::render::{plan_view, RenderStep, RenderStepView};

verus! {

/// The file format that an export produces.
#[derive(Clone, Copy, Debug, PartialEq, Eq, Structural)]
pub enum OutputFormat {
    Pdf,
    Svg,
}

impl OutputFormat {
    pub open spec fn spec_filename(self) -> Seq<char> {
        match self {
            OutputFormat::Pdf => "equation.pdf"@,
            OutputFormat::Svg => "equation.svg"@,
        }
    }

    /// The file name of the rendered artifact.
    pub fn filename(self) -> (name: &'static str)
        ensures
            name@ == self.spec_filename(),
    {
        match self {
            OutputFormat::Pdf => "equation.pdf",
            OutputFormat::Svg => "equation.svg",
        }
    }
}

/// The rendering plan of an export: the backend's steps for the formula and
/// the requested format.
pub open spec fn export_steps(
    backend: Backend,
    source: Seq<char>,
    output: OutputFormat,
) -> Seq<RenderStepView> {
    match backend {
        Backend::Latex => latex_plan(source, output),
        Backend::Typst => typst_plan(source, output),
    }
}

pub fn export_plan(backend: Backend, source: &str, output: OutputFormat) -> (plan: Vec<
    RenderStep,
>)
    ensures
        plan_view(plan@) == export_steps(backend, source@, output),
{
    match backend {
        Backend::Latex => render_latex_plan(source, output),
        Backend::Typst => render_typst_plan(source, output),
    }
}

/// Law: every export plan ends by checking that the file named by the
/// requested format exists, which is the artifact that the export hands back.
pub proof fn law_export_ends_with_requested_file(
    backend: Backend,
    source: Seq<char>,
    output: OutputFormat,
)
    ensures
        export_steps(backend, source, output).len() > 0,
        export_steps(backend, source, output).last() matches RenderStepView::RequireOutput {
            file,
            ..
        } && file == output.spec_filename(),
{
}

/// Law: the plan follows the backend alone, for both formats. A LaTeX export
/// writes `equation.tex` and runs only pdflatex and pdf2svg; a Typst export
/// writes `equation.typ` and runs only typst.
pub proof fn law_export_follows_backend(source: Seq<char>, output: OutputFormat)
    ensures
        export_steps(Backend::Latex, source, output) == latex_plan(source, output),
        export_steps(Backend::Typst, source, output) == typst_plan(source, output),
        export_steps(Backend::Latex, source, output)[0] matches RenderStepView::WriteSource {
            file,
            ..
        } && file == "equation.tex"@,
        export_steps(Backend::Typst, source, output)[0] matches RenderStepView::WriteSource {
            file,
            ..
        } && file == "equation.typ"@,
        forall|i: int|
            0 <= i < export_steps(Backend::Latex, source, output).len() && (
            #[trigger] export_steps(Backend::Latex, source, output)[i]) is RunProgram ==> {
                let command = export_steps(Backend::Latex, source, output)[i]->RunProgram_command;
                command == "pdflatex"@ || command == "pdf2svg"@
            },
        forall|i: int|
            0 <= i < export_steps(Backend::Typst, source, output).len() && (
            #[trigger] export_steps(Backend::Typst, source, output)[i]) is RunProgram
                ==> export_steps(Backend::Typst, source, output)[i]->RunProgram_command == "typst"@,
{
}

/// Law: a PDF export hands back `equation.pdf` and an SVG export
/// `equation.svg`.
pub proof fn law_output_file_names()
    ensures
        OutputFormat::Pdf.spec_filename() == "equation.pdf"@,
        OutputFormat::Svg.spec_filename() == "equation.svg"@,
        OutputFormat::Pdf.spec_filename() != OutputFormat::Svg.spec_filename(),
{
    reveal_strlit("equation.pdf");
    reveal_strlit("equation.svg");
    assert(OutputFormat::Pdf.spec_filename()[9] != OutputFormat::Svg.spec_filename()[9]);
}

} // verus!
