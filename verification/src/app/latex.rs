//! Typesetting with LaTeX: the source document and the rendering plan.
use vstd::prelude::*;
use crate::commands::OutputFormat;
use crate::error::AppErrorView;
use crate::render::{
    exited_successfully, first_failure, law_render_run, outcomes_fit, plan_view, run_plan, step_error,
    RenderStep, RenderStepView, RunEnd, StepOutcome,
};

verus! {

/// A standalone document in display math, up to the formula.
pub const LATEX_HEAD: &'static str = "\\documentclass[border=1pt]{standalone}\n\n\\usepackage{amsmath}\n\\usepackage{amssymb}\n\n\\begin{document}\n$\\displaystyle ";

/// The end of the document after the formula.
pub const LATEX_TAIL: &'static str = "$\n\\end{document}\n";

pub open spec fn latex_source(source: Seq<char>) -> Seq<char> {
    LATEX_HEAD@ + source + LATEX_TAIL@
}

pub fn build_latex_source(source: &str) -> (tex: String)
    ensures
        tex@ == latex_source(source@),
{
    let mut tex = String::from_str(LATEX_HEAD);
    tex.append(source);
    tex.append(LATEX_TAIL);
    tex
}

pub open spec fn pdflatex_step() -> RenderStepView {
    RenderStepView::RunProgram {
        command: "pdflatex"@,
        purpose: "编译 LaTeX 公式"@,
        arguments: seq!["-interaction=nonstopmode"@, "-halt-on-error"@, "equation.tex"@],
        failure_summary: "pdflatex 执行失败"@,
    }
}

pub open spec fn pdf2svg_step() -> RenderStepView {
    RenderStepView::RunProgram {
        command: "pdf2svg"@,
        purpose: "将 PDF 公式转换为 SVG"@,
        arguments: seq!["equation.pdf"@, "equation.svg"@],
        failure_summary: "pdf2svg 执行失败"@,
    }
}

/// Write `equation.tex`, run pdflatex and check for `equation.pdf`; for SVG
/// then run pdf2svg and check for `equation.svg`.
pub open spec fn latex_plan(source: Seq<char>, output: OutputFormat) -> Seq<RenderStepView> {
    let pdf = seq![
        RenderStepView::WriteSource {
            file: "equation.tex"@,
            contents: latex_source(source),
            operation: "写入 LaTeX 源文件"@,
        },
        pdflatex_step(),
        RenderStepView::RequireOutput { file: "equation.pdf"@, program: "pdflatex"@ },
    ];
    match output {
        OutputFormat::Pdf => pdf,
        OutputFormat::Svg => pdf + seq![
            pdf2svg_step(),
            RenderStepView::RequireOutput { file: "equation.svg"@, program: "pdf2svg"@ },
        ],
    }
}

pub fn render_latex_plan(source: &str, output: OutputFormat) -> (plan: Vec<RenderStep>)
    ensures
        plan_view(plan@) == latex_plan(source@, output),
{
    let mut plan: Vec<RenderStep> = Vec::new();
    plan.push(
        RenderStep::WriteSource {
            file: String::from_str("equation.tex"),
            contents: build_latex_source(source),
            operation: String::from_str("写入 LaTeX 源文件"),
        },
    );
    let mut pdflatex_arguments: Vec<String> = Vec::new();
    pdflatex_arguments.push(String::from_str("-interaction=nonstopmode"));
    pdflatex_arguments.push(String::from_str("-halt-on-error"));
    pdflatex_arguments.push(String::from_str("equation.tex"));
    proof {
        assert(crate::render::strings_view(pdflatex_arguments@) =~= seq![
            "-interaction=nonstopmode"@,
            "-halt-on-error"@,
            "equation.tex"@,
        ]);
    }
    plan.push(
        RenderStep::RunProgram {
            command: String::from_str("pdflatex"),
            purpose: String::from_str("编译 LaTeX 公式"),
            arguments: pdflatex_arguments,
            failure_summary: String::from_str("pdflatex 执行失败"),
        },
    );
    plan.push(
        RenderStep::RequireOutput {
            file: String::from_str("equation.pdf"),
            program: String::from_str("pdflatex"),
        },
    );
    let ghost pdf_plan = plan@;
    match output {
        OutputFormat::Pdf => {},
        OutputFormat::Svg => {
            let mut pdf2svg_arguments: Vec<String> = Vec::new();
            pdf2svg_arguments.push(String::from_str("equation.pdf"));
            pdf2svg_arguments.push(String::from_str("equation.svg"));
            proof {
                assert(crate::render::strings_view(pdf2svg_arguments@) =~= seq![
                    "equation.pdf"@,
                    "equation.svg"@,
                ]);
            }
            plan.push(
                RenderStep::RunProgram {
                    command: String::from_str("pdf2svg"),
                    purpose: String::from_str("将 PDF 公式转换为 SVG"),
                    arguments: pdf2svg_arguments,
                    failure_summary: String::from_str("pdf2svg 执行失败"),
                },
            );
            plan.push(
                RenderStep::RequireOutput {
                    file: String::from_str("equation.svg"),
                    program: String::from_str("pdf2svg"),
                },
            );
        },
    }
    proof {
        assert(plan_view(plan@) =~= latex_plan(source@, output));
    }
    plan
}

/// Law: a PDF export runs pdflatex only; pdf2svg is run only for SVG.
pub proof fn law_pdf_export_runs_only_pdflatex(source: Seq<char>)
    ensures
        forall|i: int|
            0 <= i < latex_plan(source, OutputFormat::Pdf).len() ==> match #[trigger] latex_plan(
                source,
                OutputFormat::Pdf,
            )[i] {
                RenderStepView::RunProgram { command, .. } => command == "pdflatex"@,
                _ => true,
            },
        latex_plan(source, OutputFormat::Svg)[3] == pdf2svg_step(),
{
}

/// Law: a LaTeX run succeeds exactly when `equation.tex` was written, pdflatex
/// exited successfully and `equation.pdf` was found, and, for SVG, pdf2svg
/// then exited successfully and `equation.svg` was found. A pdflatex error
/// (it did not start, it failed, or `equation.pdf` is missing) is the run's
/// answer, and pdf2svg does not run after it.
pub proof fn law_latex_run(source: Seq<char>, output: OutputFormat, outcomes: Seq<StepOutcome>)
    requires
        outcomes_fit(latex_plan(source, output), outcomes),
    ensures
        (run_plan(latex_plan(source, output), outcomes) == RunEnd::Succeeded) == ({
            &&& outcomes.len() >= latex_plan(source, output).len()
            &&& outcomes[0] is Written
            &&& exited_successfully(outcomes[1])
            &&& outcomes[2] == StepOutcome::OutputFound(true)
            &&& output == OutputFormat::Svg ==> exited_successfully(outcomes[3]) && outcomes[4]
                == StepOutcome::OutputFound(true)
        }),
        outcomes.len() >= 2 && outcomes[0] is Written && step_error(pdflatex_step(), outcomes[1]) is Some
            ==> run_plan(latex_plan(source, output), outcomes) == RunEnd::Failed(
            step_error(pdflatex_step(), outcomes[1])->0,
        ),
        outcomes.len() >= 3 && outcomes[0] is Written && exited_successfully(outcomes[1])
            && outcomes[2] == StepOutcome::OutputFound(false) ==> run_plan(
            latex_plan(source, output),
            outcomes,
        ) == RunEnd::Failed(
            AppErrorView::ProcessFailed {
                command: "pdflatex"@,
                exit_code: None,
                summary: "pdflatex"@ + " 未生成 "@ + "equation.pdf"@,
                stderr: Seq::empty(),
            },
        ),
{
    let plan = latex_plan(source, output);
    law_render_run(plan, outcomes);
    assert forall|i: int| 0 <= i < plan.len() && i < outcomes.len() implies (step_error(
        plan[i],
        outcomes[i],
    ) is None) == (if i == 0 {
        outcomes[i] is Written
    } else if i == 2 || i == 4 {
        outcomes[i] == StepOutcome::OutputFound(true)
    } else {
        exited_successfully(outcomes[i])
    }) by {
        assert(crate::render::outcome_fits(plan[i], outcomes[i]));
    }
    if outcomes.len() >= 2 && outcomes[0] is Written && step_error(pdflatex_step(), outcomes[1]) is Some {
        assert(first_failure(plan, 0, outcomes, 1));
    }
    if outcomes.len() >= 3 && outcomes[0] is Written && exited_successfully(outcomes[1])
        && outcomes[2] == StepOutcome::OutputFound(false) {
        assert(first_failure(plan, 0, outcomes, 2));
    }
}

/// Law: the document holds the formula verbatim, whatever characters it has,
/// between the fixed head and tail; different formulas give different
/// documents.
pub proof fn law_latex_source_embeds_formula(source: Seq<char>, other: Seq<char>)
    ensures
        latex_source(source) == LATEX_HEAD@ + source + LATEX_TAIL@,
        latex_source(source).len() == LATEX_HEAD@.len() + source.len() + LATEX_TAIL@.len(),
        latex_source(source).subrange(
            LATEX_HEAD@.len() as int,
            (LATEX_HEAD@.len() + source.len()) as int,
        ) == source,
        latex_source(source) == latex_source(other) ==> source == other,
{
    let n = LATEX_HEAD@.len() as int;
    assert(latex_source(source).subrange(n, n + source.len()) =~= source);
    if latex_source(source) == latex_source(other) {
        assert(latex_source(other).len() == n + other.len() + LATEX_TAIL@.len());
        assert(latex_source(other).subrange(n, n + other.len()) =~= other);
    }
}

/// Law: the LaTeX plan writes the formula verbatim to `equation.tex`, runs
/// pdflatex on it, requires `equation.pdf`, and for SVG (only) runs pdf2svg
/// from `equation.pdf` to `equation.svg` and requires `equation.svg`.
pub proof fn law_latex_plan_steps(source: Seq<char>, output: OutputFormat)
    ensures
        latex_plan(source, output).len() == (if output == OutputFormat::Svg {
            5int
        } else {
            3int
        }),
        latex_plan(source, output)[0] is WriteSource,
        latex_plan(source, output)[0]->WriteSource_file == "equation.tex"@,
        latex_plan(source, output)[0]->WriteSource_contents == LATEX_HEAD@ + source + LATEX_TAIL@,
        latex_plan(source, output)[1] is RunProgram,
        latex_plan(source, output)[1]->RunProgram_command == "pdflatex"@,
        latex_plan(source, output)[1]->RunProgram_arguments == seq![
            "-interaction=nonstopmode"@,
            "-halt-on-error"@,
            "equation.tex"@,
        ],
        latex_plan(source, output)[2] is RequireOutput,
        latex_plan(source, output)[2]->RequireOutput_file == "equation.pdf"@,
        output == OutputFormat::Svg ==> latex_plan(source, output)[3] is RunProgram
            && latex_plan(source, output)[3]->RunProgram_command == "pdf2svg"@ && latex_plan(
            source,
            output,
        )[3]->RunProgram_arguments == seq!["equation.pdf"@, "equation.svg"@] && latex_plan(
            source,
            output,
        )[4] is RequireOutput && latex_plan(source, output)[4]->RequireOutput_file
            == "equation.svg"@,
{
}

} // verus!
