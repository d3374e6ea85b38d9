use equation_exporter::app::latex::render_latex_plan;
use equation_exporter::app::typst::{build_typst_source, render_typst_plan};
use equation_exporter::commands::{export_plan, Backend, OutputFormat};
use equation_exporter::error::{AppError, StartFailure};
use equation_exporter::render::{
    advance_render, reported_stderr, start_render, step_failure, RenderProgress, RenderStep,
    StepOutcome,
};

const SOURCE: &str = r"G_{\mathrm{rep}}^{\mathrm{train}}";
const EXPECTED_TEX: &str = r"\documentclass[border=1pt]{standalone}

\usepackage{amsmath}
\usepackage{amssymb}

\begin{document}
$\displaystyle G_{\mathrm{rep}}^{\mathrm{train}}$
\end{document}
";

/// What performing each step "successfully" reports.
fn success(step: &RenderStep) -> StepOutcome {
    match step {
        RenderStep::WriteSource { .. } => StepOutcome::Written,
        RenderStep::RunProgram { .. } => {
            StepOutcome::Exited { success: true, exit_code: Some(0), stderr: Vec::new() }
        }
        RenderStep::RequireOutput { .. } => StepOutcome::OutputFound(true),
    }
}

/// Runs a plan, taking outcomes from `outcome` by step position; returns the
/// positions performed and the result.
fn run(
    plan: &Vec<RenderStep>,
    mut outcome: impl FnMut(usize, &RenderStep) -> StepOutcome,
) -> (Vec<usize>, Result<(), AppError>) {
    let mut performed = Vec::new();
    let mut progress = start_render(plan);
    loop {
        match progress {
            RenderProgress::Done(result) => return (performed, result),
            RenderProgress::Perform(position) => {
                performed.push(position);
                let step = &plan[position];
                progress = advance_render(plan, position, outcome(position, step));
            }
        }
    }
}

fn commands(plan: &Vec<RenderStep>) -> Vec<String> {
    plan.iter()
        .filter_map(|step| match step {
            RenderStep::RunProgram { command, .. } => Some(command.clone()),
            _ => None,
        })
        .collect()
}

#[test]
fn latex_source_embeds_the_formula_in_a_standalone_document() {
    let plan = render_latex_plan(SOURCE, OutputFormat::Svg);
    match &plan[0] {
        RenderStep::WriteSource { file, contents, operation } => {
            assert_eq!(file, "equation.tex");
            assert_eq!(contents, EXPECTED_TEX);
            assert_eq!(operation, "写入 LaTeX 源文件");
        }
        _ => panic!("the plan starts by writing the source"),
    }
    match &plan[1] {
        RenderStep::RunProgram { command, arguments, .. } => {
            assert_eq!(command, "pdflatex");
            assert_eq!(arguments, &vec!["-interaction=nonstopmode", "-halt-on-error", "equation.tex"]);
        }
        _ => panic!("then runs pdflatex"),
    }
    match &plan[3] {
        RenderStep::RunProgram { command, arguments, .. } => {
            assert_eq!(command, "pdf2svg");
            assert_eq!(arguments, &vec!["equation.pdf", "equation.svg"]);
        }
        _ => panic!("then runs pdf2svg"),
    }
    assert_eq!(plan.len(), 5);
}

#[test]
fn latex_svg_export_runs_pdflatex_and_pdf2svg() {
    let plan = render_latex_plan(SOURCE, OutputFormat::Svg);
    let (performed, result) = run(&plan, |_, step| success(step));
    assert_eq!(performed, vec![0, 1, 2, 3, 4]);
    assert!(result.is_ok());
}

#[test]
fn failed_pdf2svg_process_is_not_a_missing_dependency() {
    let plan = render_latex_plan(SOURCE, OutputFormat::Svg);
    let (_, result) = run(&plan, |_, step| match step {
        RenderStep::RunProgram { command, .. } if command == "pdf2svg" => StepOutcome::Exited {
            success: false,
            exit_code: Some(127),
            stderr: b"pdf2svg: command not found".to_vec(),
        },
        other => success(other),
    });
    let error = result.unwrap_err();
    assert!(matches!(
        error,
        AppError::ProcessFailed { command, exit_code: Some(127), stderr, .. }
            if command == "pdf2svg" && stderr == "pdf2svg: command not found"
    ));
}

#[test]
fn pdf_export_does_not_require_pdf2svg() {
    let plan = render_latex_plan(SOURCE, OutputFormat::Pdf);
    assert_eq!(commands(&plan), vec!["pdflatex"]);
    let (performed, result) = run(&plan, |_, step| success(step));
    assert_eq!(performed, vec![0, 1, 2]);
    assert!(result.is_ok(), "PDF rendering must not start pdf2svg");
}

#[test]
fn a_missing_pdflatex_is_a_missing_dependency() {
    let plan = render_latex_plan(SOURCE, OutputFormat::Pdf);
    let (performed, result) = run(&plan, |_, step| match step {
        RenderStep::RunProgram { .. } => StepOutcome::NotStarted(StartFailure {
            not_found: true,
            message: "not found".to_string(),
        }),
        other => success(other),
    });
    assert_eq!(performed, vec![0, 1]);
    let error = result.unwrap_err();
    assert_eq!(error.message(), "未找到 pdflatex（编译 LaTeX 公式）");
}

#[test]
fn a_missing_pdf_is_reported_for_pdflatex() {
    let plan = render_latex_plan(SOURCE, OutputFormat::Svg);
    let (performed, result) = run(&plan, |_, step| match step {
        RenderStep::RequireOutput { .. } => StepOutcome::OutputFound(false),
        other => success(other),
    });
    assert_eq!(performed, vec![0, 1, 2]);
    assert!(matches!(
        result.unwrap_err(),
        AppError::ProcessFailed { command, exit_code: None, summary, stderr }
            if command == "pdflatex" && summary == "pdflatex 未生成 equation.pdf" && stderr.is_empty()
    ));
}

#[test]
fn a_failed_write_stops_rendering() {
    let plan = render_typst_plan("x", OutputFormat::Pdf);
    let (performed, result) = run(&plan, |_, step| match step {
        RenderStep::WriteSource { .. } => StepOutcome::WriteFailed("disk full".to_string()),
        other => success(other),
    });
    assert_eq!(performed, vec![0]);
    assert_eq!(result.unwrap_err().message(), "写入 Typst 源文件失败：disk full");
}

#[test]
fn wraps_a_formula_in_an_auto_sized_math_document() {
    assert_eq!(
        build_typst_source("x / y", false),
        "#set page(width: auto, height: auto, margin: 0pt)\n\n$ x / y $\n"
    );
}

#[test]
fn svg_source_has_a_transparent_page() {
    assert!(build_typst_source("x", true).contains("fill: none"));
}

#[test]
fn typst_compiles_only_the_requested_file() {
    for (output, filename, transparent) in [
        (OutputFormat::Pdf, "equation.pdf", false),
        (OutputFormat::Svg, "equation.svg", true),
    ] {
        let plan = render_typst_plan("x", output);
        assert_eq!(plan.len(), 3);
        match &plan[0] {
            RenderStep::WriteSource { file, contents, .. } => {
                assert_eq!(file, "equation.typ");
                assert_eq!(contents, &build_typst_source("x", transparent));
            }
            _ => panic!("the plan starts by writing the source"),
        }
        match &plan[1] {
            RenderStep::RunProgram { command, arguments, .. } => {
                assert_eq!(command, "typst");
                assert_eq!(arguments, &vec!["compile", "equation.typ", filename]);
            }
            _ => panic!("then compiles"),
        }
        match &plan[2] {
            RenderStep::RequireOutput { file, program } => {
                assert_eq!(file, filename);
                assert_eq!(program, "typst");
            }
            _ => panic!("then checks the output"),
        }
    }
}

#[test]
fn a_failed_typst_compile_reports_trimmed_stderr() {
    let plan = render_typst_plan("x", OutputFormat::Svg);
    let error = step_failure(
        &plan[1],
        StepOutcome::Exited { success: false, exit_code: Some(1), stderr: b"\n  error: unknown variable\n".to_vec() },
    )
    .unwrap();
    assert!(matches!(
        error,
        AppError::ProcessFailed { command, exit_code: Some(1), summary, stderr }
            if command == "typst" && summary == "Typst 编译失败" && stderr == "error: unknown variable"
    ));
    let missing = step_failure(&plan[2], StepOutcome::OutputFound(false)).unwrap();
    assert_eq!(missing.message(), "typst 未生成 equation.svg");
}

#[test]
fn stderr_is_decoded_leniently_and_trimmed() {
    assert_eq!(reported_stderr(b"  \xE2\x80\x83x y\t\n"), "x y");
    assert_eq!(reported_stderr(b"a\xFFb"), "a\u{FFFD}b");
    assert_eq!(reported_stderr(b""), "");
}

#[test]
fn export_plans_follow_the_backend() {
    let latex = export_plan(Backend::Latex, "x", OutputFormat::Pdf);
    assert_eq!(commands(&latex), vec!["pdflatex"]);
    let typst = export_plan(Backend::Typst, "x", OutputFormat::Svg);
    assert_eq!(commands(&typst), vec!["typst"]);
}
