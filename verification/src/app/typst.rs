//! Typesetting with Typst: the source document and the rendering plan.
use vstd::prelude::*;
use crate::commands::OutputFormat;
use crate::error::{start_error_view, AppErrorView};
use crate::render::{
    exited_successfully, first_failure, law_render_run, outcomes_fit, plan_view, run_plan, step_error,
    stderr_text, RenderStep, RenderStepView, RunEnd, StepOutcome,
};

verus! {

/// The page setup up to where the fill option goes.
pub const TYPST_PAGE_HEAD: &'static str = "#set page(width: auto, height: auto, margin: 0pt";

/// The fill option of a transparent page (used for SVG).
pub const TYPST_TRANSPARENT_FILL: &'static str = ", fill: none";

/// The end of the page setup, up to the formula.
pub const TYPST_BODY_HEAD: &'static str = ")\n\n$ ";

/// The end of the document after the formula.
pub const TYPST_BODY_TAIL: &'static str = " $\n";

/// A document that sizes its page to the formula, with a transparent page
/// when asked for.
pub open spec fn typst_source(input: Seq<char>, transparent: bool) -> Seq<char> {
    TYPST_PAGE_HEAD@ + (if transparent {
        TYPST_TRANSPARENT_FILL@
    } else {
        Seq::empty()
    }) + TYPST_BODY_HEAD@ + input + TYPST_BODY_TAIL@
}

pub fn build_typst_source(input: &str, transparent: bool) -> (source: String)
    ensures
        source@ == typst_source(input@, transparent),
{
    let mut source = String::from_str(TYPST_PAGE_HEAD);
    if transparent {
        source.append(TYPST_TRANSPARENT_FILL);
    }
    source.append(TYPST_BODY_HEAD);
    source.append(input);
    source.append(TYPST_BODY_TAIL);
    proof {
        assert(TYPST_PAGE_HEAD@ + Seq::<char>::empty() =~= TYPST_PAGE_HEAD@);
    }
    source
}

/// Write `equation.typ` (transparent for SVG), compile it to the requested
/// file only, and check that the file exists.
pub open spec fn typst_plan(input: Seq<char>, output: OutputFormat) -> Seq<RenderStepView> {
    seq![
        RenderStepView::WriteSource {
            file: "equation.typ"@,
            contents: typst_source(input, output == OutputFormat::Svg),
            operation: "写入 Typst 源文件"@,
        },
        RenderStepView::RunProgram {
            command: "typst"@,
            purpose: "编译 Typst 公式"@,
            arguments: seq!["compile"@, "equation.typ"@, output.spec_filename()],
            failure_summary: "Typst 编译失败"@,
        },
        RenderStepView::RequireOutput { file: output.spec_filename(), program: "typst"@ },
    ]
}

pub fn render_typst_plan(input: &str, output: OutputFormat) -> (plan: Vec<RenderStep>)
    ensures
        plan_view(plan@) == typst_plan(input@, output),
{
    let transparent = match output {
        OutputFormat::Svg => true,
        OutputFormat::Pdf => false,
    };
    let mut plan: Vec<RenderStep> = Vec::new();
    plan.push(
        RenderStep::WriteSource {
            file: String::from_str("equation.typ"),
            contents: build_typst_source(input, transparent),
            operation: String::from_str("写入 Typst 源文件"),
        },
    );
    let mut arguments: Vec<String> = Vec::new();
    arguments.push(String::from_str("compile"));
    arguments.push(String::from_str("equation.typ"));
    arguments.push(String::from_str(output.filename()));
    plan.push(
        RenderStep::RunProgram {
            command: String::from_str("typst"),
            purpose: String::from_str("编译 Typst 公式"),
            arguments,
            failure_summary: String::from_str("Typst 编译失败"),
        },
    );
    plan.push(
        RenderStep::RequireOutput {
            file: String::from_str(output.filename()),
            program: String::from_str("typst"),
        },
    );
    proof {
        assert(crate::render::strings_view(arguments@) =~= seq![
            "compile"@,
            "equation.typ"@,
            output.spec_filename(),
        ]);
        assert(plan_view(plan@) =~= typst_plan(input@, output));
    }
    plan
}

/// Law: the source for SVG has a transparent page and the source for PDF has
/// not; apart from that the two are the same.
pub proof fn law_typst_fill_only_for_svg(input: Seq<char>)
    ensures
        typst_source(input, true) == TYPST_PAGE_HEAD@ + TYPST_TRANSPARENT_FILL@
            + TYPST_BODY_HEAD@ + input + TYPST_BODY_TAIL@,
        typst_source(input, false) == TYPST_PAGE_HEAD@ + TYPST_BODY_HEAD@ + input
            + TYPST_BODY_TAIL@,
{
    assert(TYPST_PAGE_HEAD@ + Seq::<char>::empty() =~= TYPST_PAGE_HEAD@);
}

/// Law: a Typst run succeeds exactly when `equation.typ` was written, typst
/// exited successfully and the requested file was found. Otherwise the run's
/// answer is the first error: the source could not be written, typst did not
/// start, typst failed (with its exit code and trimmed standard error), or the
/// requested file is missing.
pub proof fn law_typst_run(input: Seq<char>, output: OutputFormat, outcomes: Seq<StepOutcome>)
    requires
        outcomes_fit(typst_plan(input, output), outcomes),
    ensures
        (run_plan(typst_plan(input, output), outcomes) == RunEnd::Succeeded) == ({
            &&& outcomes.len() >= 3
            &&& outcomes[0] is Written
            &&& exited_successfully(outcomes[1])
            &&& outcomes[2] == StepOutcome::OutputFound(true)
        }),
        outcomes.len() >= 1 && outcomes[0] is WriteFailed ==> run_plan(
            typst_plan(input, output),
            outcomes,
        ) == RunEnd::Failed(
            AppErrorView::IoError {
                operation: "写入 Typst 源文件"@,
                message: outcomes[0]->WriteFailed_0@,
            },
        ),
        outcomes.len() >= 2 && outcomes[0] is Written && outcomes[1] is NotStarted ==> run_plan(
            typst_plan(input, output),
            outcomes,
        ) == RunEnd::Failed(
            start_error_view(
                "typst"@,
                "编译 Typst 公式"@,
                outcomes[1]->NotStarted_0.not_found,
                outcomes[1]->NotStarted_0.message@,
            ),
        ),
        outcomes.len() >= 2 && outcomes[0] is Written && outcomes[1] is Exited
            && !outcomes[1]->Exited_success ==> run_plan(typst_plan(input, output), outcomes)
            == RunEnd::Failed(
            AppErrorView::ProcessFailed {
                command: "typst"@,
                exit_code: outcomes[1]->Exited_exit_code,
                summary: "Typst 编译失败"@,
                stderr: stderr_text(outcomes[1]->Exited_stderr@),
            },
        ),
        outcomes.len() >= 3 && outcomes[0] is Written && exited_successfully(outcomes[1])
            && outcomes[2] == StepOutcome::OutputFound(false) ==> run_plan(
            typst_plan(input, output),
            outcomes,
        ) == RunEnd::Failed(
            AppErrorView::ProcessFailed {
                command: "typst"@,
                exit_code: None,
                summary: "typst"@ + " 未生成 "@ + output.spec_filename(),
                stderr: Seq::empty(),
            },
        ),
{
    let plan = typst_plan(input, output);
    law_render_run(plan, outcomes);
    assert forall|i: int| 0 <= i < plan.len() && i < outcomes.len() implies (step_error(
        plan[i],
        outcomes[i],
    ) is None) == (if i == 0 {
        outcomes[i] is Written
    } else if i == 2 {
        outcomes[i] == StepOutcome::OutputFound(true)
    } else {
        exited_successfully(outcomes[i])
    }) by {
        assert(crate::render::outcome_fits(plan[i], outcomes[i]));
    }
    if outcomes.len() >= 1 && outcomes[0] is WriteFailed {
        assert(first_failure(plan, 0, outcomes, 0));
    }
    if outcomes.len() >= 2 && outcomes[0] is Written && !exited_successfully(outcomes[1]) {
        assert(first_failure(plan, 0, outcomes, 1));
    }
    if outcomes.len() >= 3 && outcomes[0] is Written && exited_successfully(outcomes[1])
        && outcomes[2] == StepOutcome::OutputFound(false) {
        assert(first_failure(plan, 0, outcomes, 2));
    }
}

/// Law: the Typst plan writes the formula verbatim, in a page sized to it
/// (transparent for SVG only), to `equation.typ`, compiles it to the requested
/// file only, and requires that file.
pub proof fn law_typst_plan_steps(input: Seq<char>, output: OutputFormat)
    ensures
        typst_plan(input, output).len() == 3,
        typst_plan(input, output)[0] is WriteSource,
        typst_plan(input, output)[0]->WriteSource_file == "equation.typ"@,
        output == OutputFormat::Svg ==> typst_plan(input, output)[0]->WriteSource_contents
            == TYPST_PAGE_HEAD@ + TYPST_TRANSPARENT_FILL@ + TYPST_BODY_HEAD@ + input
            + TYPST_BODY_TAIL@,
        output == OutputFormat::Pdf ==> typst_plan(input, output)[0]->WriteSource_contents
            == TYPST_PAGE_HEAD@ + TYPST_BODY_HEAD@ + input + TYPST_BODY_TAIL@,
        typst_plan(input, output)[1] is RunProgram,
        typst_plan(input, output)[1]->RunProgram_command == "typst"@,
        typst_plan(input, output)[1]->RunProgram_arguments == seq![
            "compile"@,
            "equation.typ"@,
            output.spec_filename(),
        ],
        typst_plan(input, output)[2] is RequireOutput,
        typst_plan(input, output)[2]->RequireOutput_file == output.spec_filename(),
{
    assert(TYPST_PAGE_HEAD@ + Seq::<char>::empty() =~= TYPST_PAGE_HEAD@);
}

/// Law: the Typst document holds the formula verbatim between the page setup
/// and the tail; different formulas give different documents.
pub proof fn law_typst_source_embeds_formula(input: Seq<char>, other: Seq<char>, transparent: bool)
    ensures
        ({
            let head = TYPST_PAGE_HEAD@ + (if transparent {
                TYPST_TRANSPARENT_FILL@
            } else {
                Seq::empty()
            }) + TYPST_BODY_HEAD@;
            &&& typst_source(input, transparent).subrange(
                head.len() as int,
                (head.len() + input.len()) as int,
            ) == input
            &&& typst_source(input, transparent).len() == head.len() + input.len()
                + TYPST_BODY_TAIL@.len()
        }),
        typst_source(input, transparent) == typst_source(other, transparent) ==> input == other,
{
    let head = TYPST_PAGE_HEAD@ + (if transparent {
        TYPST_TRANSPARENT_FILL@
    } else {
        Seq::empty()
    }) + TYPST_BODY_HEAD@;
    let n = head.len() as int;
    assert(typst_source(input, transparent) =~= head + input + TYPST_BODY_TAIL@);
    assert(typst_source(other, transparent) =~= head + other + TYPST_BODY_TAIL@);
    assert((head + input + TYPST_BODY_TAIL@).subrange(n, n + input.len()) =~= input);
    assert((head + other + TYPST_BODY_TAIL@).subrange(n, n + other.len()) =~= other);
}

} // verus!
