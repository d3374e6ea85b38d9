//! Rendering a formula is a short plan of steps (write the source, run a
//! program, check that its output exists). The caller performs each step and
//! reports what happened; the decisions about what comes next and which error
//! the user sees are made here.
use vstd::prelude::*;
use vstd::utf8::{decode_utf8, valid_utf8};
use crate::error::{start_error_view, AppError, AppErrorView, AppResult, StartFailure};

verus! {

/// One step of a rendering plan.
pub enum RenderStep {
    /// Write `contents` to `file` in the output directory; a failure is
    /// reported as the I/O operation `operation`.
    WriteSource { file: String, contents: String, operation: String },
    /// Run `command` with `arguments` in the output directory. `purpose` is
    /// shown when the program is missing, `failure_summary` when it fails.
    RunProgram {
        command: String,
        purpose: String,
        arguments: Vec<String>,
        failure_summary: String,
    },
    /// Check that `program` produced `file` in the output directory.
    RequireOutput { file: String, program: String },
}

pub enum RenderStepView {
    WriteSource { file: Seq<char>, contents: Seq<char>, operation: Seq<char> },
    RunProgram {
        command: Seq<char>,
        purpose: Seq<char>,
        arguments: Seq<Seq<char>>,
        failure_summary: Seq<char>,
    },
    RequireOutput { file: Seq<char>, program: Seq<char> },
}

pub open spec fn strings_view(strings: Seq<String>) -> Seq<Seq<char>> {
    strings.map_values(|s: String| s@)
}

impl View for RenderStep {
    type V = RenderStepView;

    open spec fn view(&self) -> RenderStepView {
        match self {
            RenderStep::WriteSource { file, contents, operation } => RenderStepView::WriteSource {
                file: file@,
                contents: contents@,
                operation: operation@,
            },
            RenderStep::RunProgram { command, purpose, arguments, failure_summary } =>
                RenderStepView::RunProgram {
                command: command@,
                purpose: purpose@,
                arguments: strings_view(arguments@),
                failure_summary: failure_summary@,
            },
            RenderStep::RequireOutput { file, program } => RenderStepView::RequireOutput {
                file: file@,
                program: program@,
            },
        }
    }
}

pub open spec fn plan_view(plan: Seq<RenderStep>) -> Seq<RenderStepView> {
    plan.map_values(|step: RenderStep| step@)
}

/// What happened when a step was performed.
pub enum StepOutcome {
    /// The source was written.
    Written,
    /// Writing failed with this error description.
    WriteFailed(String),
    /// The program ran and exited; `success` is its exit status, `exit_code`
    /// its code when it has one, `stderr` what it wrote to standard error.
    Exited { success: bool, exit_code: Option<i32>, stderr: Vec<u8> },
    /// The program could not be started.
    NotStarted(StartFailure),
    /// Whether the expected output file exists.
    OutputFound(bool),
}

/// What the caller does next.
pub enum RenderProgress {
    /// Perform the step at this position of the plan.
    Perform(usize),
    /// Rendering is over, with this result.
    Done(AppResult<()>),
}

// ---------------------------------------------------------------------------
// Text of a program's standard error
// ---------------------------------------------------------------------------

/// The characters of the Unicode `White_Space` property, which is what
/// `char::is_whitespace` and `str::trim` go by.
pub open spec fn is_unicode_whitespace(c: char) -> bool {
    ||| ('\u{9}' <= c && c <= '\u{D}')
    ||| c == ' '
    ||| c == '\u{85}'
    ||| c == '\u{A0}'
    ||| c == '\u{1680}'
    ||| ('\u{2000}' <= c && c <= '\u{200A}')
    ||| c == '\u{2028}'
    ||| c == '\u{2029}'
    ||| c == '\u{202F}'
    ||| c == '\u{205F}'
    ||| c == '\u{3000}'
}

pub open spec fn trim_start(text: Seq<char>) -> Seq<char>
    decreases text.len(),
{
    if text.len() > 0 && is_unicode_whitespace(text[0]) {
        trim_start(text.drop_first())
    } else {
        text
    }
}

pub open spec fn trim_end(text: Seq<char>) -> Seq<char>
    decreases text.len(),
{
    if text.len() > 0 && is_unicode_whitespace(text.last()) {
        trim_end(text.drop_last())
    } else {
        text
    }
}

/// The text without leading and trailing whitespace.
pub open spec fn trimmed(text: Seq<char>) -> Seq<char> {
    trim_end(trim_start(text))
}

/// What `String::from_utf8_lossy` gives for these bytes. For valid UTF-8 it is
/// their decoding; otherwise each invalid sequence becomes U+FFFD.
pub uninterp spec fn utf8_lossy(bytes: Seq<u8>) -> Seq<char>;

/// `String::from_utf8_lossy(bytes).into_owned()`. Its result depends on the
/// bytes alone; its documentation says valid UTF-8 is decoded unchanged.
#[verifier::external_body]
fn lossy_text(bytes: &[u8]) -> (text: String)
    ensures
        text@ == utf8_lossy(bytes@),
        valid_utf8(bytes@) ==> text@ == decode_utf8(bytes@),
{
    String::from_utf8_lossy(bytes).into_owned()
}

/// `str::trim`: its documentation says it removes leading and trailing
/// characters of the Unicode `White_Space` property.
#[verifier::external_body]
fn trim_text(text: &str) -> (r: &str)
    ensures
        r@ == trimmed(text@),
{
    text.trim()
}

/// The standard error output as it is reported, trimmed: valid UTF-8 decoded,
/// anything else decoded leniently.
pub open spec fn stderr_text(stderr: Seq<u8>) -> Seq<char> {
    if valid_utf8(stderr) {
        trimmed(decode_utf8(stderr))
    } else {
        trimmed(utf8_lossy(stderr))
    }
}

pub fn reported_stderr(stderr: &[u8]) -> (text: String)
    ensures
        text@ == stderr_text(stderr@),
        valid_utf8(stderr@) ==> text@ == trimmed(decode_utf8(stderr@)),
{
    let text = lossy_text(stderr);
    String::from_str(trim_text(text.as_str()))
}

// ---------------------------------------------------------------------------
// Decisions
// ---------------------------------------------------------------------------

/// The error message for an expected output file that is missing.
pub open spec fn missing_output_summary(program: Seq<char>, file: Seq<char>) -> Seq<char> {
    program + " 未生成 "@ + file
}

/// The error that stops rendering after a step, or `None` to go on.
pub open spec fn step_error(step: RenderStepView, outcome: StepOutcome) -> Option<AppErrorView> {
    match step {
        RenderStepView::WriteSource { operation, .. } => match outcome {
            StepOutcome::WriteFailed(message) => Some(
                AppErrorView::IoError { operation, message: message@ },
            ),
            _ => None,
        },
        RenderStepView::RunProgram { command, purpose, failure_summary, .. } => match outcome {
            StepOutcome::NotStarted(failure) => Some(
                start_error_view(command, purpose, failure.not_found, failure.message@),
            ),
            StepOutcome::Exited { success, exit_code, stderr } => if success {
                None
            } else {
                Some(
                    AppErrorView::ProcessFailed {
                        command,
                        exit_code,
                        summary: failure_summary,
                        stderr: stderr_text(stderr@),
                    },
                )
            },
            _ => None,
        },
        RenderStepView::RequireOutput { file, program } => match outcome {
            StepOutcome::OutputFound(false) => Some(
                AppErrorView::ProcessFailed {
                    command: program,
                    exit_code: None,
                    summary: missing_output_summary(program, file),
                    stderr: Seq::empty(),
                },
            ),
            _ => None,
        },
    }
}

/// The error, if any, that stops rendering after `step` had `outcome`.
pub fn step_failure(step: &RenderStep, outcome: StepOutcome) -> (r: Option<AppError>)
    ensures
        match r {
            Some(error) => step_error(step@, outcome) == Some(error@),
            None => step_error(step@, outcome) is None,
        },
{
    match step {
        RenderStep::WriteSource { operation, .. } => match outcome {
            StepOutcome::WriteFailed(message) => Some(
                AppError::io(operation.as_str(), message.as_str()),
            ),
            _ => None,
        },
        RenderStep::RunProgram { command, purpose, failure_summary, .. } => match outcome {
            StepOutcome::NotStarted(failure) => Some(
                AppError::from_start_error(command.as_str(), purpose.as_str(), failure),
            ),
            StepOutcome::Exited { success, exit_code, stderr } => {
                if success {
                    None
                } else {
                    let text = reported_stderr(stderr.as_slice());
                    Some(
                        AppError::process_failed(
                            command.as_str(),
                            exit_code,
                            failure_summary.as_str(),
                            text.as_str(),
                        ),
                    )
                }
            },
            _ => None,
        },
        RenderStep::RequireOutput { file, program } => match outcome {
            StepOutcome::OutputFound(false) => {
                let mut summary = program.clone();
                summary.append(" 未生成 ");
                summary.append(file.as_str());
                proof {
                    reveal_strlit("");
                    assert(""@ =~= Seq::<char>::empty());
                }
                Some(AppError::process_failed(program.as_str(), None, summary.as_str(), ""))
            },
            _ => None,
        },
    }
}

/// Law: a program that ran and exited unsuccessfully stops rendering with a
/// process failure that names the program and keeps its exit code, never
/// with a missing dependency.
pub proof fn law_failed_process_is_a_process_failure(
    step: RenderStepView,
    exit_code: Option<i32>,
    stderr: Vec<u8>,
)
    requires
        step is RunProgram,
    ensures
        step_error(step, StepOutcome::Exited { success: false, exit_code, stderr }) matches Some(
            AppErrorView::ProcessFailed { command, exit_code: code, .. },
        ) && command == step->RunProgram_command && code == exit_code,
{
}

/// Where rendering goes after step `position` had `outcome`: it stops with the
/// step's error, or goes to the next step, or ends successfully after the last.
pub open spec fn next_progress(
    plan: Seq<RenderStepView>,
    position: int,
    outcome: StepOutcome,
) -> (Option<AppErrorView>, Option<int>) {
    match step_error(plan[position], outcome) {
        Some(error) => (Some(error), None),
        None => if position + 1 < plan.len() {
            (None, Some(position + 1))
        } else {
            (None, None)
        },
    }
}

/// The first thing to do for a plan.
pub fn start_render(plan: &Vec<RenderStep>) -> (r: RenderProgress)
    ensures
        plan@.len() == 0 ==> r matches RenderProgress::Done(Ok(())),
        plan@.len() > 0 ==> r matches RenderProgress::Perform(0),
{
    if plan.len() == 0 {
        RenderProgress::Done(Ok(()))
    } else {
        RenderProgress::Perform(0)
    }
}

/// The decision after step `position` of the plan had `outcome`.
pub fn advance_render(plan: &Vec<RenderStep>, position: usize, outcome: StepOutcome) -> (r:
    RenderProgress)
    requires
        position < plan@.len(),
    ensures
        ({
            let (error, next) = next_progress(plan_view(plan@), position as int, outcome);
            match r {
                RenderProgress::Perform(p) => error is None && next == Some(p as int),
                RenderProgress::Done(Ok(())) => error is None && next is None,
                RenderProgress::Done(Err(e)) => error == Some(e@),
            }
        }),
{
    assert(plan_view(plan@)[position as int] == plan@[position as int]@);
    match step_failure(&plan[position], outcome) {
        Some(error) => RenderProgress::Done(Err(error)),
        None => {
            if position < plan.len() - 1 {
                RenderProgress::Perform(position + 1)
            } else {
                RenderProgress::Done(Ok(()))
            }
        },
    }
}

// ---------------------------------------------------------------------------
// Whole runs
// ---------------------------------------------------------------------------

/// How a run of a plan ends.
pub enum RunEnd {
    /// Every step was performed without an error.
    Succeeded,
    /// A step stopped rendering with this error.
    Failed(AppErrorView),
    /// The outcomes ran out before rendering ended.
    Unfinished,
}

/// The end of a run that performs the plan from `position` on, where
/// `outcomes[k]` is what happened at the `k`-th step performed, following the
/// decisions of `start_render` and `advance_render`.
pub open spec fn run_from(plan: Seq<RenderStepView>, position: int, outcomes: Seq<StepOutcome>) -> RunEnd
    decreases outcomes.len(),
{
    if position < 0 || position >= plan.len() {
        RunEnd::Succeeded
    } else if outcomes.len() == 0 {
        RunEnd::Unfinished
    } else {
        let (error, next) = next_progress(plan, position, outcomes[0]);
        match error {
            Some(e) => RunEnd::Failed(e),
            None => match next {
                Some(p) => run_from(plan, p, outcomes.drop_first()),
                None => RunEnd::Succeeded,
            },
        }
    }
}

/// The end of a run of the whole plan.
pub open spec fn run_plan(plan: Seq<RenderStepView>, outcomes: Seq<StepOutcome>) -> RunEnd {
    run_from(plan, 0, outcomes)
}

/// Step `position + k` of the plan had outcome `outcomes[k]` without an error.
pub open spec fn step_passes(
    plan: Seq<RenderStepView>,
    position: int,
    outcomes: Seq<StepOutcome>,
    k: int,
) -> bool {
    step_error(plan[position + k], outcomes[k]) is None
}

/// Step `position + k` is the first one that gives an error.
pub open spec fn first_failure(
    plan: Seq<RenderStepView>,
    position: int,
    outcomes: Seq<StepOutcome>,
    k: int,
) -> bool {
    &&& 0 <= k < plan.len() - position
    &&& k < outcomes.len()
    &&& !step_passes(plan, position, outcomes, k)
    &&& forall|j: int| 0 <= j < k ==> #[trigger] step_passes(plan, position, outcomes, j)
}

proof fn lemma_run_from(plan: Seq<RenderStepView>, position: int, outcomes: Seq<StepOutcome>)
    requires
        0 <= position <= plan.len(),
    ensures
        (run_from(plan, position, outcomes) == RunEnd::Succeeded) == (outcomes.len() >= plan.len()
            - position && forall|k: int|
            0 <= k < plan.len() - position ==> #[trigger] step_passes(plan, position, outcomes, k)),
        run_from(plan, position, outcomes) matches RunEnd::Failed(e) ==> exists|k: int|
            #[trigger] first_failure(plan, position, outcomes, k) && step_error(
                plan[position + k],
                outcomes[k],
            ) == Some(e),
        forall|k: int| #[trigger]
            first_failure(plan, position, outcomes, k) ==> run_from(plan, position, outcomes)
                == RunEnd::Failed(step_error(plan[position + k], outcomes[k])->0),
    decreases outcomes.len(),
{
    if position < plan.len() && outcomes.len() > 0 {
        let rest = outcomes.drop_first();
        assert(step_passes(plan, position, outcomes, 0) == (step_error(plan[position], outcomes[0]) is None));
        if step_error(plan[position], outcomes[0]) is Some {
            assert(first_failure(plan, position, outcomes, 0));
            assert forall|k: int| #[trigger] first_failure(plan, position, outcomes, k) implies k
                == 0 by {
                if k > 0 {
                    assert(step_passes(plan, position, outcomes, 0));
                }
            }
        } else if position + 1 < plan.len() {
            lemma_run_from(plan, position + 1, rest);
            assert forall|k: int| 0 <= k < rest.len() implies #[trigger] step_passes(
                plan,
                position + 1,
                rest,
                k,
            ) == step_passes(plan, position, outcomes, k + 1) by {
                assert(rest[k] == outcomes[k + 1]);
                assert(position + 1 + k == position + (k + 1));
            }
            if run_from(plan, position, outcomes) == RunEnd::Succeeded {
                assert forall|k: int| 0 <= k < plan.len() - position implies #[trigger] step_passes(
                    plan,
                    position,
                    outcomes,
                    k,
                ) by {
                    if k > 0 {
                        assert(step_passes(plan, position + 1, rest, k - 1));
                    }
                }
            }
            if outcomes.len() >= plan.len() - position && forall|k: int|
                0 <= k < plan.len() - position ==> #[trigger] step_passes(plan, position, outcomes, k) {
                assert forall|k: int| 0 <= k < plan.len() - (position + 1) implies #[trigger] step_passes(
                    plan,
                    position + 1,
                    rest,
                    k,
                ) by {
                    assert(step_passes(plan, position, outcomes, k + 1));
                }
            }
            if let RunEnd::Failed(e) = run_from(plan, position, outcomes) {
                let k = choose|k: int| #[trigger] first_failure(plan, position + 1, rest, k)
                    && step_error(plan[position + 1 + k], rest[k]) == Some(e);
                assert(rest[k] == outcomes[k + 1]);
                assert forall|j: int| 0 <= j < k + 1 implies #[trigger] step_passes(
                    plan,
                    position,
                    outcomes,
                    j,
                ) by {
                    if j > 0 {
                        assert(step_passes(plan, position + 1, rest, j - 1));
                    }
                }
                assert(first_failure(plan, position, outcomes, k + 1));
            }
            assert forall|k: int| #[trigger]
                first_failure(plan, position, outcomes, k) implies run_from(plan, position, outcomes)
                == RunEnd::Failed(step_error(plan[position + k], outcomes[k])->0) by {
                assert(k > 0);
                assert(rest[k - 1] == outcomes[k]);
                assert forall|j: int| 0 <= j < k - 1 implies #[trigger] step_passes(
                    plan,
                    position + 1,
                    rest,
                    j,
                ) by {
                    assert(step_passes(plan, position, outcomes, j + 1));
                }
                assert(first_failure(plan, position + 1, rest, k - 1));
            }
        } else {
            assert forall|k: int| #[trigger] first_failure(plan, position, outcomes, k) implies false by {
                assert(k == 0);
            }
        }
    }
}

/// Law: a run of a plan succeeds exactly when every step of the plan was
/// performed and none gave an error; it fails with an error exactly when some
/// step gives that error and every step before it passed, and then no step
/// after the failing one is performed.
pub proof fn law_render_run(plan: Seq<RenderStepView>, outcomes: Seq<StepOutcome>)
    ensures
        (run_plan(plan, outcomes) == RunEnd::Succeeded) == (outcomes.len() >= plan.len() && forall|
            i: int,
        | 0 <= i < plan.len() ==> #[trigger] step_error(plan[i], outcomes[i]) is None),
        run_plan(plan, outcomes) matches RunEnd::Failed(e) ==> exists|i: int|
            #[trigger] first_failure(plan, 0, outcomes, i) && step_error(plan[i], outcomes[i])
                == Some(e),
        forall|i: int| #[trigger]
            first_failure(plan, 0, outcomes, i) ==> run_plan(plan, outcomes) == RunEnd::Failed(
                step_error(plan[i], outcomes[i])->0,
            ),
        forall|i: int, later: Seq<StepOutcome>|
            #[trigger] first_failure(plan, 0, outcomes, i) && later.len() >= i + 1 && later.take(
                i + 1,
            ) == outcomes.take(i + 1) ==> #[trigger] run_plan(plan, later) == run_plan(
                plan,
                outcomes,
            ),
{
    lemma_run_from(plan, 0, outcomes);
    if run_plan(plan, outcomes) == RunEnd::Succeeded {
        assert forall|i: int| 0 <= i < plan.len() implies #[trigger] step_error(
            plan[i],
            outcomes[i],
        ) is None by {
            assert(step_passes(plan, 0, outcomes, i));
            assert(0 + i == i);
        }
    }
    if outcomes.len() >= plan.len() && forall|i: int|
        0 <= i < plan.len() ==> #[trigger] step_error(plan[i], outcomes[i]) is None {
        assert forall|k: int| 0 <= k < plan.len() - 0 implies #[trigger] step_passes(
            plan,
            0,
            outcomes,
            k,
        ) by {
            assert(0 + k == k);
            assert(step_error(plan[k], outcomes[k]) is None);
        }
    }
    assert forall|i: int, later: Seq<StepOutcome>|
        #[trigger] first_failure(plan, 0, outcomes, i) && later.len() >= i + 1 && later.take(i + 1)
            == outcomes.take(i + 1) implies #[trigger] run_plan(plan, later) == run_plan(
        plan,
        outcomes,
    ) by {
        lemma_run_from(plan, 0, later);
        assert forall|j: int| 0 <= j <= i implies later[j] == outcomes[j] by {
            assert(later.take(i + 1)[j] == outcomes.take(i + 1)[j]);
        }
        assert forall|j: int| 0 <= j < i implies #[trigger] step_passes(plan, 0, later, j) by {
            assert(step_passes(plan, 0, outcomes, j));
        }
        assert(first_failure(plan, 0, later, i));
    }
}

/// The outcome is one the step can have: writing the source was done or
/// failed, the program ran or did not start, the output was looked for.
pub open spec fn outcome_fits(step: RenderStepView, outcome: StepOutcome) -> bool {
    match step {
        RenderStepView::WriteSource { .. } => outcome is Written || outcome is WriteFailed,
        RenderStepView::RunProgram { .. } => outcome is Exited || outcome is NotStarted,
        RenderStepView::RequireOutput { .. } => outcome is OutputFound,
    }
}

/// Every outcome is one its step can have.
pub open spec fn outcomes_fit(plan: Seq<RenderStepView>, outcomes: Seq<StepOutcome>) -> bool {
    forall|i: int|
        0 <= i < plan.len() && i < outcomes.len() ==> outcome_fits(plan[i], #[trigger] outcomes[i])
}

/// A program that ran and exited successfully.
pub open spec fn exited_successfully(outcome: StepOutcome) -> bool {
    outcome matches StepOutcome::Exited { success, .. } && success
}

proof fn lemma_trim_start(text: Seq<char>)
    ensures
        exists|i: int|
            0 <= i <= text.len() && trim_start(text) == text.skip(i) && forall|k: int|
                0 <= k < i ==> is_unicode_whitespace(#[trigger] text[k]),
        trim_start(text).len() > 0 ==> !is_unicode_whitespace(trim_start(text)[0]),
    decreases text.len(),
{
    if text.len() > 0 && is_unicode_whitespace(text[0]) {
        let rest = text.drop_first();
        lemma_trim_start(rest);
        let i = choose|i: int|
            0 <= i <= rest.len() && trim_start(rest) == rest.skip(i) && forall|k: int|
                0 <= k < i ==> is_unicode_whitespace(#[trigger] rest[k]);
        assert(rest.skip(i) =~= text.skip(i + 1));
        assert forall|k: int| 0 <= k < i + 1 implies is_unicode_whitespace(#[trigger] text[k]) by {
            if k > 0 {
                assert(text[k] == rest[k - 1]);
            }
        }
    } else {
        assert(text.skip(0) =~= text);
    }
}

proof fn lemma_trim_end(text: Seq<char>)
    ensures
        exists|j: int|
            0 <= j <= text.len() && trim_end(text) == text.take(j) && forall|k: int|
                j <= k < text.len() ==> is_unicode_whitespace(#[trigger] text[k]),
        trim_end(text).len() > 0 ==> !is_unicode_whitespace(trim_end(text).last()),
    decreases text.len(),
{
    if text.len() > 0 && is_unicode_whitespace(text.last()) {
        let rest = text.drop_last();
        lemma_trim_end(rest);
        let j = choose|j: int|
            0 <= j <= rest.len() && trim_end(rest) == rest.take(j) && forall|k: int|
                j <= k < rest.len() ==> is_unicode_whitespace(#[trigger] rest[k]);
        assert(rest.take(j) =~= text.take(j));
        assert forall|k: int| j <= k < text.len() implies is_unicode_whitespace(#[trigger] text[k]) by {
            if k < text.len() - 1 {
                assert(text[k] == rest[k]);
            }
        }
    } else {
        assert(text.take(text.len() as int) =~= text);
    }
}

/// Law: trimming keeps one contiguous stretch of the text, removes only
/// whitespace (of the Unicode `White_Space` property) before and after it, and
/// leaves no whitespace at either end.
pub proof fn law_trimmed(text: Seq<char>)
    ensures
        exists|i: int, j: int|
            0 <= i <= j <= text.len() && trimmed(text) == text.subrange(i, j) && (forall|k: int|
                0 <= k < i ==> is_unicode_whitespace(#[trigger] text[k])) && (forall|k: int|
                j <= k < text.len() ==> is_unicode_whitespace(#[trigger] text[k])),
        trimmed(text).len() > 0 ==> !is_unicode_whitespace(trimmed(text)[0])
            && !is_unicode_whitespace(trimmed(text).last()),
{
    lemma_trim_start(text);
    let start = trim_start(text);
    lemma_trim_end(start);
    let i = choose|i: int|
        0 <= i <= text.len() && trim_start(text) == text.skip(i) && forall|k: int|
            0 <= k < i ==> is_unicode_whitespace(#[trigger] text[k]);
    let j = choose|j: int|
        0 <= j <= start.len() && trim_end(start) == start.take(j) && forall|k: int|
            j <= k < start.len() ==> is_unicode_whitespace(#[trigger] start[k]);
    assert(start.take(j) =~= text.subrange(i, i + j));
    assert forall|k: int| i + j <= k < text.len() implies is_unicode_whitespace(
        #[trigger] text[k],
    ) by {
        assert(text[k] == start[k - i]);
    }
    assert(trimmed(text) == text.subrange(i, i + j));
    if trimmed(text).len() > 0 {
        assert(trimmed(text)[0] == start[0]);
    }
}

/// Law: what each step reports. A failed write is the step's I/O operation
/// with the error's description; a program that did not start is a missing
/// dependency or a failed start; a program that exited unsuccessfully is a
/// process failure with its command, exit code, the step's summary and its
/// trimmed standard error; a missing output file is a process failure of the
/// program with the summary "<program> 未生成 <file>"; everything else goes on.
pub proof fn law_step_errors(step: RenderStepView, outcome: StepOutcome)
    ensures
        step is WriteSource && outcome is WriteFailed ==> step_error(step, outcome) == Some(
            AppErrorView::IoError {
                operation: step->WriteSource_operation,
                message: outcome->WriteFailed_0@,
            },
        ),
        step is WriteSource && !(outcome is WriteFailed) ==> step_error(step, outcome) is None,
        step is RunProgram && outcome is NotStarted ==> step_error(step, outcome) == Some(
            start_error_view(
                step->RunProgram_command,
                step->RunProgram_purpose,
                outcome->NotStarted_0.not_found,
                outcome->NotStarted_0.message@,
            ),
        ),
        step is RunProgram && outcome is Exited && !outcome->Exited_success ==> step_error(
            step,
            outcome,
        ) == Some(
            AppErrorView::ProcessFailed {
                command: step->RunProgram_command,
                exit_code: outcome->Exited_exit_code,
                summary: step->RunProgram_failure_summary,
                stderr: stderr_text(outcome->Exited_stderr@),
            },
        ),
        step is RunProgram && outcome is Exited && outcome->Exited_success ==> step_error(
            step,
            outcome,
        ) is None,
        step is RequireOutput && outcome == StepOutcome::OutputFound(false) ==> step_error(
            step,
            outcome,
        ) == Some(
            AppErrorView::ProcessFailed {
                command: step->RequireOutput_program,
                exit_code: None,
                summary: step->RequireOutput_program + " 未生成 "@ + step->RequireOutput_file,
                stderr: Seq::empty(),
            },
        ),
        step is RequireOutput && outcome == StepOutcome::OutputFound(true) ==> step_error(
            step,
            outcome,
        ) is None,
{
}

} // verus!
