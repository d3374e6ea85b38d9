//! The errors that an export reports to the user.
use vstd::prelude::*;

verus! {

/// Why a program could not be started: whether it was not found, and the
/// system's description of the failure.
pub struct StartFailure {
    pub not_found: bool,
    pub message: String,
}

/// The error of an export.
pub enum AppError {
    MissingDependency { command: String, purpose: String },
    ProcessFailed { command: String, exit_code: Option<i32>, summary: String, stderr: String },
    InvalidInput { message: String },
    ClipboardFailed { message: String, detail: Option<String> },
    IoError { operation: String, message: String },
}

pub type AppResult<T> = Result<T, AppError>;

/// An `AppError` with its text as character sequences.
pub enum AppErrorView {
    MissingDependency { command: Seq<char>, purpose: Seq<char> },
    ProcessFailed {
        command: Seq<char>,
        exit_code: Option<i32>,
        summary: Seq<char>,
        stderr: Seq<char>,
    },
    InvalidInput { message: Seq<char> },
    ClipboardFailed { message: Seq<char>, detail: Option<Seq<char>> },
    IoError { operation: Seq<char>, message: Seq<char> },
}

impl View for AppError {
    type V = AppErrorView;

    open spec fn view(&self) -> AppErrorView {
        match self {
            AppError::MissingDependency { command, purpose } => AppErrorView::MissingDependency {
                command: command@,
                purpose: purpose@,
            },
            AppError::ProcessFailed { command, exit_code, summary, stderr } =>
                AppErrorView::ProcessFailed {
                command: command@,
                exit_code: *exit_code,
                summary: summary@,
                stderr: stderr@,
            },
            AppError::InvalidInput { message } => AppErrorView::InvalidInput { message: message@ },
            AppError::ClipboardFailed { message, detail } => AppErrorView::ClipboardFailed {
                message: message@,
                detail: match detail {
                    Some(d) => Some(d@),
                    None => None,
                },
            },
            AppError::IoError { operation, message } => AppErrorView::IoError {
                operation: operation@,
                message: message@,
            },
        }
    }
}

/// The error for a program that could not be started: a missing dependency
/// when it was not found, otherwise a failed I/O operation "启动 <command>".
pub open spec fn start_error_view(
    command: Seq<char>,
    purpose: Seq<char>,
    not_found: bool,
    message: Seq<char>,
) -> AppErrorView {
    if not_found {
        AppErrorView::MissingDependency { command, purpose }
    } else {
        AppErrorView::IoError { operation: "启动 "@ + command, message }
    }
}

/// Law: a program that could not be started is a missing dependency exactly
/// when it was not found; any other start failure is a failed I/O operation.
pub proof fn law_only_not_found_is_missing_dependency(
    command: Seq<char>,
    purpose: Seq<char>,
    not_found: bool,
    message: Seq<char>,
)
    ensures
        (start_error_view(command, purpose, not_found, message) is MissingDependency) == not_found,
        !not_found ==> start_error_view(command, purpose, not_found, message) is IoError,
{
}

impl AppErrorView {
    /// The text shown to the user.
    pub open spec fn message(self) -> Seq<char> {
        match self {
            AppErrorView::MissingDependency { command, purpose } => "未找到 "@ + command + "（"@
                + purpose + "）"@,
            AppErrorView::ProcessFailed { summary, .. } => summary,
            AppErrorView::InvalidInput { message } => message,
            AppErrorView::ClipboardFailed { message, .. } => message,
            AppErrorView::IoError { operation, message } => operation + "失败："@ + message,
        }
    }
}

impl AppError {
    pub fn from_start_error(command: &str, purpose: &str, error: StartFailure) -> (r: Self)
        ensures
            r@ == start_error_view(command@, purpose@, error.not_found, error.message@),
    {
        if error.not_found {
            AppError::MissingDependency {
                command: String::from_str(command),
                purpose: String::from_str(purpose),
            }
        } else {
            let mut operation = String::from_str("启动 ");
            operation.append(command);
            AppError::io(operation.as_str(), error.message.as_str())
        }
    }

    pub fn process_failed(command: &str, exit_code: Option<i32>, summary: &str, stderr: &str) -> (r:
        Self)
        ensures
            r@ == (AppErrorView::ProcessFailed {
                command: command@,
                exit_code,
                summary: summary@,
                stderr: stderr@,
            }),
    {
        AppError::ProcessFailed {
            command: String::from_str(command),
            exit_code,
            summary: String::from_str(summary),
            stderr: String::from_str(stderr),
        }
    }

    /// A failed I/O operation with the description of its error.
    pub fn io(operation: &str, message: &str) -> (r: Self)
        ensures
            r@ == (AppErrorView::IoError { operation: operation@, message: message@ }),
    {
        AppError::IoError {
            operation: String::from_str(operation),
            message: String::from_str(message),
        }
    }

    /// The text shown to the user.
    pub fn message(&self) -> (text: String)
        ensures
            text@ == self@.message(),
    {
        match self {
            AppError::MissingDependency { command, purpose } => {
                let mut text = String::from_str("未找到 ");
                text.append(command.as_str());
                text.append("（");
                text.append(purpose.as_str());
                text.append("）");
                text
            },
            AppError::ProcessFailed { summary, .. } => summary.clone(),
            AppError::InvalidInput { message } => message.clone(),
            AppError::ClipboardFailed { message, .. } => message.clone(),
            AppError::IoError { operation, message } => {
                let mut text = operation.clone();
                text.append("失败：");
                text.append(message.as_str());
                text
            },
        }
    }
}

/// Law: a program that was not found is reported with its command and the
/// purpose it serves; one that failed to start otherwise is the failed I/O
/// operation "启动 " followed by the command, with the system's description.
pub proof fn law_start_error_fields(
    command: Seq<char>,
    purpose: Seq<char>,
    not_found: bool,
    message: Seq<char>,
)
    ensures
        not_found ==> start_error_view(command, purpose, not_found, message) == (
        AppErrorView::MissingDependency { command, purpose }),
        !not_found ==> start_error_view(command, purpose, not_found, message) == (
        AppErrorView::IoError { operation: "启动 "@ + command, message }),
{
}

/// Law: the text shown for each error: "未找到 <command>（<purpose>）" for a
/// missing program, the summary of a failed process, the message of invalid
/// input or a clipboard failure, and "<operation>失败：<message>" for a failed
/// I/O operation.
pub proof fn law_error_messages(error: AppErrorView)
    ensures
        error matches AppErrorView::MissingDependency { command, purpose } ==> error.message()
            == "未找到 "@ + command + "（"@ + purpose + "）"@,
        error matches AppErrorView::ProcessFailed { summary, .. } ==> error.message() == summary,
        error matches AppErrorView::InvalidInput { message } ==> error.message() == message,
        error matches AppErrorView::ClipboardFailed { message, .. } ==> error.message() == message,
        error matches AppErrorView::IoError { operation, message } ==> error.message() == operation
            + "失败："@ + message,
{
}

} // verus!
