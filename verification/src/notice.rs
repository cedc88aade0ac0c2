//! What a run tells the user.

use vstd::prelude::*;

verus! {

/// How one invocation of the decryption tool ended.
#[derive(Clone, Debug, PartialEq, Eq)]
pub enum Outcome {
    /// The tool ran and exited with status zero.
    Success,
    /// The tool ran and exited with another status.
    Failed,
    /// The tool could not be started.
    LaunchError { cause: String },
}

/// An [`Outcome`] as a mathematical value.
pub enum OutcomeView {
    Success,
    Failed,
    LaunchError { cause: Seq<char> },
}

impl View for Outcome {
    type V = OutcomeView;

    open spec fn view(&self) -> OutcomeView {
        match self {
            Outcome::Success => OutcomeView::Success,
            Outcome::Failed => OutcomeView::Failed,
            Outcome::LaunchError { cause } => OutcomeView::LaunchError { cause: cause@ },
        }
    }
}

/// One line for the user.
#[derive(Clone, Debug, PartialEq, Eq)]
pub enum Notice {
    /// The program was not called with exactly one argument.
    Usage { program: String },
    /// The decryption tool is not available.
    ToolMissing,
    /// The source directory is missing or is no directory.
    LockedMissing { path: String },
    /// The destination directory was missing and has been created.
    CreatedUnlocked { path: String },
    /// The destination directory could not be created.
    CreateFailed { path: String, cause: String },
    /// The source directory could not be listed.
    ListFailed { path: String, cause: String },
    /// The tool is about to run on `source`.
    Unlocking { source: String },
    /// The tool wrote `destination`.
    Unlocked { destination: String },
    /// The tool ran on `source` and reported failure.
    UnlockFailed { source: String },
    /// The tool could not be started on `source`.
    LaunchFailed { source: String, cause: String },
}

/// A [`Notice`] as a mathematical value.
pub enum NoticeView {
    Usage { program: Seq<char> },
    ToolMissing,
    LockedMissing { path: Seq<char> },
    CreatedUnlocked { path: Seq<char> },
    CreateFailed { path: Seq<char>, cause: Seq<char> },
    ListFailed { path: Seq<char>, cause: Seq<char> },
    Unlocking { source: Seq<char> },
    Unlocked { destination: Seq<char> },
    UnlockFailed { source: Seq<char> },
    LaunchFailed { source: Seq<char>, cause: Seq<char> },
}

impl View for Notice {
    type V = NoticeView;

    open spec fn view(&self) -> NoticeView {
        match self {
            Notice::Usage { program } => NoticeView::Usage { program: program@ },
            Notice::ToolMissing => NoticeView::ToolMissing,
            Notice::LockedMissing { path } => NoticeView::LockedMissing { path: path@ },
            Notice::CreatedUnlocked { path } => NoticeView::CreatedUnlocked { path: path@ },
            Notice::CreateFailed { path, cause } => NoticeView::CreateFailed {
                path: path@,
                cause: cause@,
            },
            Notice::ListFailed { path, cause } => NoticeView::ListFailed {
                path: path@,
                cause: cause@,
            },
            Notice::Unlocking { source } => NoticeView::Unlocking { source: source@ },
            Notice::Unlocked { destination } => NoticeView::Unlocked {
                destination: destination@,
            },
            Notice::UnlockFailed { source } => NoticeView::UnlockFailed { source: source@ },
            Notice::LaunchFailed { source, cause } => NoticeView::LaunchFailed {
                source: source@,
                cause: cause@,
            },
        }
    }
}

impl NoticeView {
    /// Whether the line belongs on the error stream. Progress and
    /// confirmations go to standard output, everything else does not.
    pub open spec fn is_error(self) -> bool {
        !(self is CreatedUnlocked || self is Unlocking || self is Unlocked)
    }

    /// The line, without its line break.
    pub open spec fn text(self) -> Seq<char> {
        match self {
            NoticeView::Usage { program } => "Usage: "@ + program + " <base_directory>"@,
            NoticeView::ToolMissing =>
                "Error: 'qpdf' is not installed. Please install it and try again."@,
            NoticeView::LockedMissing { path } => "Error: '"@ + path
                + "' directory does not exist or is not a directory."@,
            NoticeView::CreatedUnlocked { path } => "Created missing '"@ + path + "' directory."@,
            NoticeView::CreateFailed { path, cause } => "Error creating '"@ + path + "': "@
                + cause,
            NoticeView::ListFailed { path, cause } => "Error reading '"@ + path + "': "@ + cause,
            NoticeView::Unlocking { source } => "Unlocking: "@ + source,
            NoticeView::Unlocked { destination } => "Unlocked: "@ + destination,
            NoticeView::UnlockFailed { source } => "Failed to unlock: "@ + source,
            NoticeView::LaunchFailed { source, cause } => "Error running qpdf on '"@ + source
                + "': "@ + cause,
        }
    }
}

impl Notice {
    /// Whether the line belongs on the error stream.
    pub fn is_error(&self) -> (error: bool)
        ensures
            error == self@.is_error(),
    {
        match self {
            Notice::CreatedUnlocked { .. } => false,
            Notice::Unlocking { .. } => false,
            Notice::Unlocked { .. } => false,
            _ => true,
        }
    }

    /// The line, without its line break.
    pub fn text(&self) -> (line: String)
        ensures
            line@ == self@.text(),
    {
        match self {
            Notice::Usage { program } => String::from_str("Usage: ").concat(
                program.as_str(),
            ).concat(" <base_directory>"),
            Notice::ToolMissing => String::from_str(
                "Error: 'qpdf' is not installed. Please install it and try again.",
            ),
            Notice::LockedMissing { path } => String::from_str("Error: '").concat(
                path.as_str(),
            ).concat("' directory does not exist or is not a directory."),
            Notice::CreatedUnlocked { path } => String::from_str("Created missing '").concat(
                path.as_str(),
            ).concat("' directory."),
            Notice::CreateFailed { path, cause } => String::from_str("Error creating '").concat(
                path.as_str(),
            ).concat("': ").concat(cause.as_str()),
            Notice::ListFailed { path, cause } => String::from_str("Error reading '").concat(
                path.as_str(),
            ).concat("': ").concat(cause.as_str()),
            Notice::Unlocking { source } => String::from_str("Unlocking: ").concat(
                source.as_str(),
            ),
            Notice::Unlocked { destination } => String::from_str("Unlocked: ").concat(
                destination.as_str(),
            ),
            Notice::UnlockFailed { source } => String::from_str("Failed to unlock: ").concat(
                source.as_str(),
            ),
            Notice::LaunchFailed { source, cause } => String::from_str(
                "Error running qpdf on '",
            ).concat(source.as_str()).concat("': ").concat(cause.as_str()),
        }
    }
}

/// The report on one finished invocation of the tool.
pub open spec fn spec_verdict(
    source: Seq<char>,
    destination: Seq<char>,
    outcome: OutcomeView,
) -> NoticeView {
    match outcome {
        OutcomeView::Success => NoticeView::Unlocked { destination },
        OutcomeView::Failed => NoticeView::UnlockFailed { source },
        OutcomeView::LaunchError { cause } => NoticeView::LaunchFailed { source, cause },
    }
}

/// The report on one finished invocation of the tool, which read `source`
/// and was to write `destination`.
pub fn verdict(source: String, destination: String, outcome: Outcome) -> (notice: Notice)
    ensures
        notice@ == spec_verdict(source@, destination@, outcome@),
{
    match outcome {
        Outcome::Success => Notice::Unlocked { destination },
        Outcome::Failed => Notice::UnlockFailed { source },
        Outcome::LaunchError { cause } => Notice::LaunchFailed { source, cause },
    }
}

} // verus!
