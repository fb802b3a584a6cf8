//! What the library has to tell its caller apart from its results: the
//! configuration lines and files that contributed less than they name.

use vstd::prelude::*;

verus! {

/// One thing that went wrong while the protected paths were read. None of
/// them stops the reading.
#[derive(Debug, PartialEq, Eq)]
pub enum Warning {
    /// The configuration file exists but could not be opened.
    CannotOpen { file: String },
    /// A line of the file could not be read.
    UnreadableLine { file: String },
    /// A line of the file is no pattern.
    InvalidPattern { file: String, line: String },
    /// A path could not be read while the line's pattern was matched.
    UnreadableMatch { file: String, line: String },
    /// The line's pattern matches more paths than one line may contribute.
    Truncated { file: String, line: String },
}

/// A warning, with the texts that it names.
pub enum WarningText {
    CannotOpen { file: Seq<char> },
    UnreadableLine { file: Seq<char> },
    InvalidPattern { file: Seq<char>, line: Seq<char> },
    UnreadableMatch { file: Seq<char>, line: Seq<char> },
    Truncated { file: Seq<char>, line: Seq<char> },
}

impl View for Warning {
    type V = WarningText;

    open spec fn view(&self) -> WarningText {
        match self {
            Warning::CannotOpen { file } => WarningText::CannotOpen { file: file@ },
            Warning::UnreadableLine { file } => WarningText::UnreadableLine { file: file@ },
            Warning::InvalidPattern { file, line } => WarningText::InvalidPattern {
                file: file@,
                line: line@,
            },
            Warning::UnreadableMatch { file, line } => WarningText::UnreadableMatch {
                file: file@,
                line: line@,
            },
            Warning::Truncated { file, line } => WarningText::Truncated {
                file: file@,
                line: line@,
            },
        }
    }
}

/// The warnings that a vector holds, in order.
pub open spec fn warning_views(v: Seq<Warning>) -> Seq<WarningText> {
    Seq::new(v.len(), |i: int| v[i]@)
}

/// The line in which a warning is told to the user.
pub open spec fn message_text(w: WarningText) -> Seq<char> {
    match w {
        WarningText::CannotOpen { file } => "safe-rm: Could not open configuration file: "@ + file,
        WarningText::UnreadableLine { file } => "safe-rm: Ignoring unreadable line in "@ + file
            + "."@,
        WarningText::InvalidPattern { file, line } => "safe-rm: Invalid glob pattern \""@ + line
            + "\" found in "@ + file + " and ignored."@,
        WarningText::UnreadableMatch { file, line } =>
            "safe-rm: Ignored unreadable path while expanding glob \""@ + line + "\" from "@
                + file + "."@,
        WarningText::Truncated { file, line } => "safe-rm: Glob \""@ + line + "\" found in "@
            + file + " expands to more than 256 paths. Ignoring the rest."@,
    }
}

/// The line in which the user is told that an argument was held back.
pub open spec fn skip_notice_text(arg: Seq<char>) -> Seq<char> {
    "safe-rm: Skipping "@ + arg + "."@
}

impl Warning {
    /// The line in which the warning is told to the user.
    pub fn message(&self) -> (r: String)
        ensures
            r@ == message_text(self@),
    {
        match self {
            Warning::CannotOpen { file } => {
                let mut m = String::from_str("safe-rm: Could not open configuration file: ");
                m.append(file.as_str());
                m
            },
            Warning::UnreadableLine { file } => {
                let mut m = String::from_str("safe-rm: Ignoring unreadable line in ");
                m.append(file.as_str());
                m.append(".");
                m
            },
            Warning::InvalidPattern { file, line } => {
                let mut m = String::from_str("safe-rm: Invalid glob pattern \"");
                m.append(line.as_str());
                m.append("\" found in ");
                m.append(file.as_str());
                m.append(" and ignored.");
                m
            },
            Warning::UnreadableMatch { file, line } => {
                let mut m = String::from_str(
                    "safe-rm: Ignored unreadable path while expanding glob \"",
                );
                m.append(line.as_str());
                m.append("\" from ");
                m.append(file.as_str());
                m.append(".");
                m
            },
            Warning::Truncated { file, line } => {
                let mut m = String::from_str("safe-rm: Glob \"");
                m.append(line.as_str());
                m.append("\" found in ");
                m.append(file.as_str());
                m.append(" expands to more than 256 paths. Ignoring the rest.");
                m
            },
        }
    }
}

/// The line in which the user is told that `arg` was held back.
pub fn skip_notice(arg: &str) -> (r: String)
    ensures
        r@ == skip_notice_text(arg@),
{
    let mut m = String::from_str("safe-rm: Skipping ");
    m.append(arg);
    m.append(".");
    m
}

} // verus!
