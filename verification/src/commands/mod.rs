//! Command results: output lines with their display kind, and shell errors.

pub mod ai;
pub mod builtins;
pub mod executor;

use vstd::prelude::*;

verus! {

/// How an output line is shown.
#[derive(Debug, Clone, Copy, PartialEq, Eq, Structural)]
pub enum LineKind {
    Normal,
    Ai,
    AiHeader,
    Success,
    Warning,
    Error,
    Dim,
}

/// One line of command output.
#[derive(Debug, Clone)]
pub struct OutputLine {
    pub text: String,
    pub kind: LineKind,
}

/// A command failure, with the message shown to the user.
#[derive(Debug)]
pub struct ShellError(pub String);

/// What a finished child process produced: whether it succeeded, its exit
/// code (none when a signal ended it), and its raw standard output and error.
pub struct ProcessOutput {
    pub success: bool,
    pub code: Option<i32>,
    pub stdout: Vec<u8>,
    pub stderr: Vec<u8>,
}

/// The output of a command, or the reason it failed.
pub type CommandResult = Result<Vec<OutputLine>, ShellError>;

/// An output line taken as its kind and its characters.
pub struct LineSpec {
    pub kind: LineKind,
    pub text: Seq<char>,
}

impl View for OutputLine {
    type V = LineSpec;

    open spec fn view(&self) -> LineSpec {
        LineSpec { kind: self.kind, text: self.text@ }
    }
}

/// A line of the given kind and text.
pub open spec fn line(kind: LineKind, text: Seq<char>) -> LineSpec {
    LineSpec { kind, text }
}

/// Output lines taken as kinds and characters.
pub open spec fn lines_view(v: Seq<OutputLine>) -> Seq<LineSpec> {
    v.map_values(|l: OutputLine| l@)
}

/// A command result: the lines, or the error message.
pub open spec fn result_view(r: CommandResult) -> Result<Seq<LineSpec>, Seq<char>> {
    match r {
        Ok(v) => Ok(lines_view(v@)),
        Err(e) => Err(e.0@),
    }
}

/// Each line of `text` as an output line of the given kind.
pub open spec fn text_lines(text: Seq<char>, kind: LineKind) -> Seq<LineSpec> {
    crate::text::lines_of(text).map_values(|l: Seq<char>| line(kind, l))
}

/// Appends each line of `text` as an output line of the given kind.
pub fn push_text_lines(v: &mut Vec<OutputLine>, text: &str, kind: LineKind)
    ensures
        lines_view(final(v)@) == lines_view(old(v)@) + text_lines(text@, kind),
{
    let ls = crate::text::split_lines(text);
    let ghost start = lines_view(v@);
    let ghost m = v@.len();
    let n = ls.len();
    let mut i: usize = 0;
    while i < n
        invariant
            i <= n,
            n == ls@.len(),
            crate::text::strings_view(ls@) == crate::text::lines_of(text@),
            v@.len() == m + i,
            m == start.len(),
            forall|k: int| 0 <= k < m ==> (#[trigger] v@[k])@ == start[k],
            forall|k: int|
                0 <= k < i ==> (#[trigger] v@[m + k])@ == line(
                    kind,
                    crate::text::strings_view(ls@)[k],
                ),
        decreases n - i,
    {
        v.push(OutputLine { text: ls[i].clone(), kind });
        i = i + 1;
    }
    assert forall|k: int| 0 <= k < v@.len() implies lines_view(v@)[k] == (start + text_lines(
        text@,
        kind,
    ))[k] by {
        if k >= m {
            assert(v@[m + (k - m)]@ == line(kind, crate::text::strings_view(ls@)[k - m]));
        }
    }
    assert(lines_view(v@) =~= start + text_lines(text@, kind));
}

impl ShellError {
    /// The error message (what `Display` shows).
    pub fn to_string(&self) -> (s: String)
        ensures
            s@ == self.0@,
    {
        self.0.clone()
    }
}

impl OutputLine {
    /// A plain output line.
    pub fn normal(text: String) -> (l: Self)
        ensures
            l@ == line(LineKind::Normal, text@),
    {
        OutputLine { text, kind: LineKind::Normal }
    }

    /// A line of an AI answer.
    pub fn ai(text: String) -> (l: Self)
        ensures
            l@ == line(LineKind::Ai, text@),
    {
        OutputLine { text, kind: LineKind::Ai }
    }

    /// A heading around an AI answer.
    pub fn ai_header(text: String) -> (l: Self)
        ensures
            l@ == line(LineKind::AiHeader, text@),
    {
        OutputLine { text, kind: LineKind::AiHeader }
    }

    /// A line reporting success.
    pub fn success(text: String) -> (l: Self)
        ensures
            l@ == line(LineKind::Success, text@),
    {
        OutputLine { text, kind: LineKind::Success }
    }

    /// A warning line.
    pub fn warning(text: String) -> (l: Self)
        ensures
            l@ == line(LineKind::Warning, text@),
    {
        OutputLine { text, kind: LineKind::Warning }
    }

    /// An error line.
    pub fn error(text: String) -> (l: Self)
        ensures
            l@ == line(LineKind::Error, text@),
    {
        OutputLine { text, kind: LineKind::Error }
    }

    /// A dimmed, secondary line.
    pub fn dim(text: String) -> (l: Self)
        ensures
            l@ == line(LineKind::Dim, text@),
    {
        OutputLine { text, kind: LineKind::Dim }
    }
}

} // verus!
