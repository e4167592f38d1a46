//! External commands: how a command line is prepared for the system shell,
//! and the output made of what the process produced.

use vstd::prelude::*;

use crate::commands::{
    line, lines_view, push_text_lines, result_view, text_lines, CommandResult, LineKind, LineSpec,
    OutputLine, ProcessOutput, ShellError,
};
use crate::text::{
    concat2, concat3, decode_lossy, fmt_i32, signed_decimal, to_chars, trim, trim_str, utf8_lossy,
};

verus! {

/// The text without its trailing run of `c`.
pub open spec fn trim_end_char(s: Seq<char>, c: char) -> Seq<char>
    decreases s.len(),
{
    if s.len() > 0 && s.last() == c {
        trim_end_char(s.drop_last(), c)
    } else {
        s
    }
}

/// How a command line runs: nothing for a blank line; otherwise whether it
/// runs in the background (a trailing `&`) and the command text, trimmed,
/// without its trailing `&`s.
pub open spec fn external_plan_spec(raw: Seq<char>) -> Option<(bool, Seq<char>)> {
    let command = trim(raw);
    if command.len() == 0 {
        None
    } else {
        Some((command.last() == '&', trim(trim_end_char(command, '&'))))
    }
}

proof fn lemma_trim_end_char(s: Seq<char>, c: char, j: int)
    requires
        0 <= j <= s.len(),
        forall|k: int| j <= k < s.len() ==> #[trigger] s[k] == c,
        j == 0 || s[j - 1] != c,
    ensures
        trim_end_char(s, c) == s.subrange(0, j),
    decreases s.len() - j,
{
    if j < s.len() {
        lemma_trim_end_char(s.drop_last(), c, j);
        assert(s.drop_last().subrange(0, j) =~= s.subrange(0, j));
    } else {
        assert(s.subrange(0, j) =~= s);
    }
}

/// How a command line runs (see `external_plan_spec`).
pub fn plan_external(raw: &str) -> (r: Option<(bool, &str)>)
    ensures
        match r {
            None => external_plan_spec(raw@) is None,
            Some((background, command)) => external_plan_spec(raw@) == Some(
                (background, command@),
            ),
        },
{
    let command = trim_str(raw);
    let chars = to_chars(command);
    let n = chars.len();
    if n == 0 {
        return None;
    }
    let background = chars[n - 1] == '&';
    let mut j: usize = n;
    while j > 0 && chars[j - 1] == '&'
        invariant
            j <= n,
            n == chars@.len(),
            chars@ == command@,
            forall|k: int| j <= k < n ==> #[trigger] chars@[k] == '&',
        decreases j,
    {
        j = j - 1;
    }
    proof {
        lemma_trim_end_char(command@, '&', j as int);
    }
    let stripped = trim_str(command.substring_char(0, j));
    Some((background, stripped))
}

/// The note shown for a command started in the background:
/// `[background pid <pid>] <command>`, or the failure to start it.
pub fn background_started(command: &str, pid: Result<u32, String>) -> (r: CommandResult)
    ensures
        pid matches Err(e) ==> (r matches Err(err) && err.0@
            == "failed to start background command: "@ + e@),
        pid matches Ok(p) ==> result_view(r) == Ok::<Seq<LineSpec>, Seq<char>>(
            seq![
                line(
                    LineKind::Dim,
                    "[background pid "@ + crate::text::decimal(p as nat) + "] "@ + command@,
                ),
            ],
        ),
{
    match pid {
        Err(e) => Err(ShellError(concat2("failed to start background command: ", e.as_str()))),
        Ok(p) => {
            let number = crate::text::fmt_u64(p as u64);
            let head = concat3("[background pid ", number.as_str(), "] ");
            let mut v: Vec<OutputLine> = Vec::new();
            v.push(OutputLine::dim(concat2(head.as_str(), command)));
            assert(lines_view(v@) =~= seq![v@[0]@]);
            Ok(v)
        },
    }
}

/// The exit code recorded for a finished command: its code, or 1 when a
/// signal ended it.
pub open spec fn exit_code_spec(code: Option<i32>) -> i32 {
    match code {
        Some(c) => c,
        None => 1,
    }
}

/// The exit code recorded for a finished command (see `exit_code_spec`).
pub fn exit_code(output: &ProcessOutput) -> (c: i32)
    ensures
        c == exit_code_spec(output.code),
{
    match output.code {
        Some(c) => c,
        None => 1,
    }
}

/// The lines shown for a finished command: its standard output lines, then
/// its error output lines, then `[exit <code>]` when it failed.
pub open spec fn finished_spec(success: bool, code: Option<i32>, stdout: Seq<char>, stderr: Seq<char>) -> Seq<LineSpec> {
    text_lines(stdout, LineKind::Normal) + text_lines(stderr, LineKind::Error) + if success {
        Seq::<LineSpec>::empty()
    } else {
        seq![line(LineKind::Dim, "[exit "@ + signed_decimal(exit_code_spec(code) as int) + "]"@)]
    }
}

/// The lines shown for a finished command (see `finished_spec`).
pub fn finished_lines(success: bool, code: Option<i32>, stdout: &str, stderr: &str) -> (r: Vec<
    OutputLine,
>)
    ensures
        lines_view(r@) == finished_spec(success, code, stdout@, stderr@),
{
    let mut v: Vec<OutputLine> = Vec::new();
    assert(lines_view(v@) =~= Seq::<LineSpec>::empty());
    push_text_lines(&mut v, stdout, LineKind::Normal);
    push_text_lines(&mut v, stderr, LineKind::Error);
    let ghost before = lines_view(v@);
    if !success {
        let c: i32 = match code {
            Some(c) => c,
            None => 1,
        };
        let number = fmt_i32(c);
        v.push(OutputLine::dim(concat3("[exit ", number.as_str(), "]")));
        assert(lines_view(v@) =~= before + seq![
            line(LineKind::Dim, "[exit "@ + signed_decimal(exit_code_spec(code) as int) + "]"@),
        ]);
    } else {
        assert(before + Seq::<LineSpec>::empty() =~= before);
    }
    assert(Seq::<LineSpec>::empty() + text_lines(stdout@, LineKind::Normal) =~= text_lines(
        stdout@,
        LineKind::Normal,
    ));
    v
}

/// The result of a foreground command (see `finished_spec`, over the decoded
/// output), or `"failed to execute command: <reason>"`.
pub fn foreground_finished(output: Result<ProcessOutput, String>) -> (r: CommandResult)
    ensures
        output matches Err(e) ==> (r matches Err(err) && err.0@ == "failed to execute command: "@
            + e@),
        output matches Ok(o) ==> result_view(r) == Ok::<Seq<LineSpec>, Seq<char>>(
            finished_spec(o.success, o.code, utf8_lossy(o.stdout@), utf8_lossy(o.stderr@)),
        ),
{
    match output {
        Err(e) => Err(ShellError(concat2("failed to execute command: ", e.as_str()))),
        Ok(o) => {
            let out = decode_lossy(o.stdout.as_slice());
            let err = decode_lossy(o.stderr.as_slice());
            Ok(finished_lines(o.success, o.code, out.as_str(), err.as_str()))
        },
    }
}

/// A finished command shows every line of its standard output as a normal
/// line, then every line of its standard error as an error line, whether it
/// succeeded or not; a failed one adds a last `[exit <code>]` line, and that
/// line is all that success leaves out.
pub proof fn lemma_finished_shows_all_output(
    success: bool,
    code: Option<i32>,
    stdout: Seq<char>,
    stderr: Seq<char>,
)
    ensures
        ({
            let f = finished_spec(success, code, stdout, stderr);
            let o = crate::text::lines_of(stdout);
            let e = crate::text::lines_of(stderr);
            &&& f.len() == o.len() + e.len() + if success {
                0int
            } else {
                1int
            }
            &&& forall|i: int| 0 <= i < o.len() ==> #[trigger] f[i] == line(LineKind::Normal, o[i])
            &&& forall|i: int|
                0 <= i < e.len() ==> #[trigger] f[o.len() + i] == line(LineKind::Error, e[i])
            &&& !success ==> f.last() == line(
                LineKind::Dim,
                "[exit "@ + signed_decimal(
                    match code {
                        Some(c) => c as int,
                        None => 1,
                    },
                ) + "]"@,
            )
        }),
        finished_spec(true, code, stdout, stderr) == finished_spec(false, code, stdout, stderr).drop_last(),
{
    let o = crate::text::lines_of(stdout);
    let e = crate::text::lines_of(stderr);
    let f = finished_spec(success, code, stdout, stderr);
    assert forall|i: int| 0 <= i < e.len() implies #[trigger] f[o.len() + i] == line(
        LineKind::Error,
        e[i],
    ) by {
        assert(f[o.len() + i] == text_lines(stderr, LineKind::Error)[i]);
    }
    assert(finished_spec(true, code, stdout, stderr) =~= finished_spec(false, code, stdout, stderr).drop_last());
}

} // verus!
