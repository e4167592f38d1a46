//! The AI assistant commands: the prompts sent to OpenCode and the output
//! made of its replies.

use vstd::prelude::*;

use crate::commands::{
    line, lines_view, result_view, CommandResult, LineKind, LineSpec, OutputLine, ProcessOutput,
    ShellError,
};
use crate::text::{
    concat2, concat3, decode_lossy, is_blank, is_blank_str, is_fence, is_fence_line, join,
    join_strings, lines_of, owned, split_lines, strings_view, trim, trim_str, utf8_lossy,
};

verus! {

/// The answer to `ai` commands while OpenCode is missing: one error line
/// with install guidance.
pub open spec fn unavailable_spec() -> Seq<LineSpec> {
    seq![
        line(
            LineKind::Error,
            "AI: OpenCode not installed or not on PATH. Install it, then restart RustProc."@,
        ),
    ]
}

/// `ai` commands while OpenCode is missing (see `unavailable_spec`).
pub fn unavailable_message() -> (r: CommandResult)
    ensures
        result_view(r) == Ok::<Seq<LineSpec>, Seq<char>>(unavailable_spec()),
{
    let mut v: Vec<OutputLine> = Vec::new();
    v.push(
        OutputLine::error(
            owned("AI: OpenCode not installed or not on PATH. Install it, then restart RustProc."),
        ),
    );
    assert(lines_view(v@) =~= seq![v@[0]@]);
    Ok(v)
}

/// A free-form prompt is sent only when it is not blank.
pub fn prompt_check(prompt: &str) -> (r: Result<(), ShellError>)
    ensures
        is_blank(prompt@) <==> r is Err,
        r matches Err(e) ==> e.0@ == "ai: no prompt specified"@,
{
    if is_blank_str(prompt) {
        Err(ShellError(owned("ai: no prompt specified")))
    } else {
        Ok(())
    }
}

/// The lines shown for an OpenCode reply: a heading, then each line of the
/// answer, or one error line with the trimmed error output when OpenCode
/// failed, then a closing heading.
pub open spec fn reply_spec(success: bool, stdout: Seq<char>, stderr: Seq<char>) -> Seq<LineSpec> {
    seq![line(LineKind::AiHeader, "-- AI Response --"@)] + (if success {
        lines_of(stdout).map_values(|l: Seq<char>| line(LineKind::Ai, l))
    } else {
        seq![line(LineKind::Error, "opencode error: "@ + trim(stderr))]
    }) + seq![line(LineKind::AiHeader, "-- end AI Response --"@)]
}

/// The lines shown for an OpenCode reply (see `reply_spec`).
pub fn reply_lines(success: bool, stdout: &str, stderr: &str) -> (r: Vec<OutputLine>)
    ensures
        lines_view(r@) == reply_spec(success, stdout@, stderr@),
{
    let mut v: Vec<OutputLine> = Vec::new();
    v.push(OutputLine::ai_header(owned("-- AI Response --")));
    let ghost middle: Seq<LineSpec>;
    if success {
        let ls = split_lines(stdout);
        let n = ls.len();
        let mut i: usize = 0;
        while i < n
            invariant
                i <= n,
                n == ls@.len(),
                strings_view(ls@) == lines_of(stdout@),
                v@.len() == i + 1,
                v@[0]@ == line(LineKind::AiHeader, "-- AI Response --"@),
                forall|k: int|
                    0 <= k < i ==> (#[trigger] v@[k + 1])@ == line(
                        LineKind::Ai,
                        strings_view(ls@)[k],
                    ),
            decreases n - i,
        {
            v.push(OutputLine::ai(ls[i].clone()));
            i = i + 1;
        }
        proof {
            middle = lines_of(stdout@).map_values(|l: Seq<char>| line(LineKind::Ai, l));
            assert forall|k: int| 0 <= k < n implies lines_view(v@)[k + 1] == middle[k] by {
                assert(v@[k + 1]@ == line(LineKind::Ai, strings_view(ls@)[k]));
            }
            assert(lines_view(v@) =~= seq![line(LineKind::AiHeader, "-- AI Response --"@)]
                + middle);
        }
    } else {
        let t = trim_str(stderr);
        v.push(OutputLine::error(concat2("opencode error: ", t)));
        proof {
            middle = seq![line(LineKind::Error, "opencode error: "@ + trim(stderr@))];
            assert(lines_view(v@) =~= seq![line(LineKind::AiHeader, "-- AI Response --"@)]
                + middle);
        }
    }
    let ghost before = lines_view(v@);
    v.push(OutputLine::ai_header(owned("-- end AI Response --")));
    assert(lines_view(v@) =~= before + seq![
        line(LineKind::AiHeader, "-- end AI Response --"@),
    ]);
    v
}

/// The result of sending a prompt: the reply lines (see `reply_spec`, over
/// the decoded output), or `"opencode: <reason>"` when OpenCode could not run.
pub fn prompt_reply(output: Result<ProcessOutput, String>) -> (r: CommandResult)
    ensures
        output matches Err(e) ==> (r matches Err(err) && err.0@ == "opencode: "@ + e@),
        output matches Ok(o) ==> result_view(r) == Ok::<Seq<LineSpec>, Seq<char>>(
            reply_spec(o.success, utf8_lossy(o.stdout@), utf8_lossy(o.stderr@)),
        ),
{
    match output {
        Err(e) => Err(ShellError(concat2("opencode: ", e.as_str()))),
        Ok(o) => {
            let out = decode_lossy(o.stdout.as_slice());
            let err = decode_lossy(o.stderr.as_slice());
            Ok(reply_lines(o.success, out.as_str(), err.as_str()))
        },
    }
}

/// `ai explain|refactor|fix`: the command's note line, then the reply.
fn with_note(note: String, reply: CommandResult) -> (r: CommandResult)
    ensures
        reply matches Err(e) ==> (r matches Err(err) && err.0@ == e.0@),
        reply matches Ok(v) ==> result_view(r) == Ok::<Seq<LineSpec>, Seq<char>>(
            seq![line(LineKind::Dim, note@)] + lines_view(v@),
        ),
{
    let mut reply = match reply {
        Ok(lines) => lines,
        Err(e) => {
            return Err(e);
        },
    };
    let mut v: Vec<OutputLine> = Vec::new();
    v.push(OutputLine::dim(note));
    let ghost first = lines_view(v@);
    let ghost rest = lines_view(reply@);
    assert(first =~= seq![line(LineKind::Dim, note@)]);
    v.append(&mut reply);
    assert(lines_view(v@) =~= first + rest);
    Ok(v)
}

/// A file whose contents are sent to the assistant: the trimmed path, or
/// `"ai: no file specified"`.
pub fn file_for_ai(path: &str) -> (r: Result<&str, ShellError>)
    ensures
        !is_blank(path@) ==> (r matches Ok(p) && p@ == trim(path@)),
        is_blank(path@) ==> (r matches Err(e) && e.0@ == "ai: no file specified"@),
{
    proof {
        reveal_strlit("ai");
        reveal_strlit(": no file specified");
        reveal_strlit("ai: no file specified");
        assert("ai"@ + ": no file specified"@ =~= "ai: no file specified"@);
    }
    crate::commands::builtins::file_argument(path, "ai")
}

/// The error for a file that could not be read: `"cannot read <path>: <reason>"`.
pub fn read_failure(path: &str, reason: &str) -> (e: ShellError)
    ensures
        e.0@ == "cannot read "@ + path@ + ": "@ + reason@,
{
    let head = concat3("cannot read ", path, ": ");
    ShellError(concat2(head.as_str(), reason))
}

/// The prompt that asks for an explanation of `content`.
pub open spec fn explain_prompt_spec(content: Seq<char>) -> Seq<char> {
    "Explain what this code does. Be concise and focus on key logic:\n\n```\n"@ + content + "\n```"@
}

/// The prompt that asks for refactoring suggestions on `content`.
pub open spec fn refactor_prompt_spec(content: Seq<char>) -> Seq<char> {
    "Suggest specific refactoring improvements for this code. Focus on readability, idiomatic style, and correctness:\n\n```\n"@
        + content + "\n```"@
}

/// The prompt that asks for bug fixes in `content`.
pub open spec fn fix_prompt_spec(content: Seq<char>) -> Seq<char> {
    "Identify bugs and issues in this code and provide corrected versions. Explain each fix:\n\n```\n"@
        + content + "\n```"@
}

/// The prompt of `ai explain` for the file's contents.
pub fn explain_prompt(content: &str) -> (p: String)
    ensures
        p@ == explain_prompt_spec(content@),
{
    concat3(
        "Explain what this code does. Be concise and focus on key logic:\n\n```\n",
        content,
        "\n```",
    )
}

/// The prompt of `ai refactor` for the file's contents.
pub fn refactor_prompt(content: &str) -> (p: String)
    ensures
        p@ == refactor_prompt_spec(content@),
{
    concat3(
        "Suggest specific refactoring improvements for this code. Focus on readability, idiomatic style, and correctness:\n\n```\n",
        content,
        "\n```",
    )
}

/// The prompt of `ai fix` for the file's contents.
pub fn fix_prompt(content: &str) -> (p: String)
    ensures
        p@ == fix_prompt_spec(content@),
{
    concat3(
        "Identify bugs and issues in this code and provide corrected versions. Explain each fix:\n\n```\n",
        content,
        "\n```",
    )
}

/// The contents that an `ai explain|refactor|fix` command sends, given the
/// path as typed and what reading the file at its trimmed form gave (not
/// looked at when the path is blank).
fn file_contents(file_path: &str, content: Result<String, String>) -> (r: Result<String, ShellError>)
    ensures
        is_blank(file_path@) ==> (r matches Err(e) && e.0@ == "ai: no file specified"@),
        !is_blank(file_path@) ==> match content {
            Ok(c) => r matches Ok(t) && t@ == c@,
            Err(e) => r matches Err(err) && err.0@ == "cannot read "@ + trim(file_path@) + ": "@ + e@,
        },
{
    let path = match file_for_ai(file_path) {
        Ok(p) => p,
        Err(e) => {
            return Err(e);
        },
    };
    match content {
        Ok(c) => Ok(c),
        Err(e) => Err(read_failure(path, e.as_str())),
    }
}

/// The prompt `ai explain` sends: the explain prompt over the file's
/// contents; `"ai: no file specified"` for a blank path, and
/// `"cannot read <path>: <reason>"` when the file could not be read.
pub fn explain_request(file_path: &str, content: Result<String, String>) -> (r: Result<String, ShellError>)
    ensures
        is_blank(file_path@) ==> (r matches Err(e) && e.0@ == "ai: no file specified"@),
        !is_blank(file_path@) ==> match content {
            Ok(c) => r matches Ok(p) && p@ == explain_prompt_spec(c@),
            Err(e) => r matches Err(err) && err.0@ == "cannot read "@ + trim(file_path@) + ": "@ + e@,
        },
{
    match file_contents(file_path, content) {
        Ok(c) => Ok(explain_prompt(c.as_str())),
        Err(e) => Err(e),
    }
}

/// The prompt `ai refactor` sends (see `explain_request` for the errors).
pub fn refactor_request(file_path: &str, content: Result<String, String>) -> (r: Result<String, ShellError>)
    ensures
        is_blank(file_path@) ==> (r matches Err(e) && e.0@ == "ai: no file specified"@),
        !is_blank(file_path@) ==> match content {
            Ok(c) => r matches Ok(p) && p@ == refactor_prompt_spec(c@),
            Err(e) => r matches Err(err) && err.0@ == "cannot read "@ + trim(file_path@) + ": "@ + e@,
        },
{
    match file_contents(file_path, content) {
        Ok(c) => Ok(refactor_prompt(c.as_str())),
        Err(e) => Err(e),
    }
}

/// The prompt `ai fix` sends (see `explain_request` for the errors).
pub fn fix_request(file_path: &str, content: Result<String, String>) -> (r: Result<String, ShellError>)
    ensures
        is_blank(file_path@) ==> (r matches Err(e) && e.0@ == "ai: no file specified"@),
        !is_blank(file_path@) ==> match content {
            Ok(c) => r matches Ok(p) && p@ == fix_prompt_spec(c@),
            Err(e) => r matches Err(err) && err.0@ == "cannot read "@ + trim(file_path@) + ": "@ + e@,
        },
{
    match file_contents(file_path, content) {
        Ok(c) => Ok(fix_prompt(c.as_str())),
        Err(e) => Err(e),
    }
}

/// An `ai explain|refactor|fix` command, given the path as typed, what
/// reading the file gave, and OpenCode's answer to the prompt that the
/// matching `*_request` made of them: the path and read errors first, then
/// the note line and the reply.
fn file_command(note: String, file_path: &str, content: Result<String, String>, output: Result<
    ProcessOutput,
    String,
>) -> (r: CommandResult)
    ensures
        is_blank(file_path@) ==> (r matches Err(e) && e.0@ == "ai: no file specified"@),
        !is_blank(file_path@) ==> (content matches Err(e) ==> (r matches Err(err) && err.0@
            == "cannot read "@ + trim(file_path@) + ": "@ + e@)),
        !is_blank(file_path@) && content is Ok ==> (output matches Err(e) ==> (r matches Err(err)
            && err.0@ == "opencode: "@ + e@)),
        !is_blank(file_path@) && content is Ok ==> (output matches Ok(o) ==> result_view(r) == Ok::<
            Seq<LineSpec>,
            Seq<char>,
        >(
            seq![line(LineKind::Dim, note@)] + reply_spec(
                o.success,
                utf8_lossy(o.stdout@),
                utf8_lossy(o.stderr@),
            ),
        )),
{
    match file_contents(file_path, content) {
        Err(e) => Err(e),
        Ok(_) => with_note(note, prompt_reply(output)),
    }
}

/// `ai explain <file>`: `"ai: no file specified"` for a blank path,
/// `"cannot read <path>: <reason>"` when the file could not be read (OpenCode
/// is then not asked, and `output` is not looked at); otherwise the note
/// `ai explain <file>`, then OpenCode's reply to `explain_request`'s prompt
/// (see `prompt_reply`).
pub fn ai_explain(file_path: &str, content: Result<String, String>, output: Result<ProcessOutput, String>) -> (r:
    CommandResult)
    ensures
        is_blank(file_path@) ==> (r matches Err(e) && e.0@ == "ai: no file specified"@),
        !is_blank(file_path@) ==> (content matches Err(e) ==> (r matches Err(err) && err.0@
            == "cannot read "@ + trim(file_path@) + ": "@ + e@)),
        !is_blank(file_path@) && content is Ok ==> (output matches Err(e) ==> (r matches Err(err)
            && err.0@ == "opencode: "@ + e@)),
        !is_blank(file_path@) && content is Ok ==> (output matches Ok(o) ==> result_view(r) == Ok::<
            Seq<LineSpec>,
            Seq<char>,
        >(
            seq![line(LineKind::Dim, "ai explain "@ + file_path@)] + reply_spec(
                o.success,
                utf8_lossy(o.stdout@),
                utf8_lossy(o.stderr@),
            ),
        )),
{
    file_command(concat2("ai explain ", file_path), file_path, content, output)
}

/// `ai refactor <file>` (see `ai_explain`).
pub fn ai_refactor(file_path: &str, content: Result<String, String>, output: Result<ProcessOutput, String>) -> (r:
    CommandResult)
    ensures
        is_blank(file_path@) ==> (r matches Err(e) && e.0@ == "ai: no file specified"@),
        !is_blank(file_path@) ==> (content matches Err(e) ==> (r matches Err(err) && err.0@
            == "cannot read "@ + trim(file_path@) + ": "@ + e@)),
        !is_blank(file_path@) && content is Ok ==> (output matches Err(e) ==> (r matches Err(err)
            && err.0@ == "opencode: "@ + e@)),
        !is_blank(file_path@) && content is Ok ==> (output matches Ok(o) ==> result_view(r) == Ok::<
            Seq<LineSpec>,
            Seq<char>,
        >(
            seq![line(LineKind::Dim, "ai refactor "@ + file_path@)] + reply_spec(
                o.success,
                utf8_lossy(o.stdout@),
                utf8_lossy(o.stderr@),
            ),
        )),
{
    file_command(concat2("ai refactor ", file_path), file_path, content, output)
}

/// `ai fix <file>` (see `ai_explain`).
pub fn ai_fix(file_path: &str, content: Result<String, String>, output: Result<ProcessOutput, String>) -> (r:
    CommandResult)
    ensures
        is_blank(file_path@) ==> (r matches Err(e) && e.0@ == "ai: no file specified"@),
        !is_blank(file_path@) ==> (content matches Err(e) ==> (r matches Err(err) && err.0@
            == "cannot read "@ + trim(file_path@) + ": "@ + e@)),
        !is_blank(file_path@) && content is Ok ==> (output matches Err(e) ==> (r matches Err(err)
            && err.0@ == "opencode: "@ + e@)),
        !is_blank(file_path@) && content is Ok ==> (output matches Ok(o) ==> result_view(r) == Ok::<
            Seq<LineSpec>,
            Seq<char>,
        >(
            seq![line(LineKind::Dim, "ai fix "@ + file_path@)] + reply_spec(
                o.success,
                utf8_lossy(o.stdout@),
                utf8_lossy(o.stderr@),
            ),
        )),
{
    file_command(concat2("ai fix ", file_path), file_path, content, output)
}

/// The texts of the AI answer lines, in order.
pub open spec fn ai_texts(ls: Seq<LineSpec>) -> Seq<Seq<char>>
    decreases ls.len(),
{
    if ls.len() == 0 {
        Seq::empty()
    } else if ls.last().kind == LineKind::Ai {
        ai_texts(ls.drop_last()).push(ls.last().text)
    } else {
        ai_texts(ls.drop_last())
    }
}

/// The texts of the AI answer lines, each as an owned `String`.
pub fn ai_text_lines(lines: &Vec<OutputLine>) -> (r: Vec<String>)
    ensures
        strings_view(r@) == ai_texts(lines_view(lines@)),
{
    let mut r: Vec<String> = Vec::new();
    let n = lines.len();
    let mut i: usize = 0;
    while i < n
        invariant
            i <= n,
            n == lines@.len(),
            strings_view(r@) == ai_texts(lines_view(lines@).take(i as int)),
        decreases n - i,
    {
        let ghost before = r@;
        if lines[i].kind == LineKind::Ai {
            r.push(lines[i].text.clone());
            assert(strings_view(r@) =~= strings_view(before).push(lines@[i as int].text@));
        }
        assert(lines_view(lines@).take(i + 1).drop_last() =~= lines_view(lines@).take(i as int));
        i = i + 1;
    }
    assert(lines_view(lines@).take(n as int) =~= lines_view(lines@));
    r
}

/// The AI answer lines joined into one text, one line per answer line.
pub fn response_text(lines: &Vec<OutputLine>) -> (r: String)
    ensures
        r@ == join(ai_texts(lines_view(lines@)), "\n"@),
{
    let texts = ai_text_lines(lines);
    join_strings(&texts, "\n")
}

/// Line `a` is the first code fence of `ls`.
pub open spec fn is_first_fence(ls: Seq<Seq<char>>, a: int) -> bool {
    &&& 0 <= a < ls.len()
    &&& is_fence(ls[a])
    &&& forall|k: int| 0 <= k < a ==> !is_fence(#[trigger] ls[k])
}

/// Line `b` is the last code fence of `ls`.
pub open spec fn is_last_fence(ls: Seq<Seq<char>>, b: int) -> bool {
    &&& 0 <= b < ls.len()
    &&& is_fence(ls[b])
    &&& forall|k: int| b < k < ls.len() ==> !is_fence(#[trigger] ls[k])
}

/// The code of a reply: the lines strictly between its first and last code
/// fence, joined with newlines; the whole reply when it has no such pair.
pub open spec fn code_block_spec(response: Seq<char>) -> Seq<char> {
    let ls = lines_of(response);
    if exists|a: int, b: int| is_first_fence(ls, a) && is_last_fence(ls, b) && a < b {
        let (a, b) = choose|a: int, b: int|
            is_first_fence(ls, a) && is_last_fence(ls, b) && a < b;
        join(ls.subrange(a + 1, b), "\n"@)
    } else {
        response
    }
}

proof fn lemma_fences_unique(ls: Seq<Seq<char>>, a: int, b: int, a2: int, b2: int)
    requires
        is_first_fence(ls, a),
        is_last_fence(ls, b),
        is_first_fence(ls, a2),
        is_last_fence(ls, b2),
    ensures
        a == a2,
        b == b2,
{
    if a < a2 {
        assert(!is_fence(ls[a]));
    }
    if a2 < a {
        assert(!is_fence(ls[a2]));
    }
    if b < b2 {
        assert(!is_fence(ls[b2]));
    }
    if b2 < b {
        assert(!is_fence(ls[b]));
    }
}

/// The code of a reply (see `code_block_spec`).
pub fn extract_code_block(response: &str) -> (r: String)
    ensures
        r@ == code_block_spec(response@),
{
    let ls = split_lines(response);
    let ghost lv = strings_view(ls@);
    let n = ls.len();
    let mut a: usize = 0;
    while a < n && !is_fence_line(ls[a].as_str())
        invariant
            a <= n,
            n == lv.len(),
            lv == strings_view(ls@),
            forall|k: int| 0 <= k < a ==> !is_fence(#[trigger] lv[k]),
        decreases n - a,
    {
        a = a + 1;
    }
    let mut b: usize = n;
    while b > 0 && !is_fence_line(ls[b - 1].as_str())
        invariant
            b <= n,
            n == lv.len(),
            lv == strings_view(ls@),
            forall|k: int| b <= k < n ==> !is_fence(#[trigger] lv[k]),
        decreases b,
    {
        b = b - 1;
    }
    if a < n && b > 0 && b - 1 > a {
        let last = b - 1;
        let mut inner: Vec<String> = Vec::new();
        let mut i: usize = a + 1;
        while i < last
            invariant
                a + 1 <= i <= last,
                last < n,
                n == lv.len(),
                lv == strings_view(ls@),
                strings_view(inner@) == lv.subrange(a + 1, i as int),
            decreases last - i,
        {
            let ghost before = inner@;
            let item = ls[i].clone();
            assert(item@ == lv[i as int]);
            inner.push(item);
            assert(strings_view(inner@) =~= strings_view(before).push(item@));
            assert(strings_view(inner@) =~= lv.subrange(a + 1, i + 1));
            i = i + 1;
        }
        proof {
            assert(is_first_fence(lv, a as int));
            assert(is_last_fence(lv, last as int));
            let (a2, b2) = choose|a2: int, b2: int|
                is_first_fence(lv, a2) && is_last_fence(lv, b2) && a2 < b2;
            lemma_fences_unique(lv, a as int, last as int, a2, b2);
        }
        join_strings(&inner, "\n")
    } else {
        proof {
            if exists|a2: int, b2: int| is_first_fence(lv, a2) && is_last_fence(lv, b2) && a2 < b2 {
                let (a2, b2) = choose|a2: int, b2: int|
                    is_first_fence(lv, a2) && is_last_fence(lv, b2) && a2 < b2;
                assert(a2 >= a);
                assert(b2 < b);
                assert(is_first_fence(lv, a as int));
                assert(is_last_fence(lv, b - 1));
                lemma_fences_unique(lv, a as int, b - 1, a2, b2);
            }
        }
        owned(response)
    }
}

/// `ai gen` needs an output file and a prompt.
pub fn generate_check(file_path: &str, prompt_text: &str) -> (r: Result<(), ShellError>)
    ensures
        is_blank(file_path@) ==> (r matches Err(e) && e.0@ == "ai gen: no output file specified"@),
        !is_blank(file_path@) && is_blank(prompt_text@) ==> (r matches Err(e) && e.0@
            == "ai gen: no prompt specified"@),
        !is_blank(file_path@) && !is_blank(prompt_text@) ==> r is Ok,
{
    if is_blank_str(file_path) {
        return Err(ShellError(owned("ai gen: no output file specified")));
    }
    if is_blank_str(prompt_text) {
        return Err(ShellError(owned("ai gen: no prompt specified")));
    }
    Ok(())
}

/// The prompt of `ai gen`: the request followed by the instruction to answer
/// with code only.
pub open spec fn generate_prompt_spec(prompt_text: Seq<char>) -> Seq<char> {
    prompt_text + "\n\nWrite clean code. Output only code, preferably in a fenced code block."@
}

/// The prompt of `ai gen` (see `generate_prompt_spec`).
pub fn generate_prompt(prompt_text: &str) -> (p: String)
    ensures
        p@ == generate_prompt_spec(prompt_text@),
{
    concat2(prompt_text, "\n\nWrite clean code. Output only code, preferably in a fenced code block.")
}

/// The note line of `ai gen`: `ai gen <file> "<prompt>"`.
pub open spec fn generate_note_spec(file_path: Seq<char>, prompt_text: Seq<char>) -> Seq<char> {
    "ai gen "@ + file_path + " \""@ + prompt_text + "\""@
}

/// `ai gen`, once OpenCode has answered: the lines to show (the note, then
/// the reply) and the code to write (the code block of the answer lines;
/// none when that is empty, and then nothing is written), or
/// `"opencode: <reason>"` when OpenCode could not run.
pub fn generate_reply(file_path: &str, prompt_text: &str, output: Result<ProcessOutput, String>) -> (r:
    Result<(Vec<OutputLine>, Option<String>), ShellError>)
    ensures
        output matches Err(e) ==> (r matches Err(err) && err.0@ == "opencode: "@ + e@),
        output matches Ok(o) ==> (r matches Ok((v, code)) && {
            let reply = reply_spec(o.success, utf8_lossy(o.stdout@), utf8_lossy(o.stderr@));
            let block = code_block_spec(join(ai_texts(reply), "\n"@));
            &&& lines_view(v@) == seq![line(LineKind::Dim, generate_note_spec(file_path@, prompt_text@))]
                + reply
            &&& block.len() == 0 ==> code is None
            &&& block.len() > 0 ==> (code matches Some(c) && c@ == block)
        }),
{
    let reply = match prompt_reply(output) {
        Ok(lines) => lines,
        Err(e) => {
            return Err(e);
        },
    };
    let text = response_text(&reply);
    let code = extract_code_block(text.as_str());
    let head = concat3("ai gen ", file_path, " \"");
    let note = concat3(head.as_str(), prompt_text, "\"");
    let lines = match with_note(note, Ok(reply)) {
        Ok(lines) => lines,
        Err(e) => {
            return Err(e);
        },
    };
    if code.as_str().unicode_len() == 0 {
        Ok((lines, None))
    } else {
        Ok((lines, Some(code)))
    }
}

/// `ai gen`, once the code is written (or not, when there was none): the
/// lines with a closing confirmation, the lines alone, or the write failure.
pub fn generate_done(lines: Vec<OutputLine>, file_path: &str, written: Option<Result<(), String>>) -> (r:
    CommandResult)
    ensures
        written is None ==> result_view(r) == Ok::<Seq<LineSpec>, Seq<char>>(lines_view(lines@)),
        written matches Some(Err(e)) ==> (r matches Err(err) && err.0@
            == "ai gen: could not write generated code to "@ + file_path@ + ": "@ + e@),
        written matches Some(Ok(())) ==> result_view(r) == Ok::<Seq<LineSpec>, Seq<char>>(
            lines_view(lines@) + seq![line(LineKind::Success, "written to "@ + file_path@)],
        ),
{
    match written {
        None => Ok(lines),
        Some(Err(e)) => {
            let head = concat3("ai gen: could not write generated code to ", file_path, ": ");
            Err(ShellError(concat2(head.as_str(), e.as_str())))
        },
        Some(Ok(())) => {
            let mut lines = lines;
            let ghost before = lines_view(lines@);
            lines.push(OutputLine::success(concat2("written to ", file_path)));
            assert(lines_view(lines@) =~= before + seq![
                line(LineKind::Success, "written to "@ + file_path@),
            ]);
            Ok(lines)
        },
    }
}

/// `opencode`, once the interactive session has ended: a note with its exit
/// code (0 when none was reported), or `"opencode: <reason>"`.
pub fn opencode_done(status: Result<Option<i32>, String>) -> (r: CommandResult)
    ensures
        status matches Err(e) ==> (r matches Err(err) && err.0@ == "opencode: "@ + e@),
        status matches Ok(code) ==> result_view(r) == Ok::<Seq<LineSpec>, Seq<char>>(
            seq![
                line(
                    LineKind::Dim,
                    "[opencode exited with code "@ + crate::text::signed_decimal(
                        match code {
                            Some(c) => c as int,
                            None => 0,
                        },
                    ) + "]"@,
                ),
            ],
        ),
{
    match status {
        Err(e) => Err(ShellError(concat2("opencode: ", e.as_str()))),
        Ok(code) => {
            let c: i32 = match code {
                Some(c) => c,
                None => 0,
            };
            let number = crate::text::fmt_i32(c);
            let mut v: Vec<OutputLine> = Vec::new();
            v.push(OutputLine::dim(concat3("[opencode exited with code ", number.as_str(), "]")));
            assert(lines_view(v@) =~= seq![v@[0]@]);
            Ok(v)
        },
    }
}

} // verus!
