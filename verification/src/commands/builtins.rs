//! The shell's built-in commands: what they check, and the output they give.

use vstd::prelude::*;

use crate::commands::{line, lines_view, result_view, CommandResult, LineKind, OutputLine, ShellError};
use crate::shell::history::History;
use crate::text::{
    concat2, concat3, decimal, fmt_u64, fmt_usize, is_blank, is_blank_str, owned, pad_left,
    pad_left_str, strings_view, trim, trim_str,
};

verus! {

/// A numbered listing line: the 1-based number right-aligned in four
/// columns, two spaces, then the text.
pub open spec fn numbered(index: int, text: Seq<char>) -> Seq<char> {
    pad_left(decimal((index + 1) as nat), 4) + "  "@ + text
}

/// The numbered listing line for position `index`.
pub fn numbered_line(index: usize, text: &str) -> (s: String)
    requires
        index < usize::MAX,
    ensures
        s@ == numbered(index as int, text@),
{
    let number = fmt_usize(index + 1);
    let padded = pad_left_str(number.as_str(), 4);
    concat3(padded.as_str(), "  ", text)
}

/// The lines of `help`: the command overview, ending with the AI status.
pub open spec fn help_spec(opencode_ok: bool) -> Seq<crate::commands::LineSpec> {
    seq![
        line(LineKind::AiHeader, "-- RustProc Shell --"@),
        line(LineKind::Normal, "Shell: cd, clear, edit, exit, help, history, project, quit, save, sysinfo, view"@),
        line(LineKind::Normal, "AI: ai \"prompt\", ask \"question\", ai explain/refactor/fix <file>, ai gen <file> \"prompt\", opencode"@),
        line(LineKind::Normal, "External commands run from the displayed cwd. Append & for background execution."@),
        if opencode_ok {
            line(LineKind::Success, "AI Status: OpenCode connected"@)
        } else {
            line(LineKind::Warning, "AI Status: OpenCode not found; install opencode to use ai commands"@)
        },
    ]
}

/// `help`: the command overview, ending with the AI status.
pub fn help(opencode_ok: bool) -> (r: CommandResult)
    ensures
        result_view(r) == Ok::<Seq<crate::commands::LineSpec>, Seq<char>>(help_spec(opencode_ok)),
{
    let ai_status = if opencode_ok {
        OutputLine::success(owned("AI Status: OpenCode connected"))
    } else {
        OutputLine::warning(owned("AI Status: OpenCode not found; install opencode to use ai commands"))
    };
    let mut v: Vec<OutputLine> = Vec::new();
    v.push(OutputLine::ai_header(owned("-- RustProc Shell --")));
    v.push(OutputLine::normal(owned("Shell: cd, clear, edit, exit, help, history, project, quit, save, sysinfo, view")));
    v.push(OutputLine::normal(owned("AI: ai \"prompt\", ask \"question\", ai explain/refactor/fix <file>, ai gen <file> \"prompt\", opencode")));
    v.push(OutputLine::normal(owned("External commands run from the displayed cwd. Append & for background execution.")));
    v.push(ai_status);
    assert(lines_view(v@) =~= seq![v@[0]@, v@[1]@, v@[2]@, v@[3]@, v@[4]@]);
    Ok(v)
}

/// The lines of `history`: every recorded command, numbered from 1, oldest first.
pub open spec fn history_spec(h: crate::shell::history::HistoryView) -> Seq<crate::commands::LineSpec> {
    Seq::new(h.entries.len(), |i: int| line(LineKind::Normal, numbered(i, h.entries[i])))
}

/// `history`: every recorded command, numbered from 1, oldest first.
pub fn history(entries: &History) -> (r: CommandResult)
    ensures
        result_view(r) == Ok::<Seq<crate::commands::LineSpec>, Seq<char>>(history_spec(entries@)),
{
    let listing = entries.lines();
    let n = listing.len();
    let mut v: Vec<OutputLine> = Vec::new();
    let mut i: usize = 0;
    while i < n
        invariant
            i <= n,
            n == listing@.len(),
            listing@.len() == entries@.entries.len(),
            forall|k: int|
                0 <= k < listing@.len() ==> listing@[k].0 == k && (#[trigger] listing@[k]).1@
                    == entries@.entries[k],
            v@.len() == i,
            forall|k: int|
                0 <= k < i ==> (#[trigger] v@[k])@ == line(
                    LineKind::Normal,
                    numbered(k, entries@.entries[k]),
                ),
        decreases n - i,
    {
        let (index, command) = listing[i];
        v.push(OutputLine::normal(numbered_line(index, command.as_str())));
        i = i + 1;
    }
    assert(lines_view(v@) =~= history_spec(entries@));
    Ok(v)
}

/// The trimmed file argument of a command, or `"<command>: no file specified"`
/// when it is blank.
pub fn file_argument<'a>(path: &'a str, command: &str) -> (r: Result<&'a str, ShellError>)
    ensures
        !is_blank(path@) ==> (r matches Ok(p) && p@ == trim(path@)),
        is_blank(path@) ==> (r matches Err(e) && e.0@ == command@ + ": no file specified"@),
{
    let p = trim_str(path);
    if p.unicode_len() == 0 {
        return Err(ShellError(concat2(command, ": no file specified")));
    }
    Ok(p)
}

/// `view`, once the file is read: a heading, then each line numbered from 1;
/// a read failure becomes `"view: <reason>"`.
pub fn view_lines(path: &str, content: Result<String, String>) -> (r: CommandResult)
    ensures
        content matches Err(e) ==> (r matches Err(err) && err.0@ == "view: "@ + e@),
        content matches Ok(c) ==> (r matches Ok(v) && {
            let ls = crate::text::lines_of(c@);
            &&& v@.len() == ls.len() + 1
            &&& lines_view(v@)[0] == line(LineKind::Dim, "-- "@ + path@ + " --"@)
            &&& forall|i: int|
                0 <= i < ls.len() ==> #[trigger] lines_view(v@)[i + 1] == line(
                    LineKind::Normal,
                    numbered(i, ls[i]),
                )
        }),
{
    let content = match content {
        Ok(c) => c,
        Err(e) => {
            return Err(ShellError(concat2("view: ", e.as_str())));
        },
    };
    let ls = crate::text::split_lines(content.as_str());
    let mut v: Vec<OutputLine> = Vec::new();
    v.push(OutputLine::dim(concat3("-- ", path, " --")));
    let n = ls.len();
    let mut i: usize = 0;
    while i < n
        invariant
            i <= n,
            n == ls@.len(),
            strings_view(ls@) == crate::text::lines_of(content@),
            v@.len() == i + 1,
            v@[0]@ == line(LineKind::Dim, "-- "@ + path@ + " --"@),
            forall|k: int|
                0 <= k < i ==> (#[trigger] v@[k + 1])@ == line(
                    LineKind::Normal,
                    numbered(k, strings_view(ls@)[k]),
                ),
        decreases n - i,
    {
        v.push(OutputLine::normal(numbered_line(i, ls[i].as_str())));
        i = i + 1;
    }
    Ok(v)
}


/// `view <file>`, given what reading the trimmed path gave (not looked at
/// when the path is blank): `"view: no file specified"` for a blank path,
/// `"view: <reason>"` when the file could not be read, else the heading
/// `-- <file> --` and each line numbered from 1.
pub fn view(path: &str, content: Result<String, String>) -> (r: CommandResult)
    ensures
        is_blank(path@) ==> (r matches Err(e) && e.0@ == "view: no file specified"@),
        !is_blank(path@) ==> (content matches Err(e) ==> (r matches Err(err) && err.0@ == "view: "@
            + e@)),
        !is_blank(path@) ==> (content matches Ok(c) ==> (r matches Ok(v) && {
            let ls = crate::text::lines_of(c@);
            &&& v@.len() == ls.len() + 1
            &&& lines_view(v@)[0] == line(LineKind::Dim, "-- "@ + trim(path@) + " --"@)
            &&& forall|i: int|
                0 <= i < ls.len() ==> #[trigger] lines_view(v@)[i + 1] == line(
                    LineKind::Normal,
                    numbered(i, ls[i]),
                )
        })),
{
    proof {
        reveal_strlit("view");
        reveal_strlit(": no file specified");
        reveal_strlit("view: no file specified");
        assert("view"@ + ": no file specified"@ =~= "view: no file specified"@);
    }
    match file_argument(path, "view") {
        Ok(p) => view_lines(p, content),
        Err(e) => Err(e),
    }
}

/// `save`: the trimmed target path, unless the path is blank or there is no
/// AI answer to write.
pub fn save_target<'a>(path: &'a str, last_ai_response: &str) -> (r: Result<&'a str, ShellError>)
    ensures
        is_blank(path@) ==> (r matches Err(e) && e.0@ == "save: no file specified"@),
        !is_blank(path@) && is_blank(last_ai_response@) ==> (r matches Err(e) && e.0@
            == "save: no AI response to write"@),
        !is_blank(path@) && !is_blank(last_ai_response@) ==> (r matches Ok(p) && p@ == trim(
            path@,
        )),
{
    proof {
        reveal_strlit("save");
        reveal_strlit(": no file specified");
        reveal_strlit("save: no file specified");
        assert("save"@ + ": no file specified"@ =~= "save: no file specified"@);
    }
    let p = file_argument(path, "save")?;
    if is_blank_str(last_ai_response) {
        return Err(ShellError(owned("save: no AI response to write")));
    }
    Ok(p)
}

/// `save`, once the file is written: a confirmation, or `"save: <reason>"`.
pub fn save_done(path: &str, written: Result<(), String>) -> (r: CommandResult)
    ensures
        written matches Err(e) ==> (r matches Err(err) && err.0@ == "save: "@ + e@),
        written is Ok ==> result_view(r) == Ok::<Seq<crate::commands::LineSpec>, Seq<char>>(
            seq![line(LineKind::Success, "written to "@ + path@)],
        ),
{
    match written {
        Err(e) => Err(ShellError(concat2("save: ", e.as_str()))),
        Ok(()) => {
            let mut v: Vec<OutputLine> = Vec::new();
            v.push(OutputLine::success(concat2("written to ", path)));
            assert(lines_view(v@) =~= seq![v@[0]@]);
            Ok(v)
        },
    }
}

/// The editor `edit` opens: `$EDITOR` when it is set, else `nano`.
pub fn editor_choice(env_editor: Option<String>) -> (r: String)
    ensures
        env_editor matches Some(e) ==> r@ == e@,
        env_editor is None ==> r@ == "nano"@,
{
    match env_editor {
        Some(e) => e,
        None => owned("nano"),
    }
}

/// `edit`, once the editor has exited: a note with the exit code (0 when the
/// editor reported none), or `"<editor>: <reason>"` when it could not start.
pub fn edit_done(path: &str, editor: &str, status: Result<Option<i32>, String>) -> (r: CommandResult)
    ensures
        status matches Err(e) ==> (r matches Err(err) && err.0@ == editor@ + ": "@ + e@),
        status matches Ok(code) ==> result_view(r) == Ok::<Seq<crate::commands::LineSpec>, Seq<char>>(
            seq![
                line(
                    LineKind::Dim,
                    "[closed "@ + path@ + " in "@ + editor@ + ", exit "@
                        + crate::text::signed_decimal(
                        match code {
                            Some(c) => c as int,
                            None => 0,
                        },
                    ) + "]"@,
                ),
            ],
        ),
{
    match status {
        Err(e) => Err(ShellError(concat3(editor, ": ", e.as_str()))),
        Ok(code) => {
            let c: i32 = match code {
                Some(c) => c,
                None => 0,
            };
            let head = concat3("[closed ", path, " in ");
            let mid = concat3(head.as_str(), editor, ", exit ");
            let number = crate::text::fmt_i32(c);
            let text = concat3(mid.as_str(), number.as_str(), "]");
            let mut v: Vec<OutputLine> = Vec::new();
            v.push(OutputLine::dim(text));
            assert(lines_view(v@) =~= seq![v@[0]@]);
            Ok(v)
        },
    }
}

/// A path that starts at the root.
pub open spec fn is_absolute(p: Seq<char>) -> bool {
    p.len() > 0 && p[0] == '/'
}

/// `Path::join` on Unix: an absolute `p` replaces `base`; otherwise `p` is
/// appended, with a `/` between unless `base` is empty or already ends in one.
pub open spec fn path_join(base: Seq<char>, p: Seq<char>) -> Seq<char> {
    if is_absolute(p) {
        p
    } else if base.len() == 0 || base.last() == '/' {
        base + p
    } else {
        base + "/"@ + p
    }
}

/// The home directory, or `.` when it is unknown.
pub open spec fn home_or_dot(home: Option<Seq<char>>) -> Seq<char> {
    match home {
        Some(h) => h,
        None => "."@,
    }
}

/// `~` and a leading `~/` stand for the home directory.
pub open spec fn expand_tilde_spec(path: Seq<char>, home: Option<Seq<char>>) -> Seq<char> {
    if path == "~"@ {
        home_or_dot(home)
    } else if path.len() >= 2 && path[0] == '~' && path[1] == '/' {
        path_join(home_or_dot(home), path.skip(2))
    } else {
        path
    }
}

/// An optional string, taken as characters.
pub open spec fn opt_string_view(o: Option<&str>) -> Option<Seq<char>> {
    match o {
        Some(s) => Some(s@),
        None => None,
    }
}

/// The directory `cd` moves to before it is resolved: the argument (home
/// when blank) with `~` expanded, taken relative to `cwd` unless absolute.
pub open spec fn cd_path_spec(args: Seq<char>, home: Option<Seq<char>>, cwd: Seq<char>) -> Seq<char> {
    let target = if is_blank(args) {
        "~"@
    } else {
        trim(args)
    };
    let expanded = expand_tilde_spec(target, home);
    if is_absolute(expanded) {
        expanded
    } else {
        path_join(cwd, expanded)
    }
}

/// `cd ~` goes home exactly as a bare `cd` does (to the home directory
/// itself when it is an absolute path, to `.` below the working directory
/// when the home is unknown), and `cd ~/<dir>` goes to `<dir>` below it.
pub proof fn lemma_cd_tilde_is_home(home: Option<Seq<char>>, cwd: Seq<char>, dir: Seq<char>)
    ensures
        cd_path_spec("~"@, home, cwd) == cd_path_spec(Seq::<char>::empty(), home, cwd),
        cd_path_spec(" ~ "@, home, cwd) == cd_path_spec("~"@, home, cwd),
        home matches Some(h) ==> (is_absolute(h) ==> cd_path_spec("~"@, home, cwd) == h),
        home is None ==> cd_path_spec("~"@, home, cwd) == path_join(cwd, "."@),
        home matches Some(h) ==> (is_absolute(h) && h.last() != '/' && dir.len() > 0 && dir[0] != '/'
            && !crate::text::is_ws(dir.last()) ==> cd_path_spec("~/"@ + dir, home, cwd) == h + "/"@
            + dir),
{
    reveal_strlit("~");
    reveal_strlit(" ~ ");
    reveal_strlit("~/");
    reveal_strlit("/");
    reveal_strlit(".");
    let t = seq!['~'];
    assert("~"@ =~= t);
    assert(!crate::text::is_ws('~'));
    crate::text::lemma_trim_fixed(t);
    assert(!is_blank(t));
    assert(is_blank(Seq::<char>::empty())) by {
        assert(trim(Seq::<char>::empty()) =~= Seq::<char>::empty());
    }
    // " ~ " trims to "~"
    let sp = seq![' ', '~', ' '];
    assert(" ~ "@ =~= sp);
    assert(crate::text::trim_front(sp) =~= t + seq![' ']) by {
        assert(sp.drop_first() =~= seq!['~', ' ']);
        assert(crate::text::trim_front(seq!['~', ' ']) == seq!['~', ' ']);
    }
    assert(crate::text::trim_back(t + seq![' ']) =~= t) by {
        assert((t + seq![' ']).drop_last() =~= t);
    }
    assert(seq!['~', ' '] =~= t + seq![' ']);
    assert(trim(sp) == t);
    assert(!is_blank(sp));
    let a = "~/"@ + dir;
    if dir.len() > 0 && !crate::text::is_ws(dir.last()) {
        assert(a[0] == '~');
        assert(a.last() == dir.last());
        crate::text::lemma_trim_fixed(a);
        assert(!is_blank(a));
        assert(a.skip(2) =~= dir);
        assert(a != "~"@) by {
            assert(a.len() >= 3);
        }
    }
}

/// `cd <dir>` without a `~` goes to `<dir>` itself when it is absolute, and
/// otherwise to `<dir>` below the working directory.
pub proof fn lemma_cd_plain_dir(dir: Seq<char>, home: Option<Seq<char>>, cwd: Seq<char>)
    requires
        dir.len() > 0,
        !crate::text::is_ws(dir[0]) && !crate::text::is_ws(dir.last()),
        dir[0] != '~',
    ensures
        dir[0] == '/' ==> cd_path_spec(dir, home, cwd) == dir,
        dir[0] != '/' && cwd.len() > 0 && cwd.last() != '/' ==> cd_path_spec(dir, home, cwd) == cwd
            + "/"@ + dir,
        dir[0] != '/' && cwd.len() > 0 && cwd.last() == '/' ==> cd_path_spec(dir, home, cwd) == cwd
            + dir,
{
    reveal_strlit("~");
    crate::text::lemma_trim_fixed(dir);
    assert(!is_blank(dir));
    assert(dir != "~"@) by {
        assert("~"@[0] == '~');
    }
}

/// `Path::join` on Unix (see `path_join`).
pub fn join_path(base: &str, p: &str) -> (r: String)
    ensures
        r@ == path_join(base@, p@),
{
    let pc = crate::text::to_chars(p);
    if pc.len() > 0 && pc[0] == '/' {
        return owned(p);
    }
    let bc = crate::text::to_chars(base);
    let n = bc.len();
    if n == 0 || bc[n - 1] == '/' {
        concat2(base, p)
    } else {
        concat3(base, "/", p)
    }
}

/// Expands `~` and a leading `~/` to the home directory (`.` when unknown).
pub fn expand_tilde(path: &str, home: Option<&str>) -> (r: String)
    ensures
        r@ == expand_tilde_spec(path@, opt_string_view(home)),
{
    let home_dir: &str = match home {
        Some(h) => h,
        None => ".",
    };
    if crate::text::str_eq(path, "~") {
        return owned(home_dir);
    }
    let pc = crate::text::to_chars(path);
    let n = pc.len();
    if n >= 2 && pc[0] == '~' && pc[1] == '/' {
        let rest = path.substring_char(2, n);
        proof {
            assert(path@.subrange(2, n as int) =~= path@.skip(2));
        }
        return join_path(home_dir, rest);
    }
    owned(path)
}

/// The directory `cd` should move to, before it is resolved (see `cd_path_spec`).
pub fn cd_path(args: &str, home: Option<&str>, cwd: &str) -> (r: String)
    ensures
        r@ == cd_path_spec(args@, opt_string_view(home), cwd@),
{
    let target: &str = if is_blank_str(args) {
        "~"
    } else {
        trim_str(args)
    };
    let expanded = expand_tilde(target, home);
    let ec = crate::text::to_chars(expanded.as_str());
    if ec.len() > 0 && ec[0] == '/' {
        expanded
    } else {
        join_path(cwd, expanded.as_str())
    }
}

/// `cd`, once the path is resolved: the directory to enter, or
/// `"cd: <reason>"` when it cannot be resolved or is not a directory.
pub fn cd_checked(resolved: Result<String, String>, is_dir: bool) -> (r: Result<String, ShellError>)
    ensures
        resolved matches Err(e) ==> (r matches Err(err) && err.0@ == "cd: "@ + e@),
        resolved matches Ok(p) ==> (is_dir ==> (r matches Ok(d) && d@ == p@)) && (!is_dir ==> (
        r matches Err(err) && err.0@ == "cd: target is not a directory"@)),
{
    match resolved {
        Err(e) => Err(ShellError(concat2("cd: ", e.as_str()))),
        Ok(p) => if is_dir {
            Ok(p)
        } else {
            Err(ShellError(owned("cd: target is not a directory")))
        },
    }
}

/// `cd`, once the working directory is changed: no output, or
/// `"cd: <reason>"`.
pub fn cd_done(changed: Result<(), String>) -> (r: CommandResult)
    ensures
        changed matches Err(e) ==> (r matches Err(err) && err.0@ == "cd: "@ + e@),
        changed is Ok ==> (r matches Ok(v) && v@.len() == 0),
{
    match changed {
        Err(e) => Err(ShellError(concat2("cd: ", e.as_str()))),
        Ok(()) => Ok(Vec::new()),
    }
}

/// `project`, once the directory is entered and its top level counted.
pub fn project_lines(cwd: &str, directories: usize, files: usize) -> (r: CommandResult)
    ensures
        result_view(r) == Ok::<Seq<crate::commands::LineSpec>, Seq<char>>(
            seq![
                line(LineKind::Success, "project: "@ + cwd@),
                line(
                    LineKind::Dim,
                    decimal(directories as nat) + " directories, "@ + decimal(files as nat)
                        + " files at top level"@,
                ),
            ],
        ),
{
    let d = fmt_usize(directories);
    let f = fmt_usize(files);
    let first = concat3(d.as_str(), " directories, ", f.as_str());
    let mut v: Vec<OutputLine> = Vec::new();
    v.push(OutputLine::success(concat2("project: ", cwd)));
    v.push(OutputLine::dim(concat2(first.as_str(), " files at top level")));
    assert(lines_view(v@) =~= seq![v@[0]@, v@[1]@]);
    Ok(v)
}

/// How `sysinfo` reports video memory.
pub open spec fn vram_text(used: Option<u64>, total: Option<u64>) -> Seq<char> {
    match (used, total) {
        (Some(u), Some(t)) => decimal(u as nat) + " / "@ + decimal(t as nat) + " MB"@,
        (None, Some(t)) => decimal(t as nat) + " MB"@,
        _ => "not reported"@,
    }
}

/// Video memory as `sysinfo` reports it: used and total, total alone, or
/// `not reported`.
pub fn format_vram(used: Option<u64>, total: Option<u64>) -> (r: String)
    ensures
        r@ == vram_text(used, total),
{
    match (used, total) {
        (Some(u), Some(t)) => {
            let us = fmt_u64(u);
            let ts = fmt_u64(t);
            let head = concat3(us.as_str(), " / ", ts.as_str());
            concat2(head.as_str(), " MB")
        },
        (None, Some(t)) => {
            let ts = fmt_u64(t);
            concat2(ts.as_str(), " MB")
        },
        _ => owned("not reported"),
    }
}


/// What `sysinfo` reports; the CPU load (one decimal), memory share (whole
/// percent) and GPU temperature, floating point figures, come as text.
pub struct Snapshot {
    pub cpu_usage: String,
    pub cpu_brand: String,
    pub cpu_vendor: String,
    pub cpu_logical_cores: usize,
    pub cpu_frequency_mhz: u64,
    pub used_memory_mb: u64,
    pub total_memory_mb: u64,
    pub memory_pct: String,
    pub gpu: crate::system::GpuInfo,
    pub gpu_temperature: String,
    pub process_count: usize,
}

/// The lines of `sysinfo`: CPU, memory, GPU and process count.
pub open spec fn snapshot_spec(s: Snapshot) -> Seq<crate::commands::LineSpec> {
    seq![
        line(
            LineKind::Normal,
            "CPU: "@ + s.cpu_usage@ + "% | "@ + s.cpu_brand@ + " ("@ + s.cpu_vendor@ + ") | "@
                + decimal(s.cpu_logical_cores as nat) + " logical cores | max "@ + decimal(
                s.cpu_frequency_mhz as nat,
            ) + " MHz"@,
        ),
        line(
            LineKind::Normal,
            "RAM: "@ + decimal(s.used_memory_mb as nat) + " / "@ + decimal(
                s.total_memory_mb as nat,
            ) + " MB ("@ + s.memory_pct@ + "%)"@,
        ),
        line(
            LineKind::Normal,
            "GPU: "@ + s.gpu.vendor@ + " "@ + s.gpu.model@ + " | VRAM "@ + vram_text(
                s.gpu.vram_used_mb,
                s.gpu.vram_total_mb,
            ) + " | temp "@ + s.gpu_temperature@ + " | source "@ + s.gpu.source@,
        ),
        line(LineKind::Normal, "PIDs: "@ + decimal(s.process_count as nat)),
    ]
}

/// `sysinfo`: a compact telemetry report (see `snapshot_spec`).
pub fn sysinfo_snapshot(s: &Snapshot) -> (r: CommandResult)
    ensures
        result_view(r) == Ok::<Seq<crate::commands::LineSpec>, Seq<char>>(snapshot_spec(*s)),
{
    let a = concat3("CPU: ", s.cpu_usage.as_str(), "% | ");
    let b = concat3(a.as_str(), s.cpu_brand.as_str(), " (");
    let c = concat3(b.as_str(), s.cpu_vendor.as_str(), ") | ");
    let cores = fmt_usize(s.cpu_logical_cores);
    let d = concat3(c.as_str(), cores.as_str(), " logical cores | max ");
    let freq = fmt_u64(s.cpu_frequency_mhz);
    let cpu = concat3(d.as_str(), freq.as_str(), " MHz");

    let used = fmt_u64(s.used_memory_mb);
    let total = fmt_u64(s.total_memory_mb);
    let a = concat3("RAM: ", used.as_str(), " / ");
    let b = concat3(a.as_str(), total.as_str(), " MB (");
    let ram = concat3(b.as_str(), s.memory_pct.as_str(), "%)");

    let a = concat3("GPU: ", s.gpu.vendor.as_str(), " ");
    let b = concat3(a.as_str(), s.gpu.model.as_str(), " | VRAM ");
    let vram = format_vram(s.gpu.vram_used_mb, s.gpu.vram_total_mb);
    let c = concat3(b.as_str(), vram.as_str(), " | temp ");
    let d = concat3(c.as_str(), s.gpu_temperature.as_str(), " | source ");
    let gpu = concat2(d.as_str(), s.gpu.source.as_str());

    let count = fmt_usize(s.process_count);
    let pids = concat2("PIDs: ", count.as_str());

    let mut v: Vec<OutputLine> = Vec::new();
    v.push(OutputLine::normal(cpu));
    v.push(OutputLine::normal(ram));
    v.push(OutputLine::normal(gpu));
    v.push(OutputLine::normal(pids));
    assert(lines_view(v@) =~= snapshot_spec(*s));
    Ok(v)
}

} // verus!
