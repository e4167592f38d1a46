use rustproc::commands::ai::{
    ai_explain, ai_fix, ai_refactor, explain_prompt, explain_request, extract_code_block,
    file_for_ai, fix_prompt, fix_request, generate_check, generate_done, generate_prompt, generate_reply, opencode_done, prompt_check,
    prompt_reply, read_failure, refactor_prompt, refactor_request, response_text, unavailable_message,
};
use rustproc::commands::builtins::{
    cd_checked, cd_done, cd_path, edit_done, editor_choice, expand_tilde, file_argument,
    format_vram, help, history, join_path, numbered_line, project_lines, save_done, save_target,
    view, view_lines,
};
use rustproc::commands::executor::{
    background_started, exit_code, finished_lines, foreground_finished, plan_external,
};
use rustproc::commands::{CommandResult, LineKind, OutputLine, ProcessOutput, ShellError};
use rustproc::shell::history::History;

fn shown(r: &CommandResult) -> Vec<(LineKind, String)> {
    r.as_ref().unwrap().iter().map(|l| (l.kind, l.text.clone())).collect()
}

fn err(r: CommandResult) -> String {
    match r {
        Err(e) => e.to_string(),
        Ok(_) => panic!("expected an error"),
    }
}

fn output(success: bool, code: Option<i32>, stdout: &[u8], stderr: &[u8]) -> ProcessOutput {
    ProcessOutput { success, code, stdout: stdout.to_vec(), stderr: stderr.to_vec() }
}

#[test]
fn output_line_constructors_set_the_kind() {
    let cases = [
        (OutputLine::normal("x".to_string()), LineKind::Normal),
        (OutputLine::ai("x".to_string()), LineKind::Ai),
        (OutputLine::ai_header("x".to_string()), LineKind::AiHeader),
        (OutputLine::success("x".to_string()), LineKind::Success),
        (OutputLine::warning("x".to_string()), LineKind::Warning),
        (OutputLine::error("x".to_string()), LineKind::Error),
        (OutputLine::dim("x".to_string()), LineKind::Dim),
    ];
    for (line, kind) in cases {
        assert_eq!(line.kind, kind);
        assert_eq!(line.text, "x");
    }
    assert_eq!(ShellError("boom".to_string()).to_string(), "boom");
}

#[test]
fn help_reports_ai_status() {
    let on = shown(&help(true));
    assert_eq!(on.len(), 5);
    assert_eq!(on[0], (LineKind::AiHeader, "-- RustProc Shell --".to_string()));
    assert_eq!(on[4], (LineKind::Success, "AI Status: OpenCode connected".to_string()));
    let off = shown(&help(false));
    assert_eq!(
        off[4],
        (LineKind::Warning, "AI Status: OpenCode not found; install opencode to use ai commands".to_string())
    );
}

#[test]
fn history_lists_commands_numbered_from_one() {
    let mut h = History::default();
    h.push("ls".to_string());
    h.push("pwd".to_string());
    let lines = shown(&history(&h));
    assert_eq!(lines, vec![(LineKind::Normal, "   1  ls".to_string()), (LineKind::Normal, "   2  pwd".to_string())]);
    assert_eq!(numbered_line(9999, "x"), "10000  x");
}

#[test]
fn file_arguments_must_not_be_blank() {
    assert_eq!(file_argument("  a.txt ", "view").ok(), Some("a.txt"));
    assert_eq!(err(file_argument("  ", "view").map(|_| vec![])), "view: no file specified");
    assert_eq!(file_for_ai(" f.rs").ok(), Some("f.rs"));
    assert_eq!(err(file_for_ai("").map(|_| vec![])), "ai: no file specified");
}

#[test]
fn view_numbers_each_line() {
    let r = view_lines("a.txt", Ok("one\r\ntwo\n\nfour".to_string()));
    assert_eq!(
        shown(&r),
        vec![
            (LineKind::Dim, "-- a.txt --".to_string()),
            (LineKind::Normal, "   1  one".to_string()),
            (LineKind::Normal, "   2  two".to_string()),
            (LineKind::Normal, "   3  ".to_string()),
            (LineKind::Normal, "   4  four".to_string()),
        ]
    );
    assert_eq!(err(view_lines("a", Err("No such file".to_string()))), "view: No such file");
}

#[test]
fn save_checks_path_then_answer() {
    assert_eq!(err(save_target(" ", "answer").map(|_| vec![])), "save: no file specified");
    assert_eq!(err(save_target("f", " \n").map(|_| vec![])), "save: no AI response to write");
    assert_eq!(save_target(" f ", "answer").ok(), Some("f"));
    assert_eq!(shown(&save_done("f", Ok(()))), vec![(LineKind::Success, "written to f".to_string())]);
    assert_eq!(err(save_done("f", Err("denied".to_string()))), "save: denied");
}

#[test]
fn edit_reports_editor_and_exit_code() {
    assert_eq!(editor_choice(None), "nano");
    assert_eq!(editor_choice(Some("vim".to_string())), "vim");
    assert_eq!(
        shown(&edit_done("a.rs", "vim", Ok(Some(3)))),
        vec![(LineKind::Dim, "[closed a.rs in vim, exit 3]".to_string())]
    );
    assert_eq!(
        shown(&edit_done("a.rs", "vim", Ok(None))),
        vec![(LineKind::Dim, "[closed a.rs in vim, exit 0]".to_string())]
    );
    assert_eq!(err(edit_done("a.rs", "vim", Err("not found".to_string()))), "vim: not found");
}

#[test]
fn cd_paths_expand_home_and_join_cwd() {
    assert_eq!(cd_path("", Some("/home/u"), "/tmp"), "/home/u");
    assert_eq!(cd_path("  ", None, "/tmp"), "/tmp/.");
    assert_eq!(cd_path("~/src", Some("/home/u"), "/tmp"), "/home/u/src");
    assert_eq!(cd_path("~/src", Some("/home/u/"), "/tmp"), "/home/u/src");
    assert_eq!(cd_path("src", Some("/home/u"), "/tmp"), "/tmp/src");
    assert_eq!(cd_path("src", Some("/home/u"), "/"), "/src");
    assert_eq!(cd_path("/etc", Some("/home/u"), "/tmp"), "/etc");
    assert_eq!(cd_path("~user", Some("/home/u"), "/tmp"), "/tmp/~user");
    assert_eq!(expand_tilde("~", None), ".");
    assert_eq!(expand_tilde("~//etc", Some("/h")), "/etc");
    assert_eq!(join_path("", "a"), "a");
    assert_eq!(join_path("/a", ""), "/a/");
}

#[test]
fn cd_outcomes() {
    assert_eq!(cd_checked(Ok("/x".to_string()), true).ok(), Some("/x".to_string()));
    assert_eq!(err(cd_checked(Ok("/x".to_string()), false).map(|_| vec![])), "cd: target is not a directory");
    assert_eq!(err(cd_checked(Err("No such file or directory (os error 2)".to_string()), true).map(|_| vec![])), "cd: No such file or directory (os error 2)");
    assert!(cd_done(Ok(())).unwrap().is_empty());
    assert_eq!(err(cd_done(Err("denied".to_string()))), "cd: denied");
}

#[test]
fn project_summary() {
    assert_eq!(
        shown(&project_lines("/p", 3, 12)),
        vec![
            (LineKind::Success, "project: /p".to_string()),
            (LineKind::Dim, "3 directories, 12 files at top level".to_string()),
        ]
    );
}

#[test]
fn vram_formats() {
    assert_eq!(format_vram(Some(512), Some(8192)), "512 / 8192 MB");
    assert_eq!(format_vram(None, Some(8192)), "8192 MB");
    assert_eq!(format_vram(Some(1), None), "not reported");
    assert_eq!(format_vram(None, None), "not reported");
}

#[test]
fn ai_missing_message() {
    assert_eq!(
        shown(&unavailable_message()),
        vec![(LineKind::Error, "AI: OpenCode not installed or not on PATH. Install it, then restart RustProc.".to_string())]
    );
}

#[test]
fn prompts_embed_the_file() {
    assert_eq!(
        explain_prompt("fn f() {}"),
        "Explain what this code does. Be concise and focus on key logic:\n\n```\nfn f() {}\n```"
    );
    assert!(refactor_prompt("x").starts_with("Suggest specific refactoring improvements"));
    assert!(fix_prompt("x").ends_with("\n\n```\nx\n```"));
    assert_eq!(generate_prompt("a cli"), "a cli\n\nWrite clean code. Output only code, preferably in a fenced code block.");
    assert_eq!(read_failure("f.rs", "gone").to_string(), "cannot read f.rs: gone");
    assert_eq!(prompt_check("  ").unwrap_err().to_string(), "ai: no prompt specified");
    assert!(prompt_check("hi").is_ok());
}

#[test]
fn ai_replies_are_framed() {
    let ok = prompt_reply(Ok(output(true, Some(0), b"line one\nline two\n", b"")));
    assert_eq!(
        shown(&ok),
        vec![
            (LineKind::AiHeader, "-- AI Response --".to_string()),
            (LineKind::Ai, "line one".to_string()),
            (LineKind::Ai, "line two".to_string()),
            (LineKind::AiHeader, "-- end AI Response --".to_string()),
        ]
    );
    let failed = prompt_reply(Ok(output(false, Some(1), b"ignored", b"  bad key \n")));
    assert_eq!(shown(&failed)[1], (LineKind::Error, "opencode error: bad key".to_string()));
    assert_eq!(err(prompt_reply(Err("not found".to_string()))), "opencode: not found");
}

#[test]
fn invalid_utf8_is_replaced() {
    let r = prompt_reply(Ok(output(true, Some(0), b"ok \xff!", b"")));
    assert_eq!(shown(&r)[1], (LineKind::Ai, "ok \u{fffd}!".to_string()));
}

#[test]
fn explain_refactor_fix_prepend_their_note() {
    let o = || Ok(output(true, Some(0), b"answer", b""));
    let c = || Ok("fn main() {}".to_string());
    assert_eq!(shown(&ai_explain("m.rs", c(), o()))[0], (LineKind::Dim, "ai explain m.rs".to_string()));
    assert_eq!(shown(&ai_refactor("m.rs", c(), o()))[0], (LineKind::Dim, "ai refactor m.rs".to_string()));
    let fixed = shown(&ai_fix("m.rs", c(), o()));
    assert_eq!(fixed[0], (LineKind::Dim, "ai fix m.rs".to_string()));
    assert_eq!(fixed[2], (LineKind::Ai, "answer".to_string()));
    assert_eq!(err(ai_fix("m.rs", c(), Err("gone".to_string()))), "opencode: gone");
}

#[test]
fn explain_refactor_fix_check_the_file_first() {
    let o = || Ok(output(true, Some(0), b"answer", b""));
    assert_eq!(err(ai_explain("  ", Ok("x".to_string()), o())), "ai: no file specified");
    assert_eq!(
        err(ai_explain(" m.rs ", Err("No such file or directory (os error 2)".to_string()), o())),
        "cannot read m.rs: No such file or directory (os error 2)"
    );
    assert_eq!(err(ai_refactor("", Err("x".to_string()), o())), "ai: no file specified");
    assert_eq!(err(ai_fix("m.rs", Err("denied".to_string()), Err("unused".to_string()))), "cannot read m.rs: denied");
}

#[test]
fn code_blocks_are_extracted_between_outer_fences() {
    assert_eq!(extract_code_block("Here:\n```rust\nfn a() {}\n\nfn b() {}\n```\nDone"), "fn a() {}\n\nfn b() {}");
    assert_eq!(extract_code_block("```\na\n```\ntext\n```\nb\n```"), "a\n```\ntext\n```\nb");
    assert_eq!(extract_code_block("  ```\nx\n  ```"), "x");
    assert_eq!(extract_code_block("no fences here\n"), "no fences here\n");
    assert_eq!(extract_code_block("only ``` one\n```"), "only ``` one\n```");
    assert_eq!(extract_code_block("```\n```"), "");
    assert_eq!(extract_code_block("```"), "```");
}

#[test]
fn ai_generate_steps() {
    assert_eq!(generate_check(" ", "p").unwrap_err().to_string(), "ai gen: no output file specified");
    assert_eq!(generate_check("f", " ").unwrap_err().to_string(), "ai gen: no prompt specified");
    assert!(generate_check("f", "p").is_ok());
    let (lines, code) = generate_reply("out.rs", "a cli", Ok(output(true, Some(0), b"Sure:\n```rust\nfn main() {}\n```\n", b""))).ok().unwrap();
    assert_eq!(lines[0].text, "ai gen out.rs \"a cli\"");
    assert_eq!(lines.len(), 7);
    assert_eq!(code, Some("fn main() {}".to_string()));
    assert_eq!(response_text(&lines), "Sure:\n```rust\nfn main() {}\n```");
    let done = generate_done(lines.clone(), "out.rs", Some(Ok(()))).unwrap();
    assert_eq!(done.last().unwrap().text, "written to out.rs");
    assert_eq!(done.last().unwrap().kind, LineKind::Success);
    let failed = generate_done(vec![], "out.rs", Some(Err("denied".to_string())));
    assert_eq!(err(failed), "ai gen: could not write generated code to out.rs: denied");
    let unwritten = generate_done(lines, "out.rs", None).unwrap();
    assert_eq!(unwritten.len(), 7);
    assert_eq!(unwritten.last().unwrap().text, "-- end AI Response --");
}

#[test]
fn failed_generation_writes_nothing() {
    let (lines, code) =
        generate_reply("out.rs", "a cli", Ok(output(false, Some(1), b"", b"boom"))).ok().unwrap();
    assert_eq!(code, None);
    assert!(lines.iter().all(|l| l.kind != LineKind::Ai));
    let (_, code) = generate_reply("out.rs", "x", Ok(output(true, Some(0), b"```\n```", b""))).ok().unwrap();
    assert_eq!(code, None);
}

#[test]
fn file_requests_check_path_then_read() {
    assert_eq!(err_of(explain_request("  ", Ok("x".to_string()))), "ai: no file specified");
    assert_eq!(
        err_of(refactor_request(" a.rs ", Err("No such file".to_string()))),
        "cannot read a.rs: No such file"
    );
    assert_eq!(err_of(fix_request("", Err("e".to_string()))), "ai: no file specified");
    assert_eq!(explain_request("a.rs", Ok("code".to_string())).ok().unwrap(), explain_prompt("code"));
    assert_eq!(refactor_request("a.rs", Ok("code".to_string())).ok().unwrap(), refactor_prompt("code"));
    assert_eq!(fix_request("a.rs", Ok("code".to_string())).ok().unwrap(), fix_prompt("code"));
}

fn err_of(r: Result<String, ShellError>) -> String {
    match r {
        Err(e) => e.to_string(),
        Ok(_) => panic!("expected an error"),
    }
}

#[test]
fn opencode_session_note() {
    assert_eq!(shown(&opencode_done(Ok(Some(2)))), vec![(LineKind::Dim, "[opencode exited with code 2]".to_string())]);
    assert_eq!(shown(&opencode_done(Ok(None))), vec![(LineKind::Dim, "[opencode exited with code 0]".to_string())]);
    assert_eq!(err(opencode_done(Err("missing".to_string()))), "opencode: missing");
}

#[test]
fn external_commands_are_planned() {
    assert_eq!(plan_external("  "), None);
    assert_eq!(plan_external(" ls -l "), Some((false, "ls -l")));
    assert_eq!(plan_external("sleep 5 &"), Some((true, "sleep 5")));
    assert_eq!(plan_external("sleep 5 && "), Some((true, "sleep 5")));
    assert_eq!(plan_external("a & b"), Some((false, "a & b")));
    assert_eq!(plan_external("&"), Some((true, "")));
}

#[test]
fn external_results() {
    assert_eq!(
        shown(&background_started("sleep 5", Ok(4242))),
        vec![(LineKind::Dim, "[background pid 4242] sleep 5".to_string())]
    );
    assert_eq!(err(background_started("x", Err("nope".to_string()))), "failed to start background command: nope");
    let failed = foreground_finished(Ok(output(false, Some(2), b"out\n", b"err1\nerr2")));
    assert_eq!(
        shown(&failed),
        vec![
            (LineKind::Normal, "out".to_string()),
            (LineKind::Error, "err1".to_string()),
            (LineKind::Error, "err2".to_string()),
            (LineKind::Dim, "[exit 2]".to_string()),
        ]
    );
    let signalled = finished_lines(false, None, "", "");
    assert_eq!(signalled[0].text, "[exit 1]");
    assert!(finished_lines(true, Some(0), "", "").is_empty());
    assert_eq!(exit_code(&output(false, Some(-3), b"", b"")), -3);
    assert_eq!(exit_code(&output(false, None, b"", b"")), 1);
    assert_eq!(err(foreground_finished(Err("sh missing".to_string()))), "failed to execute command: sh missing");
}

#[test]
fn sysinfo_report() {
    let mut gpu = rustproc::system::GpuInfo::default();
    gpu.vram_total_mb = Some(8192);
    let s = rustproc::commands::builtins::Snapshot {
        cpu_usage: "12.5".to_string(),
        cpu_brand: "Ryzen".to_string(),
        cpu_vendor: "AuthenticAMD".to_string(),
        cpu_logical_cores: 16,
        cpu_frequency_mhz: 4200,
        used_memory_mb: 4096,
        total_memory_mb: 16384,
        memory_pct: "25".to_string(),
        gpu,
        gpu_temperature: "n/a".to_string(),
        process_count: 300,
    };
    let lines = shown(&rustproc::commands::builtins::sysinfo_snapshot(&s));
    assert_eq!(lines[0].1, "CPU: 12.5% | Ryzen (AuthenticAMD) | 16 logical cores | max 4200 MHz");
    assert_eq!(lines[1].1, "RAM: 4096 / 16384 MB (25%)");
    assert_eq!(lines[2].1, "GPU: Unknown Not detected | VRAM 8192 MB | temp n/a | source sysinfo/sysfs");
    assert_eq!(lines[3].1, "PIDs: 300");
}

#[test]
fn view_checks_path_then_numbers_lines() {
    assert_eq!(err(view("  ", Ok("x".to_string()))), "view: no file specified");
    assert_eq!(err(view(" a.rs ", Err("No such file".to_string()))), "view: No such file");
    let r = shown(&view(" a.rs ", Ok("fn main() {}\n".to_string())));
    assert_eq!(
        r,
        vec![
            (LineKind::Dim, "-- a.rs --".to_string()),
            (LineKind::Normal, "   1  fn main() {}".to_string()),
        ]
    );
}
