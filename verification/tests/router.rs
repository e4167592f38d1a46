use rustproc::shell::router::{classify, split_first_word, AiCmd, BuiltinCmd, DispatchTarget};

fn builtin(raw: &str) -> String {
    match classify(raw) {
        DispatchTarget::Builtin(BuiltinCmd::Cd(p)) => format!("cd[{}]", p),
        DispatchTarget::Builtin(BuiltinCmd::Help) => "help".to_string(),
        DispatchTarget::Builtin(BuiltinCmd::Clear) => "clear".to_string(),
        DispatchTarget::Builtin(BuiltinCmd::History) => "history".to_string(),
        DispatchTarget::Builtin(BuiltinCmd::Sysinfo) => "sysinfo".to_string(),
        DispatchTarget::Builtin(BuiltinCmd::View(p)) => format!("view[{}]", p),
        DispatchTarget::Builtin(BuiltinCmd::Save(p)) => format!("save[{}]", p),
        DispatchTarget::Builtin(BuiltinCmd::Edit(p)) => format!("edit[{}]", p),
        DispatchTarget::Builtin(BuiltinCmd::Project(p)) => format!("project[{}]", p),
        DispatchTarget::Builtin(BuiltinCmd::Exit) => "exit".to_string(),
        DispatchTarget::AiCommand(AiCmd::Prompt(p)) => format!("ai[{}]", p),
        DispatchTarget::AiCommand(AiCmd::Explain(p)) => format!("explain[{}]", p),
        DispatchTarget::AiCommand(AiCmd::Refactor(p)) => format!("refactor[{}]", p),
        DispatchTarget::AiCommand(AiCmd::Fix(p)) => format!("fix[{}]", p),
        DispatchTarget::AiCommand(AiCmd::Generate(f, p)) => format!("gen[{}][{}]", f, p),
        DispatchTarget::AiCommand(AiCmd::OpenCode) => "opencode".to_string(),
        DispatchTarget::External(c) => format!("ext[{}]", c),
        DispatchTarget::Empty => "empty".to_string(),
    }
}

#[test]
fn blank_lines_are_empty() {
    assert_eq!(builtin(""), "empty");
    assert_eq!(builtin("   \t  "), "empty");
    assert_eq!(builtin("\u{3000}\u{a0}\n"), "empty");
}

#[test]
fn builtins_are_recognised() {
    assert_eq!(builtin("exit"), "exit");
    assert_eq!(builtin("quit"), "exit");
    assert_eq!(builtin("help"), "help");
    assert_eq!(builtin("clear"), "clear");
    assert_eq!(builtin("history"), "history");
    assert_eq!(builtin("sysinfo"), "sysinfo");
    assert_eq!(builtin("cd"), "cd[]");
    assert_eq!(builtin("  cd   /tmp/x  "), "cd[/tmp/x]");
    assert_eq!(builtin("view src/main.rs"), "view[src/main.rs]");
    assert_eq!(builtin("save out.txt"), "save[out.txt]");
    assert_eq!(builtin("edit a b"), "edit[a b]");
    assert_eq!(builtin("project ~/code"), "project[~/code]");
}

#[test]
fn ai_commands_are_recognised() {
    assert_eq!(builtin("ai \"what is rust\""), "ai[what is rust]");
    assert_eq!(builtin("ask 'why'"), "ai[why]");
    assert_eq!(builtin("ai explain main.rs"), "explain[main.rs]");
    assert_eq!(builtin("ai refactor  lib.rs "), "refactor[lib.rs]");
    assert_eq!(builtin("ai fix x.rs"), "fix[x.rs]");
    assert_eq!(builtin("ai gen out.rs \"a parser\""), "gen[out.rs][a parser]");
    assert_eq!(builtin("ai generate out.rs 'a parser'"), "gen[out.rs][a parser]");
    assert_eq!(builtin("ai gen"), "gen[][]");
    assert_eq!(builtin("opencode"), "opencode");
    assert_eq!(builtin("ai"), "ai[]");
}

#[test]
fn quotes_only_come_off_in_matching_pairs() {
    assert_eq!(builtin("ai \"half"), "ai[\"half]");
    assert_eq!(builtin("ai \"mixed'"), "ai[\"mixed']");
    assert_eq!(builtin("ai \""), "ai[\"]");
    assert_eq!(builtin("ai \"\""), "ai[]");
    assert_eq!(builtin("ai \" padded \""), "ai[ padded ]");
}

#[test]
fn other_input_runs_externally() {
    assert_eq!(builtin("ls -la"), "ext[ls -la]");
    assert_eq!(builtin("  git status  "), "ext[git status]");
    assert_eq!(builtin("run help"), "ext[help]");
    assert_eq!(builtin("run"), "ext[]");
    assert_eq!(builtin("Exit"), "ext[Exit]");
    assert_eq!(builtin("exit\tnow"), "exit");
}

#[test]
fn surrounding_whitespace_does_not_matter() {
    for raw in ["cd /x", "ai explain f.rs", "ls  -l", "ask \"q\""] {
        let padded = format!(" \t{}\n ", raw);
        assert_eq!(builtin(raw), builtin(&padded));
    }
}

#[test]
fn ask_is_an_alias_for_ai() {
    for rest in ["\"q\"", "explain f.rs", "gen out.rs 'x'", "", "  fix  a.rs "] {
        assert_eq!(builtin(&format!("ask {}", rest)), builtin(&format!("ai {}", rest)));
    }
}

#[test]
fn first_word_splits_on_whitespace() {
    assert_eq!(split_first_word("  ai   explain  main.rs "), ("ai", "explain  main.rs"));
    assert_eq!(split_first_word("ls"), ("ls", ""));
    assert_eq!(split_first_word(" \t "), ("", ""));
    assert_eq!(split_first_word("cd\u{3000}/tmp"), ("cd", "/tmp"));
}
