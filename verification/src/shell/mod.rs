//! The interactive shell: a session state driven by key presses, the routing
//! of entered commands, and the bounded output buffer.

pub mod history;
pub mod router;

use vstd::prelude::*;

use crate::commands::ai::{ai_text_lines, ai_texts, unavailable_message, unavailable_spec};
use crate::commands::builtins::{help, help_spec, history as history_lines, history_spec};
use crate::commands::{
    line, lines_view, result_view, CommandResult, LineKind, LineSpec, OutputLine,
};
use crate::shell::history::{
    next_spec, previous_spec, push_spec, History, HistoryView, opt_str_view,
};
use crate::shell::router::{
    classify, classify_spec, split_first_word_spec, AiCmd, AiRoute, BuiltinCmd, BuiltinRoute, DispatchTarget, Route,
};
use crate::text::{concat2, is_blank, is_ws, join, join_strings, owned, strings_view, trim, trim_str};

verus! {

/// The most output lines the shell keeps.
pub const MAX_LINES: usize = 500;

/// What an entered command does to the session.
pub enum DispatchOutcome {
    Lines(CommandResult),
    Clear,
    Exit,
}

/// A dispatch outcome, its lines taken as kinds and characters.
pub enum OutcomeView {
    Lines(Result<Seq<LineSpec>, Seq<char>>),
    Clear,
    Exit,
}

impl View for DispatchOutcome {
    type V = OutcomeView;

    open spec fn view(&self) -> OutcomeView {
        match self {
            DispatchOutcome::Lines(r) => OutcomeView::Lines(result_view(*r)),
            DispatchOutcome::Clear => OutcomeView::Clear,
            DispatchOutcome::Exit => OutcomeView::Exit,
        }
    }
}

/// How an entered command is carried out: either its outcome is already
/// known, or the built-in, AI or external command must be run.
pub enum Dispatch<'a> {
    Done(DispatchOutcome),
    Builtin(BuiltinCmd<'a>),
    Ai(AiCmd<'a>),
    External(&'a str),
}

/// A dispatch decision, its texts taken as characters.
pub enum DispatchView {
    Done(OutcomeView),
    Builtin(BuiltinRoute),
    Ai(AiRoute),
    External(Seq<char>),
}

impl<'a> View for Dispatch<'a> {
    type V = DispatchView;

    open spec fn view(&self) -> DispatchView {
        match self {
            Dispatch::Done(o) => DispatchView::Done(o@),
            Dispatch::Builtin(b) => DispatchView::Builtin(b@),
            Dispatch::Ai(a) => DispatchView::Ai(a@),
            Dispatch::External(s) => DispatchView::External(s@),
        }
    }
}

/// How a routed command is carried out: blank lines, `exit`, `clear`,
/// `help` and `history` are answered at once, as are AI commands while
/// OpenCode is missing; everything else must be run.
pub open spec fn dispatch_spec(route: Route, opencode_ok: bool, h: HistoryView) -> DispatchView {
    match route {
        Route::Empty => DispatchView::Done(OutcomeView::Lines(Ok(Seq::empty()))),
        Route::Builtin(b) => match b {
            BuiltinRoute::Exit => DispatchView::Done(OutcomeView::Exit),
            BuiltinRoute::Clear => DispatchView::Done(OutcomeView::Clear),
            BuiltinRoute::Help => DispatchView::Done(OutcomeView::Lines(Ok(help_spec(opencode_ok)))),
            BuiltinRoute::History => DispatchView::Done(OutcomeView::Lines(Ok(history_spec(h)))),
            _ => DispatchView::Builtin(b),
        },
        Route::AiCommand(a) => if opencode_ok {
            DispatchView::Ai(a)
        } else {
            DispatchView::Done(OutcomeView::Lines(Ok(unavailable_spec())))
        },
        Route::External(s) => DispatchView::External(s),
    }
}

/// Decides how an entered command is carried out (see `dispatch_spec`).
pub fn dispatch<'a>(command: &'a str, history: &History, opencode_ok: bool) -> (r: Dispatch<'a>)
    ensures
        r@ == dispatch_spec(classify_spec(command@), opencode_ok, history@),
{
    match classify(command) {
        DispatchTarget::Empty => {
            let v: Vec<OutputLine> = Vec::new();
            assert(lines_view(v@) =~= Seq::<LineSpec>::empty());
            Dispatch::Done(DispatchOutcome::Lines(Ok(v)))
        },
        DispatchTarget::Builtin(BuiltinCmd::Exit) => Dispatch::Done(DispatchOutcome::Exit),
        DispatchTarget::Builtin(BuiltinCmd::Clear) => Dispatch::Done(DispatchOutcome::Clear),
        DispatchTarget::Builtin(BuiltinCmd::Help) => Dispatch::Done(
            DispatchOutcome::Lines(help(opencode_ok)),
        ),
        DispatchTarget::Builtin(BuiltinCmd::History) => Dispatch::Done(
            DispatchOutcome::Lines(history_lines(history)),
        ),
        DispatchTarget::Builtin(cmd) => Dispatch::Builtin(cmd),
        DispatchTarget::AiCommand(cmd) => {
            if !opencode_ok {
                Dispatch::Done(DispatchOutcome::Lines(unavailable_message()))
            } else {
                Dispatch::Ai(cmd)
            }
        },
        DispatchTarget::External(raw) => Dispatch::External(raw),
    }
}

/// The newest `MAX_LINES` lines of the output.
pub open spec fn cap_spec(output: Seq<LineSpec>) -> Seq<LineSpec> {
    if output.len() > MAX_LINES {
        output.skip(output.len() - MAX_LINES)
    } else {
        output
    }
}

/// Drops the oldest lines so that at most `MAX_LINES` remain.
pub fn cap_output(output: &mut Vec<OutputLine>)
    ensures
        lines_view(final(output)@) == cap_spec(lines_view(old(output)@)),
{
    let n = output.len();
    if n > MAX_LINES {
        let tail = output.split_off(n - MAX_LINES);
        *output = tail;
        assert(lines_view(output@) =~= lines_view(old(output)@).skip(n - MAX_LINES));
    }
}

/// The remembered AI answer after a command: the answer lines of its output
/// joined with newlines, or the previous answer when it produced none.
pub open spec fn last_ai_spec(lines: Seq<LineSpec>, last: Seq<char>) -> Seq<char> {
    if ai_texts(lines).len() > 0 {
        join(ai_texts(lines), "\n"@)
    } else {
        last
    }
}

/// Remembers the AI answer among the lines, if there is one (see `last_ai_spec`).
pub fn update_last_ai_response(lines: &Vec<OutputLine>, last_ai_response: &mut String)
    ensures
        final(last_ai_response)@ == last_ai_spec(lines_view(lines@), old(last_ai_response)@),
{
    let texts = ai_text_lines(lines);
    if texts.len() > 0 {
        *last_ai_response = join_strings(&texts, "\n");
    }
}


/// A key press, as the prompt sees it.
#[derive(Clone, Copy, Debug, PartialEq, Eq, Structural)]
pub enum Key {
    /// A character typed without Ctrl.
    Char(char),
    /// A character typed with Ctrl held.
    Control(char),
    Backspace,
    Enter,
    Esc,
    Up,
    Down,
    /// Any other key.
    Other,
}

/// What the loop does after a key press.
pub enum KeyAction {
    Continue,
    Exit,
    /// Carry out the entered command (already trimmed and recorded).
    Run(String),
}

/// A key action, the command taken as characters.
pub enum KeyActionView {
    Continue,
    Exit,
    Run(Seq<char>),
}

impl View for KeyAction {
    type V = KeyActionView;

    open spec fn view(&self) -> KeyActionView {
        match self {
            KeyAction::Continue => KeyActionView::Continue,
            KeyAction::Exit => KeyActionView::Exit,
            KeyAction::Run(c) => KeyActionView::Run(c@),
        }
    }
}

/// The state of an interactive session: the prompt's input, the output
/// lines, the history, the last AI answer, and whether OpenCode is available.
pub struct ShellSession {
    pub input: String,
    pub output: Vec<OutputLine>,
    pub history: History,
    pub last_ai_response: String,
    pub opencode_ok: bool,
}

/// A session, its texts taken as characters.
pub struct SessionView {
    pub input: Seq<char>,
    pub output: Seq<LineSpec>,
    pub history: HistoryView,
    pub last_ai_response: Seq<char>,
    pub opencode_ok: bool,
}

impl View for ShellSession {
    type V = SessionView;

    open spec fn view(&self) -> SessionView {
        SessionView {
            input: self.input@,
            output: lines_view(self.output@),
            history: self.history@,
            last_ai_response: self.last_ai_response@,
            opencode_ok: self.opencode_ok,
        }
    }
}

/// The greeting a session starts with.
pub open spec fn greeting_spec(opencode_ok: bool) -> Seq<LineSpec> {
    seq![
        line(LineKind::Success, "RustProc Shell ready. Type 'help' for commands."@),
        if opencode_ok {
            line(LineKind::Success, "AI: OpenCode connected."@)
        } else {
            line(LineKind::Warning, "AI: OpenCode not found. AI commands will show install guidance."@)
        },
    ]
}

/// The history with navigation ended.
pub open spec fn reset_spec(h: HistoryView) -> HistoryView {
    HistoryView { entries: h.entries, cursor: None }
}

/// The session after typing `c`.
pub open spec fn typed_spec(s: SessionView, c: char) -> SessionView {
    SessionView { input: s.input.push(c), history: reset_spec(s.history), ..s }
}

/// What a key press does: Ctrl+C, Ctrl+D and Esc exit, other characters are
/// typed, Backspace deletes the last character, Up and
/// Down walk the history, and Enter takes the trimmed input as a command,
/// records it and shows it (a blank input only clears the prompt).
pub open spec fn key_spec(s: SessionView, key: Key) -> (SessionView, KeyActionView) {
    match key {
        Key::Control(c) => if c == 'c' || c == 'd' {
            (s, KeyActionView::Exit)
        } else {
            (typed_spec(s, c), KeyActionView::Continue)
        },
        Key::Char(c) => (typed_spec(s, c), KeyActionView::Continue),
        Key::Backspace => (
            SessionView {
                input: if s.input.len() > 0 {
                    s.input.drop_last()
                } else {
                    s.input
                },
                ..s
            },
            KeyActionView::Continue,
        ),
        Key::Enter => {
            let command = trim(s.input);
            if command.len() == 0 {
                (
                    SessionView { input: Seq::empty(), history: reset_spec(s.history), ..s },
                    KeyActionView::Continue,
                )
            } else {
                (
                    SessionView {
                        input: Seq::empty(),
                        history: push_spec(reset_spec(s.history), command),
                        output: s.output.push(line(LineKind::Dim, "$ "@ + command)),
                        ..s
                    },
                    KeyActionView::Run(command),
                )
            }
        },
        Key::Esc => (s, KeyActionView::Exit),
        Key::Up => {
            let (h, shown) = previous_spec(s.history);
            (
                SessionView {
                    history: h,
                    input: match shown {
                        Some(t) => t,
                        None => s.input,
                    },
                    ..s
                },
                KeyActionView::Continue,
            )
        },
        Key::Down => {
            let (h, shown) = next_spec(s.history);
            (
                SessionView {
                    history: h,
                    input: match shown {
                        Some(t) => t,
                        None => s.input,
                    },
                    ..s
                },
                KeyActionView::Continue,
            )
        },
        Key::Other => (s, KeyActionView::Continue),
    }
}

/// What carrying out a command does to the session: `exit` ends it; `clear`
/// empties the output; lines are appended (and an AI answer among them is
/// remembered); an error is shown as an error line; then only the newest
/// `MAX_LINES` lines are kept. The flag tells whether the session ends.
pub open spec fn apply_spec(s: SessionView, outcome: OutcomeView) -> (SessionView, bool) {
    match outcome {
        OutcomeView::Exit => (s, true),
        OutcomeView::Clear => (SessionView { output: Seq::empty(), ..s }, false),
        OutcomeView::Lines(Ok(lines)) => (
            SessionView {
                output: cap_spec(s.output + lines),
                last_ai_response: last_ai_spec(lines, s.last_ai_response),
                ..s
            },
            false,
        ),
        OutcomeView::Lines(Err(message)) => (
            SessionView {
                output: cap_spec(s.output.push(line(LineKind::Error, message))),
                ..s
            },
            false,
        ),
    }
}

/// Capping keeps the newest lines: at most `MAX_LINES` of them, in order,
/// ending with the newest line.
pub proof fn lemma_cap_keeps_newest(output: Seq<LineSpec>)
    ensures
        cap_spec(output).len() == if output.len() > MAX_LINES {
            MAX_LINES as nat
        } else {
            output.len()
        },
        cap_spec(output).is_suffix_of(output),
        output.len() <= MAX_LINES ==> cap_spec(output) == output,
{
    if output.len() > MAX_LINES {
        assert(cap_spec(output) =~= output.subrange(
            output.len() - MAX_LINES,
            output.len() as int,
        ));
    } else {
        assert(output =~= output.subrange(0, output.len() as int));
    }
}

/// A command's lines go below what is already on screen: while they fit,
/// everything stays; beyond `MAX_LINES` only the oldest lines go, and the
/// newest line is always the command's last. An error shows as one error
/// line at the bottom.
pub proof fn lemma_command_output_appended(s: SessionView, lines: Seq<LineSpec>, message: Seq<char>)
    ensures
        ({
            let out = apply_spec(s, OutcomeView::Lines(Ok(lines))).0.output;
            &&& s.output.len() + lines.len() <= MAX_LINES ==> out == s.output + lines
            &&& out.is_suffix_of(s.output + lines)
            &&& out.len() == if s.output.len() + lines.len() > MAX_LINES {
                MAX_LINES as int
            } else {
                (s.output.len() + lines.len()) as int
            }
        }),
        ({
            let out = apply_spec(s, OutcomeView::Lines(Err(message))).0.output;
            &&& out.last() == line(LineKind::Error, message)
            &&& s.output.len() < MAX_LINES ==> out == s.output.push(line(LineKind::Error, message))
        }),
{
    lemma_cap_keeps_newest(s.output + lines);
    let e = s.output.push(line(LineKind::Error, message));
    lemma_cap_keeps_newest(e);
    let c = cap_spec(e);
    assert(c.last() == e.last()) by {
        assert(c.is_suffix_of(e));
        assert(c.len() > 0);
        assert(c == e.subrange(e.len() - c.len(), e.len() as int));
    }
}

/// After any command that does not end the session, the output holds at
/// most `MAX_LINES` lines.
pub proof fn lemma_output_stays_bounded(s: SessionView, outcome: OutcomeView)
    requires
        !(outcome is Exit),
    ensures
        !apply_spec(s, outcome).1,
        apply_spec(s, outcome).0.output.len() <= MAX_LINES,
{
    match outcome {
        OutcomeView::Lines(Ok(lines)) => lemma_cap_keeps_newest(s.output + lines),
        OutcomeView::Lines(Err(m)) => lemma_cap_keeps_newest(s.output.push(line(LineKind::Error, m))),
        _ => {},
    }
}

/// One turn of the loop: a key press and, when it enters a command, that
/// command's outcome. The flag tells whether the session ends.
pub open spec fn turn_spec(s: SessionView, key: Key, outcome: OutcomeView) -> (SessionView, bool) {
    let (next, action) = key_spec(s, key);
    match action {
        KeyActionView::Run(_) => apply_spec(next, outcome),
        KeyActionView::Continue => (next, false),
        KeyActionView::Exit => (next, true),
    }
}

/// The session after a run of turns, and whether one of them ended it (the
/// turns after that one are not taken).
pub open spec fn run_spec(s: SessionView, turns: Seq<(Key, OutcomeView)>) -> (SessionView, bool)
    decreases turns.len(),
{
    if turns.len() == 0 {
        (s, false)
    } else {
        let (before, ended) = run_spec(s, turns.drop_last());
        if ended {
            (before, true)
        } else {
            turn_spec(before, turns.last().0, turns.last().1)
        }
    }
}

/// A turn that does not end the session leaves at most `MAX_LINES` output
/// lines, if there were at most that many before it.
pub proof fn lemma_turn_keeps_output_bounded(s: SessionView, key: Key, outcome: OutcomeView)
    requires
        s.output.len() <= MAX_LINES,
    ensures
        !turn_spec(s, key, outcome).1 ==> turn_spec(s, key, outcome).0.output.len() <= MAX_LINES,
{
    let (next, action) = key_spec(s, key);
    if action is Run && !(outcome is Exit) {
        lemma_output_stays_bounded(next, outcome);
    }
}

/// However the keys and outcomes come, a session that starts with at most
/// `MAX_LINES` output lines (the greeting has two) shows at most that many
/// after every turn while it runs.
pub proof fn lemma_output_bounded_over_run(s: SessionView, turns: Seq<(Key, OutcomeView)>)
    requires
        s.output.len() <= MAX_LINES,
    ensures
        !run_spec(s, turns).1 ==> run_spec(s, turns).0.output.len() <= MAX_LINES,
        greeting_spec(s.opencode_ok).len() <= MAX_LINES,
    decreases turns.len(),
{
    if turns.len() > 0 {
        lemma_output_bounded_over_run(s, turns.drop_last());
        let (before, ended) = run_spec(s, turns.drop_last());
        if !ended {
            lemma_turn_keeps_output_bounded(before, turns.last().0, turns.last().1);
        }
    }
}

/// Enter on a blank prompt only clears it; any other input is run as its
/// trimmed text, recorded in the history and echoed as `$ <command>`.
pub proof fn lemma_enter_runs_trimmed_input(s: SessionView)
    ensures
        is_blank(s.input) ==> key_spec(s, Key::Enter).1 == KeyActionView::Continue
            && key_spec(s, Key::Enter).0.history.entries == s.history.entries
            && key_spec(s, Key::Enter).0.output == s.output
            && key_spec(s, Key::Enter).0.input.len() == 0,
        !is_blank(s.input) ==> key_spec(s, Key::Enter).1 == KeyActionView::Run(trim(s.input))
            && key_spec(s, Key::Enter).0.history.entries.last() == trim(s.input)
            && key_spec(s, Key::Enter).0.output.last() == line(LineKind::Dim, "$ "@ + trim(s.input))
            && key_spec(s, Key::Enter).0.input.len() == 0,
        !is_blank(s.input) ==> key_spec(s, Key::Enter).0.output.len() == s.output.len() + 1
            && s.output.is_prefix_of(key_spec(s, Key::Enter).0.output),
{
    if !is_blank(s.input) {
        crate::text::lemma_trim_idempotent(s.input);
    }
}

/// Only Enter on a non-blank prompt writes to the output pane; every other
/// key press leaves the lines on screen as they were.
pub proof fn lemma_keys_keep_output(s: SessionView, key: Key)
    requires
        key != Key::Enter || is_blank(s.input),
    ensures
        key_spec(s, key).0.output == s.output,
{
}

/// Backspace takes back exactly the character just typed.
pub proof fn lemma_backspace_undoes_typing(s: SessionView, c: char)
    ensures
        key_spec(key_spec(s, Key::Char(c)).0, Key::Backspace).0.input == s.input,
        key_spec(s, Key::Char(c)).0.input.len() == s.input.len() + 1,
        key_spec(s, Key::Char(c)).0.input.last() == c,
{
    assert(s.input.push(c).drop_last() =~= s.input);
}

/// Pressing Up right after entering a command brings that command back to
/// the prompt.
pub proof fn lemma_up_recalls_entered_command(s: SessionView)
    requires
        !is_blank(s.input),
    ensures
        key_spec(key_spec(s, Key::Enter).0, Key::Up).0.input == trim(s.input),
{
    crate::text::lemma_trim_idempotent(s.input);
}

/// While OpenCode is missing, every AI command is answered with the install
/// guidance, and nothing is run.
pub proof fn lemma_ai_commands_need_opencode(raw: Seq<char>, h: HistoryView)
    requires
        classify_spec(raw) is AiCommand,
    ensures
        dispatch_spec(classify_spec(raw), false, h) == DispatchView::Done(
            OutcomeView::Lines(Ok(unavailable_spec())),
        ),
{
}

/// `clear` empties the output and keeps everything else.
pub proof fn lemma_clear_empties_output(s: SessionView)
    ensures
        apply_spec(s, OutcomeView::Clear) == (SessionView { output: Seq::empty(), ..s }, false),
        dispatch_spec(classify_spec("clear"@), s.opencode_ok, s.history) == DispatchView::Done(
            OutcomeView::Clear,
        ),
{
    reveal_strlit("clear");
    reveal_strlit("exit");
    reveal_strlit("quit");
    reveal_strlit("cd");
    reveal_strlit("help");
    let c = seq!['c', 'l', 'e', 'a', 'r'];
    assert("clear"@ =~= c);
    assert(c[0] == 'c' && !is_ws(c[0]) && !is_ws(c.last()));
    crate::text::lemma_trim_fixed(c);
    assert(c + seq![' '] + Seq::<char>::empty() =~= c + seq![' ']);
    router::lemma_split_word_then_rest(c, Seq::<char>::empty());
    assert(trim(c + seq![' ']) =~= c) by {
        crate::text::lemma_trim_back_concat(c, seq![' ']);
        assert(seq![' '].drop_last() =~= Seq::<char>::empty());
    }
    assert(split_first_word_spec(c + seq![' ']) == split_first_word_spec(trim(c + seq![' '])));
    assert(c != "exit"@ && c != "quit"@ && c != "cd"@ && c != "help"@);
}

/// Ctrl+C, Ctrl+D and Esc end the session without changing it.
pub proof fn lemma_exit_keys(s: SessionView)
    ensures
        key_spec(s, Key::Esc) == (s, KeyActionView::Exit),
        key_spec(s, Key::Control('c')) == (s, KeyActionView::Exit),
        key_spec(s, Key::Control('d')) == (s, KeyActionView::Exit),
{
}

impl ShellSession {
    /// A new session: empty input and history, and the greeting.
    pub fn new(opencode_ok: bool) -> (s: Self)
        ensures
            s@.input == Seq::<char>::empty(),
            s@.output == greeting_spec(opencode_ok),
            s@.history.entries == Seq::<Seq<char>>::empty(),
            s@.history.cursor == None::<int>,
            s@.last_ai_response == Seq::<char>::empty(),
            s@.opencode_ok == opencode_ok,
    {
        let mut output: Vec<OutputLine> = Vec::new();
        output.push(OutputLine::success(owned("RustProc Shell ready. Type 'help' for commands.")));
        if opencode_ok {
            output.push(OutputLine::success(owned("AI: OpenCode connected.")));
        } else {
            output.push(
                OutputLine::warning(
                    owned("AI: OpenCode not found. AI commands will show install guidance."),
                ),
            );
        }
        assert(lines_view(output@) =~= greeting_spec(opencode_ok));
        ShellSession {
            input: String::new(),
            output,
            history: History::default(),
            last_ai_response: String::new(),
            opencode_ok,
        }
    }

    fn type_char(&mut self, c: char)
        ensures
            final(self)@ == typed_spec(old(self)@, c),
    {
        crate::text::push_char(&mut self.input, c);
        self.history.reset_cursor();
    }

    /// Handles one key press (see `key_spec`).
    pub fn handle_key(&mut self, key: Key) -> (action: KeyAction)
        ensures
            (final(self)@, action@) == key_spec(old(self)@, key),
    {
        match key {
            Key::Control(c) => {
                if c == 'c' || c == 'd' {
                    KeyAction::Exit
                } else {
                    self.type_char(c);
                    KeyAction::Continue
                }
            },
            Key::Char(c) => {
                self.type_char(c);
                KeyAction::Continue
            },
            Key::Backspace => {
                let chars = crate::text::to_chars(self.input.as_str());
                let n = chars.len();
                if n > 0 {
                    self.input = crate::text::string_from_range(&chars, 0, n - 1);
                    assert(chars@.subrange(0, n - 1) =~= old(self)@.input.drop_last());
                }
                KeyAction::Continue
            },
            Key::Enter => {
                let command = owned(trim_str(self.input.as_str()));
                self.input = String::new();
                self.history.reset_cursor();
                if command.as_str().unicode_len() == 0 {
                    return KeyAction::Continue;
                }
                self.history.push(command.clone());
                let ghost before = lines_view(self.output@);
                self.output.push(OutputLine::dim(concat2("$ ", command.as_str())));
                assert(lines_view(self.output@) =~= before.push(
                    line(LineKind::Dim, "$ "@ + command@),
                ));
                KeyAction::Run(command)
            },
            Key::Esc => KeyAction::Exit,
            Key::Up => {
                match self.history.previous() {
                    Some(p) => {
                        self.input = owned(p);
                    },
                    None => {},
                }
                KeyAction::Continue
            },
            Key::Down => {
                match self.history.next() {
                    Some(p) => {
                        self.input = owned(p);
                    },
                    None => {},
                }
                KeyAction::Continue
            },
            Key::Other => KeyAction::Continue,
        }
    }

    /// Applies the outcome of an entered command (see `apply_spec`); returns
    /// whether the session ends.
    pub fn apply_outcome(&mut self, outcome: DispatchOutcome) -> (exit: bool)
        ensures
            (final(self)@, exit) == apply_spec(old(self)@, outcome@),
    {
        match outcome {
            DispatchOutcome::Exit => true,
            DispatchOutcome::Clear => {
                self.output = Vec::new();
                assert(lines_view(self.output@) =~= Seq::<LineSpec>::empty());
                false
            },
            DispatchOutcome::Lines(Ok(lines)) => {
                update_last_ai_response(&lines, &mut self.last_ai_response);
                let mut lines = lines;
                let ghost before = lines_view(self.output@);
                let ghost added = lines_view(lines@);
                self.output.append(&mut lines);
                assert(lines_view(self.output@) =~= before + added);
                cap_output(&mut self.output);
                false
            },
            DispatchOutcome::Lines(Err(e)) => {
                let ghost before = lines_view(self.output@);
                let message = e.to_string();
                self.output.push(OutputLine::error(message));
                assert(lines_view(self.output@) =~= before.push(line(LineKind::Error, e.0@)));
                cap_output(&mut self.output);
                false
            },
        }
    }
}

} // verus!
