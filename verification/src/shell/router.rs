//! Classification of a command line into a built-in, an AI command or an
//! external command.

use vstd::prelude::*;

use crate::text::{
    is_ws, lemma_trim_idempotent, str_eq, to_chars, trim, trim_back, trim_front, trim_str,
};

verus! {

/// Where a command line is sent.
pub enum DispatchTarget<'a> {
    Builtin(BuiltinCmd<'a>),
    AiCommand(AiCmd<'a>),
    External(&'a str),
    Empty,
}

/// The shell's own commands, with their argument text.
pub enum BuiltinCmd<'a> {
    Cd(&'a str),
    Help,
    Clear,
    History,
    Sysinfo,
    View(&'a str),
    Save(&'a str),
    Edit(&'a str),
    Project(&'a str),
    Exit,
}

/// The commands handled by the AI assistant.
pub enum AiCmd<'a> {
    Prompt(&'a str),
    Explain(&'a str),
    Refactor(&'a str),
    Fix(&'a str),
    Generate(&'a str, &'a str),
    OpenCode,
}

/// A built-in command, its arguments taken as character sequences.
pub enum BuiltinRoute {
    Cd(Seq<char>),
    Help,
    Clear,
    History,
    Sysinfo,
    View(Seq<char>),
    Save(Seq<char>),
    Edit(Seq<char>),
    Project(Seq<char>),
    Exit,
}

/// An AI command, its arguments taken as character sequences.
pub enum AiRoute {
    Prompt(Seq<char>),
    Explain(Seq<char>),
    Refactor(Seq<char>),
    Fix(Seq<char>),
    Generate(Seq<char>, Seq<char>),
    OpenCode,
}

/// A dispatch target, its arguments taken as character sequences.
pub enum Route {
    Builtin(BuiltinRoute),
    AiCommand(AiRoute),
    External(Seq<char>),
    Empty,
}

impl<'a> View for BuiltinCmd<'a> {
    type V = BuiltinRoute;

    open spec fn view(&self) -> BuiltinRoute {
        match *self {
            BuiltinCmd::Cd(p) => BuiltinRoute::Cd(p@),
            BuiltinCmd::Help => BuiltinRoute::Help,
            BuiltinCmd::Clear => BuiltinRoute::Clear,
            BuiltinCmd::History => BuiltinRoute::History,
            BuiltinCmd::Sysinfo => BuiltinRoute::Sysinfo,
            BuiltinCmd::View(p) => BuiltinRoute::View(p@),
            BuiltinCmd::Save(p) => BuiltinRoute::Save(p@),
            BuiltinCmd::Edit(p) => BuiltinRoute::Edit(p@),
            BuiltinCmd::Project(p) => BuiltinRoute::Project(p@),
            BuiltinCmd::Exit => BuiltinRoute::Exit,
        }
    }
}

impl<'a> View for AiCmd<'a> {
    type V = AiRoute;

    open spec fn view(&self) -> AiRoute {
        match *self {
            AiCmd::Prompt(p) => AiRoute::Prompt(p@),
            AiCmd::Explain(p) => AiRoute::Explain(p@),
            AiCmd::Refactor(p) => AiRoute::Refactor(p@),
            AiCmd::Fix(p) => AiRoute::Fix(p@),
            AiCmd::Generate(f, p) => AiRoute::Generate(f@, p@),
            AiCmd::OpenCode => AiRoute::OpenCode,
        }
    }
}

impl<'a> View for DispatchTarget<'a> {
    type V = Route;

    open spec fn view(&self) -> Route {
        match *self {
            DispatchTarget::Builtin(b) => Route::Builtin(b@),
            DispatchTarget::AiCommand(a) => Route::AiCommand(a@),
            DispatchTarget::External(s) => Route::External(s@),
            DispatchTarget::Empty => Route::Empty,
        }
    }
}

/// Number of leading characters of `s` before the first whitespace.
pub open spec fn word_len(s: Seq<char>) -> nat
    decreases s.len(),
{
    if s.len() == 0 || is_ws(s[0]) {
        0
    } else {
        1 + word_len(s.drop_first())
    }
}

/// The first word of the trimmed text, and the trimmed remainder after it.
pub open spec fn split_first_word_spec(value: Seq<char>) -> (Seq<char>, Seq<char>) {
    let v = trim(value);
    let k = word_len(v) as int;
    (v.take(k), trim(v.skip(k)))
}

/// The text without one pair of enclosing double or single quotes.
pub open spec fn unquote(v: Seq<char>) -> Seq<char> {
    if v.len() >= 2 && v[0] == '"' && v.last() == '"' {
        v.subrange(1, v.len() - 1)
    } else if v.len() >= 2 && v[0] == '\'' && v.last() == '\'' {
        v.subrange(1, v.len() - 1)
    } else {
        v
    }
}

/// The trimmed text without one pair of enclosing quotes.
pub open spec fn trim_matching_quotes_spec(value: Seq<char>) -> Seq<char> {
    unquote(trim(value))
}

/// Where an `ai`/`ask` command line goes, given the text after that word.
pub open spec fn classify_ai_spec(rest: Seq<char>) -> Route {
    let (subcmd, arg) = split_first_word_spec(rest);
    if subcmd == "explain"@ {
        Route::AiCommand(AiRoute::Explain(arg))
    } else if subcmd == "refactor"@ {
        Route::AiCommand(AiRoute::Refactor(arg))
    } else if subcmd == "fix"@ {
        Route::AiCommand(AiRoute::Fix(arg))
    } else if subcmd == "gen"@ || subcmd == "generate"@ {
        let (file, prompt) = split_first_word_spec(arg);
        Route::AiCommand(AiRoute::Generate(file, trim_matching_quotes_spec(prompt)))
    } else {
        Route::AiCommand(AiRoute::Prompt(trim_matching_quotes_spec(rest)))
    }
}

/// Where a command line goes.
pub open spec fn classify_spec(raw: Seq<char>) -> Route {
    let trimmed = trim(raw);
    if trimmed.len() == 0 {
        Route::Empty
    } else {
        let (cmd, rest) = split_first_word_spec(trimmed);
        if cmd == "exit"@ || cmd == "quit"@ {
            Route::Builtin(BuiltinRoute::Exit)
        } else if cmd == "cd"@ {
            Route::Builtin(BuiltinRoute::Cd(rest))
        } else if cmd == "help"@ {
            Route::Builtin(BuiltinRoute::Help)
        } else if cmd == "clear"@ {
            Route::Builtin(BuiltinRoute::Clear)
        } else if cmd == "history"@ {
            Route::Builtin(BuiltinRoute::History)
        } else if cmd == "sysinfo"@ {
            Route::Builtin(BuiltinRoute::Sysinfo)
        } else if cmd == "view"@ {
            Route::Builtin(BuiltinRoute::View(rest))
        } else if cmd == "save"@ {
            Route::Builtin(BuiltinRoute::Save(rest))
        } else if cmd == "edit"@ {
            Route::Builtin(BuiltinRoute::Edit(rest))
        } else if cmd == "project"@ {
            Route::Builtin(BuiltinRoute::Project(rest))
        } else if cmd == "ai"@ || cmd == "ask"@ {
            classify_ai_spec(rest)
        } else if cmd == "opencode"@ {
            Route::AiCommand(AiRoute::OpenCode)
        } else if cmd == "run"@ {
            Route::External(rest)
        } else {
            Route::External(trimmed)
        }
    }
}

proof fn lemma_word_len(s: Seq<char>, k: int)
    requires
        0 <= k <= s.len(),
        forall|i: int| 0 <= i < k ==> !is_ws(#[trigger] s[i]),
        k == s.len() || is_ws(s[k]),
    ensures
        word_len(s) == k,
    decreases k,
{
    if k > 0 {
        assert forall|i: int| 0 <= i < k - 1 implies !is_ws(#[trigger] s.drop_first()[i]) by {
            assert(s.drop_first()[i] == s[i + 1]);
        }
        lemma_word_len(s.drop_first(), k - 1);
    }
}

proof fn lemma_word_len_shape(s: Seq<char>)
    ensures
        word_len(s) <= s.len(),
        forall|i: int| 0 <= i < word_len(s) ==> !is_ws(#[trigger] s[i]),
        word_len(s) < s.len() ==> is_ws(s[word_len(s) as int]),
    decreases s.len(),
{
    if s.len() > 0 && !is_ws(s[0]) {
        lemma_word_len_shape(s.drop_first());
        assert forall|i: int| 0 <= i < word_len(s) implies !is_ws(#[trigger] s[i]) by {
            if i > 0 {
                assert(s[i] == s.drop_first()[i - 1]);
            }
        }
        if word_len(s) < s.len() {
            assert(s[word_len(s) as int] == s.drop_first()[word_len(s.drop_first()) as int]);
        }
    }
}

/// The first word is what the trimmed text starts with, up to its first
/// whitespace: it holds no whitespace, it is empty only when the trimmed
/// text is, whatever follows it starts with whitespace, and the rest is
/// what follows it, trimmed.
pub proof fn lemma_first_word_split(value: Seq<char>)
    ensures
        ({
            let t = trim(value);
            let (w, r) = split_first_word_spec(value);
            &&& w.is_prefix_of(t)
            &&& forall|i: int| 0 <= i < w.len() ==> !is_ws(#[trigger] w[i])
            &&& (w.len() == 0 <==> t.len() == 0)
            &&& (w.len() < t.len() ==> is_ws(t[w.len() as int]))
            &&& r == trim(t.skip(w.len() as int))
        }),
{
    let t = trim(value);
    lemma_word_len_shape(t);
    let k = word_len(t) as int;
    assert(t.take(k) =~= t.subrange(0, k));
    assert forall|i: int| 0 <= i < k implies !is_ws(#[trigger] t.take(k)[i]) by {
        assert(t.take(k)[i] == t[i]);
    }
    if t.len() > 0 {
        let f = trim_front(value);
        crate::text::lemma_trim_front_shape(value);
        crate::text::lemma_trim_back_shape(f);
        assert(t[0] == f[0]);
        assert(!is_ws(t[0]));
        assert(k > 0);
    }
}

/// Splits off the first whitespace-delimited word of the trimmed text: the
/// word starts the trimmed text and holds no whitespace, it is empty only
/// when the trimmed text is, whatever follows it starts with whitespace, and
/// the rest is what follows it, trimmed.
pub fn split_first_word(value: &str) -> (r: (&str, &str))
    ensures
        (r.0@, r.1@) == split_first_word_spec(value@),
        r.0@.is_prefix_of(trim(value@)),
        forall|i: int| 0 <= i < r.0@.len() ==> !is_ws(#[trigger] r.0@[i]),
        r.0@.len() == 0 <==> trim(value@).len() == 0,
        r.0@.len() < trim(value@).len() ==> is_ws(trim(value@)[r.0@.len() as int]),
        r.1@ == trim(trim(value@).skip(r.0@.len() as int)),
{
    proof {
        lemma_first_word_split(value@);
    }
    let v = trim_str(value);
    let chars = to_chars(v);
    let n = chars.len();
    let mut k: usize = 0;
    while k < n && !crate::text::is_whitespace(chars[k])
        invariant
            k <= n,
            n == chars@.len(),
            chars@ == v@,
            forall|i: int| 0 <= i < k ==> !is_ws(#[trigger] chars@[i]),
        decreases n - k,
    {
        k = k + 1;
    }
    proof {
        lemma_word_len(v@, k as int);
    }
    let word = v.substring_char(0, k);
    let rest = trim_str(v.substring_char(k, n));
    proof {
        assert(v@.subrange(0, k as int) =~= v@.take(k as int));
        assert(v@.subrange(k as int, n as int) =~= v@.skip(k as int));
    }
    (word, rest)
}

/// Removes one pair of matching enclosing quotes from the trimmed text.
fn trim_matching_quotes(value: &str) -> (r: &str)
    ensures
        r@ == trim_matching_quotes_spec(value@),
{
    let v = trim_str(value);
    let chars = to_chars(v);
    let n = chars.len();
    if n >= 2 && chars[0] == '"' && chars[n - 1] == '"' {
        v.substring_char(1, n - 1)
    } else if n >= 2 && chars[0] == '\'' && chars[n - 1] == '\'' {
        v.substring_char(1, n - 1)
    } else {
        v
    }
}

fn classify_ai(rest: &str) -> (r: DispatchTarget<'_>)
    ensures
        r@ == classify_ai_spec(rest@),
{
    let (subcmd, arg) = split_first_word(rest);
    if str_eq(subcmd, "explain") {
        DispatchTarget::AiCommand(AiCmd::Explain(arg))
    } else if str_eq(subcmd, "refactor") {
        DispatchTarget::AiCommand(AiCmd::Refactor(arg))
    } else if str_eq(subcmd, "fix") {
        DispatchTarget::AiCommand(AiCmd::Fix(arg))
    } else if str_eq(subcmd, "gen") || str_eq(subcmd, "generate") {
        let (file, prompt) = split_first_word(arg);
        DispatchTarget::AiCommand(AiCmd::Generate(file, trim_matching_quotes(prompt)))
    } else {
        DispatchTarget::AiCommand(AiCmd::Prompt(trim_matching_quotes(rest)))
    }
}

/// Classifies a command line: the first word picks a built-in or an AI
/// command; anything else runs as an external command.
pub fn classify(raw: &str) -> (r: DispatchTarget<'_>)
    ensures
        r@ == classify_spec(raw@),
{
    let trimmed = trim_str(raw);
    if trimmed.unicode_len() == 0 {
        return DispatchTarget::Empty;
    }
    let (cmd, rest) = split_first_word(trimmed);
    proof {
        lemma_trim_idempotent(raw@);
    }
    if str_eq(cmd, "exit") || str_eq(cmd, "quit") {
        DispatchTarget::Builtin(BuiltinCmd::Exit)
    } else if str_eq(cmd, "cd") {
        DispatchTarget::Builtin(BuiltinCmd::Cd(rest))
    } else if str_eq(cmd, "help") {
        DispatchTarget::Builtin(BuiltinCmd::Help)
    } else if str_eq(cmd, "clear") {
        DispatchTarget::Builtin(BuiltinCmd::Clear)
    } else if str_eq(cmd, "history") {
        DispatchTarget::Builtin(BuiltinCmd::History)
    } else if str_eq(cmd, "sysinfo") {
        DispatchTarget::Builtin(BuiltinCmd::Sysinfo)
    } else if str_eq(cmd, "view") {
        DispatchTarget::Builtin(BuiltinCmd::View(rest))
    } else if str_eq(cmd, "save") {
        DispatchTarget::Builtin(BuiltinCmd::Save(rest))
    } else if str_eq(cmd, "edit") {
        DispatchTarget::Builtin(BuiltinCmd::Edit(rest))
    } else if str_eq(cmd, "project") {
        DispatchTarget::Builtin(BuiltinCmd::Project(rest))
    } else if str_eq(cmd, "ai") || str_eq(cmd, "ask") {
        classify_ai(rest)
    } else if str_eq(cmd, "opencode") {
        DispatchTarget::AiCommand(AiCmd::OpenCode)
    } else if str_eq(cmd, "run") {
        DispatchTarget::External(rest)
    } else {
        DispatchTarget::External(trimmed)
    }
}


/// A word, a space and the rest split into the word and the trimmed rest.
pub proof fn lemma_split_word_then_rest(w: Seq<char>, rest: Seq<char>)
    requires
        w.len() > 0,
        forall|i: int| 0 <= i < w.len() ==> !is_ws(#[trigger] w[i]),
    ensures
        split_first_word_spec(w + seq![' '] + rest) == (w, trim(rest)),
{
    let u = seq![' '] + rest;
    let s = w + u;
    assert(s =~= w + seq![' '] + rest);
    assert(s[0] == w[0]);
    assert(trim_front(s) == s);
    crate::text::lemma_trim_back_concat(w, u);
    assert(trim_back(w) == w) by {
        assert(!is_ws(w.last()));
    }
    let v = trim(s);
    let k = w.len() as int;
    assert forall|i: int| 0 <= i < k implies !is_ws(#[trigger] v[i]) by {
        assert(v[i] == w[i]);
    }
    // the rest after the word, trimmed, is the trimmed rest
    assert(u[0] == ' ');
    assert(u.drop_first() =~= rest);
    assert(trim_front(u) == trim_front(rest));
    crate::text::lemma_trim_commutes(u);
    crate::text::lemma_trim_idempotent(u);
    if trim_back(u).len() > 0 {
        assert(v =~= w + trim_back(u));
        assert(v[k] == trim_back(u)[0]);
        crate::text::lemma_trim_back_shape(u);
        assert(trim_back(u)[0] == u[0]);
        lemma_word_len(v, k);
        assert(v.take(k) =~= w);
        assert(v.skip(k) =~= trim_back(u));
        // trim(trim_back(u)) == trim(u) == trim(rest)
        assert(trim_front(trim_back(u)) == trim_back(trim_front(u)));
        crate::text::lemma_trim_back_shape(trim_front(u));
        crate::text::lemma_trim_front_shape(trim_back(u));
        assert(trim_back(trim_front(trim_back(u))) == trim_back(trim_back(trim_front(u))));
        lemma_trim_back_twice(trim_front(u));
    } else {
        assert(v =~= w);
        lemma_word_len(v, k);
        assert(v.take(k) =~= w);
        assert(v.skip(k) =~= Seq::<char>::empty());
        // trim_back(u) is empty, so u is blank and so is rest
        crate::text::lemma_trim_commutes(u);
        assert(trim_front(trim_back(u)) =~= Seq::<char>::empty());
        assert(trim(rest) =~= Seq::<char>::empty());
        assert(trim(Seq::<char>::empty()) =~= Seq::<char>::empty());
    }
}

proof fn lemma_trim_back_twice(s: Seq<char>)
    ensures
        trim_back(trim_back(s)) == trim_back(s),
{
    crate::text::lemma_trim_back_shape(s);
    let t = trim_back(s);
    if t.len() > 0 {
        assert(!is_ws(t.last()));
    }
}

/// `ask` is another name for `ai`: a line that starts with `ask` goes where
/// the same line starting with `ai` goes.
pub proof fn lemma_ask_is_ai(rest: Seq<char>)
    ensures
        classify_spec("ask "@ + rest) == classify_spec("ai "@ + rest),
{
    reveal_strlit("ask ");
    reveal_strlit("ai ");
    reveal_strlit("ask");
    reveal_strlit("ai");
    let ask = seq!['a', 's', 'k'];
    let ai = seq!['a', 'i'];
    assert("ask "@ + rest =~= ask + seq![' '] + rest);
    assert("ai "@ + rest =~= ai + seq![' '] + rest);
    lemma_split_word_then_rest(ask, rest);
    lemma_split_word_then_rest(ai, rest);
    lemma_trim_idempotent(ask + seq![' '] + rest);
    lemma_trim_idempotent(ai + seq![' '] + rest);
    let s1 = ask + seq![' '] + rest;
    let s2 = ai + seq![' '] + rest;
    assert(trim(s1).len() > 0) by {
        assert(trim(s1) == trim_back(s1));
        crate::text::lemma_trim_back_concat(ask, seq![' '] + rest);
        assert(trim_back(ask) =~= ask);
    }
    assert(trim(s2).len() > 0) by {
        assert(trim(s2) == trim_back(s2));
        crate::text::lemma_trim_back_concat(ai, seq![' '] + rest);
        assert(trim_back(ai) =~= ai);
    }
    assert(ask == "ask"@);
    assert(ai == "ai"@);
    reveal_strlit("exit");
    reveal_strlit("quit");
    reveal_strlit("cd");
    reveal_strlit("help");
    reveal_strlit("clear");
    reveal_strlit("history");
    reveal_strlit("sysinfo");
    reveal_strlit("view");
    reveal_strlit("save");
    reveal_strlit("edit");
    reveal_strlit("project");
    assert(ask != "exit"@ && ask != "quit"@ && ask != "cd"@ && ask != "help"@ && ask != "clear"@);
    assert(ask != "history"@ && ask != "sysinfo"@ && ask != "view"@ && ask != "save"@);
    assert(ask != "edit"@ && ask != "project"@ && ask != "ai"@);
    assert(ai != "exit"@ && ai != "quit"@ && ai != "cd"@ && ai != "help"@ && ai != "clear"@);
    assert(ai != "history"@ && ai != "sysinfo"@ && ai != "view"@ && ai != "save"@);
    assert(ai != "edit"@ && ai != "project"@);
}

/// A line `ai <rest>` goes where the trimmed rest says.
proof fn lemma_ai_line(rest: Seq<char>)
    ensures
        classify_spec("ai "@ + rest) == classify_ai_spec(trim(rest)),
{
    reveal_strlit("ai ");
    reveal_strlit("ai");
    let ai = seq!['a', 'i'];
    let s2 = ai + seq![' '] + rest;
    assert("ai "@ + rest =~= s2);
    lemma_split_word_then_rest(ai, rest);
    lemma_trim_idempotent(s2);
    assert(trim(s2).len() > 0) by {
        assert(trim(s2) == trim_back(s2));
        crate::text::lemma_trim_back_concat(ai, seq![' '] + rest);
        assert(trim_back(ai) =~= ai);
    }
    assert(ai == "ai"@);
    reveal_strlit("exit");
    reveal_strlit("quit");
    reveal_strlit("cd");
    reveal_strlit("help");
    reveal_strlit("clear");
    reveal_strlit("history");
    reveal_strlit("sysinfo");
    reveal_strlit("view");
    reveal_strlit("save");
    reveal_strlit("edit");
    reveal_strlit("project");
    assert(ai != "exit"@ && ai != "quit"@ && ai != "cd"@ && ai != "help"@ && ai != "clear"@);
    assert(ai != "history"@ && ai != "sysinfo"@ && ai != "view"@ && ai != "save"@);
    assert(ai != "edit"@ && ai != "project"@);
}

/// Asking the assistant sends the whole question: after `ai` (or `ask`), a
/// first word that names no subcommand and opens no quote starts the
/// prompt, and the prompt runs on to the end of the line, inner spacing
/// kept and trailing whitespace dropped.
pub proof fn lemma_ai_prompt_is_whole_text(w: Seq<char>, r: Seq<char>)
    requires
        w.len() > 0,
        forall|i: int| 0 <= i < w.len() ==> !is_ws(#[trigger] w[i]),
        w[0] != '"' && w[0] != '\'',
        w != "explain"@ && w != "refactor"@ && w != "fix"@ && w != "gen"@ && w != "generate"@,
    ensures
        !crate::text::is_blank(r) ==> classify_spec("ai "@ + w + seq![' '] + r) == Route::AiCommand(
            AiRoute::Prompt(w + seq![' '] + trim_back(r)),
        ),
        crate::text::is_blank(r) ==> classify_spec("ai "@ + w + seq![' '] + r) == Route::AiCommand(
            AiRoute::Prompt(w),
        ),
        classify_spec("ask "@ + w + seq![' '] + r) == classify_spec("ai "@ + w + seq![' '] + r),
{
    let rest = w + seq![' '] + r;
    assert("ai "@ + w + seq![' '] + r =~= "ai "@ + rest);
    assert("ask "@ + w + seq![' '] + r =~= "ask "@ + rest);
    lemma_ai_line(rest);
    lemma_ask_is_ai(rest);
    // the subcommand word is w, and it is not one of the subcommands
    lemma_split_word_then_rest(w, r);
    lemma_trim_idempotent(rest);
    assert(split_first_word_spec(trim(rest)) == split_first_word_spec(rest));
    // the trimmed rest
    assert(trim_front(rest) == rest) by {
        assert(rest[0] == w[0]);
    }
    let sp = seq![' '] + r;
    assert(rest =~= w + sp);
    crate::text::lemma_trim_back_concat(w, sp);
    crate::text::lemma_trim_back_concat(seq![' '], r);
    crate::text::lemma_trim_commutes(r);
    assert(trim_back(w) == w) by {
        assert(!is_ws(w.last()));
    }
    if !crate::text::is_blank(r) {
        assert(trim_back(r).len() > 0) by {
            if trim_back(r).len() == 0 {
                assert(trim_back(r) =~= Seq::<char>::empty());
                assert(trim_front(trim_back(r)) =~= Seq::<char>::empty());
            }
        }
        assert(trim_back(sp) == seq![' '] + trim_back(r));
        assert(trim(rest) =~= w + seq![' '] + trim_back(r));
    } else {
        assert(trim_back(r).len() == 0) by {
            if trim_back(r).len() > 0 {
                crate::text::lemma_trim_back_shape(r);
                assert(!is_ws(trim_back(r).last()));
                crate::text::lemma_trim_front_shape(trim_back(r));
                assert(trim_front(trim_back(r)).len() > 0) by {
                    if trim_front(trim_back(r)).len() == 0 {
                        assert(is_ws(trim_back(r)[trim_back(r).len() - 1]));
                    }
                }
            }
        }
        assert(trim_back(seq![' ']) =~= Seq::<char>::empty()) by {
            let one = seq![' '];
            assert(is_ws(one.last()));
            assert(one.drop_last() =~= Seq::<char>::empty());
            assert(trim_back(one.drop_last()) =~= Seq::<char>::empty());
        }
        assert(trim_back(sp).len() == 0);
        assert(trim(rest) == w);
    }
}

/// After `ai`, the subcommands take their arguments: `explain`, `refactor`
/// and `fix` the trimmed file, `gen` and `generate` a file word and then the
/// rest as the prompt (less one pair of enclosing quotes); any other first
/// word makes the whole trimmed text, less one pair of enclosing quotes, the
/// prompt.
pub proof fn lemma_ai_subcommands(w: Seq<char>, r: Seq<char>)
    requires
        w.len() > 0,
        forall|i: int| 0 <= i < w.len() ==> !is_ws(#[trigger] w[i]),
    ensures
        w == "explain"@ ==> classify_spec("ai "@ + w + seq![' '] + r) == Route::AiCommand(
            AiRoute::Explain(trim(r)),
        ),
        w == "refactor"@ ==> classify_spec("ai "@ + w + seq![' '] + r) == Route::AiCommand(
            AiRoute::Refactor(trim(r)),
        ),
        w == "fix"@ ==> classify_spec("ai "@ + w + seq![' '] + r) == Route::AiCommand(
            AiRoute::Fix(trim(r)),
        ),
        (w == "gen"@ || w == "generate"@) ==> classify_spec("ai "@ + w + seq![' '] + r)
            == Route::AiCommand(
            AiRoute::Generate(split_first_word_spec(r).0, unquote(trim(split_first_word_spec(r).1))),
        ),
        !(w == "explain"@ || w == "refactor"@ || w == "fix"@ || w == "gen"@ || w == "generate"@)
            ==> classify_spec("ai "@ + w + seq![' '] + r) == Route::AiCommand(
            AiRoute::Prompt(unquote(trim(w + seq![' '] + r))),
        ),
{
    let rest = w + seq![' '] + r;
    assert("ai "@ + w + seq![' '] + r =~= "ai "@ + rest);
    lemma_ai_line(rest);
    reveal_strlit("explain");
    reveal_strlit("refactor");
    reveal_strlit("fix");
    reveal_strlit("gen");
    reveal_strlit("generate");
    assert("refactor"@ != "explain"@) by {
        assert("refactor"@[0] != "explain"@[0]);
    }
    assert("fix"@ != "explain"@ && "fix"@ != "refactor"@) by {
        assert("fix"@.len() != "explain"@.len());
        assert("fix"@[0] != "refactor"@[0]);
    }
    assert("gen"@ != "explain"@ && "gen"@ != "refactor"@ && "gen"@ != "fix"@) by {
        assert("gen"@.len() != "explain"@.len());
        assert("gen"@[0] != "refactor"@[0]);
        assert("gen"@[0] != "fix"@[0]);
    }
    assert("generate"@ != "explain"@ && "generate"@ != "refactor"@ && "generate"@ != "fix"@) by {
        assert("generate"@[0] != "explain"@[0]);
        assert("generate"@[0] != "refactor"@[0]);
        assert("generate"@[0] != "fix"@[0]);
    }
    lemma_split_word_then_rest(w, r);
    lemma_trim_idempotent(rest);
    lemma_trim_idempotent(r);
    assert(split_first_word_spec(trim(rest)) == split_first_word_spec(rest));
    assert(split_first_word_spec(trim(r)) == split_first_word_spec(r));
}

/// Surrounding whitespace never changes where a command line goes.
pub proof fn lemma_classify_ignores_surrounding_whitespace(raw: Seq<char>)
    ensures
        classify_spec(trim(raw)) == classify_spec(raw),
{
    lemma_trim_idempotent(raw);
}

/// A command line is empty exactly when it is blank.
pub proof fn lemma_classify_empty_iff_blank(raw: Seq<char>)
    ensures
        (classify_spec(raw) is Empty) == crate::text::is_blank(raw),
{
    if !crate::text::is_blank(raw) {
        let (cmd, rest) = split_first_word_spec(trim(raw));
        if cmd == "ai"@ || cmd == "ask"@ {
            assert(classify_ai_spec(rest) is AiCommand);
        }
    }
}

/// The file and directory arguments of the built-ins and AI commands, and
/// the text of an external command, carry no surrounding whitespace.
pub proof fn lemma_route_arguments_trimmed(raw: Seq<char>)
    ensures
        match classify_spec(raw) {
            Route::Builtin(BuiltinRoute::Cd(p)) => trim(p) == p,
            Route::Builtin(BuiltinRoute::View(p)) => trim(p) == p,
            Route::Builtin(BuiltinRoute::Save(p)) => trim(p) == p,
            Route::Builtin(BuiltinRoute::Edit(p)) => trim(p) == p,
            Route::Builtin(BuiltinRoute::Project(p)) => trim(p) == p,
            Route::AiCommand(AiRoute::Explain(p)) => trim(p) == p,
            Route::AiCommand(AiRoute::Refactor(p)) => trim(p) == p,
            Route::AiCommand(AiRoute::Fix(p)) => trim(p) == p,
            Route::AiCommand(AiRoute::Generate(f, _)) => trim(f) == f,
            Route::External(c) => trim(c) == c,
            _ => true,
        },
{
    let t = trim(raw);
    lemma_trim_idempotent(raw);
    if t.len() > 0 {
        let (cmd, rest) = split_first_word_spec(t);
        let v = trim(t);
        lemma_trim_idempotent(v.skip(word_len(v) as int));
        let (subcmd, arg) = split_first_word_spec(rest);
        lemma_trim_idempotent(trim(rest).skip(word_len(trim(rest)) as int));
        let (file, prompt) = split_first_word_spec(arg);
        let fa = trim(arg);
        let k = word_len(fa);
        lemma_word_prefix_trimmed(fa);
    }
}

/// The first word of trimmed text has no surrounding whitespace.
proof fn lemma_word_prefix_trimmed(v: Seq<char>)
    requires
        trim(v) == v,
    ensures
        trim(v.take(word_len(v) as int)) == v.take(word_len(v) as int),
{
    let k = word_len(v) as int;
    lemma_word_len_bound(v);
    let w = v.take(k);
    if w.len() > 0 {
        assert(w[0] == v[0]);
        assert(!is_ws(w.last()));
        crate::text::lemma_trim_fixed(w);
    } else {
        assert(trim(w) =~= w) by {
            assert(w.len() == 0);
        }
    }
}

/// The characters of the first word are not whitespace.
proof fn lemma_word_len_bound(v: Seq<char>)
    ensures
        word_len(v) <= v.len(),
        forall|i: int| 0 <= i < word_len(v) ==> !is_ws(#[trigger] v[i]),
    decreases v.len(),
{
    if v.len() > 0 && !is_ws(v[0]) {
        lemma_word_len_bound(v.drop_first());
        assert forall|i: int| 0 <= i < word_len(v) implies !is_ws(#[trigger] v[i]) by {
            if i > 0 {
                assert(v[i] == v.drop_first()[i - 1]);
            }
        }
    }
}

} // verus!
