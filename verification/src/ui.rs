//! The terminal screen: layout, text fitting, colors, and the drawing
//! operations for the frame, panels, shell output and prompt.

use vstd::prelude::*;

use crate::commands::{LineKind, LineSpec, OutputLine};
use crate::system::GpuInfo;
use crate::text::{
    concat2, concat3, decimal, join, fmt_i32, fmt_u64, owned, pad_right, pad_right_str, push_char,
    signed_decimal, spaces, str_eq, strings_view, to_chars,
};

verus! {

/// The colors the screen uses.
#[derive(Clone, Copy, Debug, PartialEq, Eq, Structural)]
pub enum Color {
    White,
    Cyan,
    DarkCyan,
    Green,
    Yellow,
    Red,
    DarkGrey,
}

/// The color of an output line of each kind.
pub open spec fn line_color_spec(kind: LineKind) -> Color {
    match kind {
        LineKind::Normal => Color::White,
        LineKind::Ai => Color::Cyan,
        LineKind::AiHeader => Color::DarkCyan,
        LineKind::Success => Color::Green,
        LineKind::Warning => Color::Yellow,
        LineKind::Error => Color::Red,
        LineKind::Dim => Color::DarkGrey,
    }
}

/// The color of an output line (see `line_color_spec`).
pub fn line_color(kind: &LineKind) -> (c: Color)
    ensures
        c == line_color_spec(*kind),
{
    match kind {
        LineKind::Normal => Color::White,
        LineKind::Ai => Color::Cyan,
        LineKind::AiHeader => Color::DarkCyan,
        LineKind::Success => Color::Green,
        LineKind::Warning => Color::Yellow,
        LineKind::Error => Color::Red,
        LineKind::Dim => Color::DarkGrey,
    }
}

/// The width inside a frame's two border columns.
pub open spec fn inner_spec(width: u16) -> nat {
    if width >= 2 {
        (width - 2) as nat
    } else {
        0
    }
}

/// The width inside a frame's two border columns.
pub fn inner(width: u16) -> (r: usize)
    ensures
        r == inner_spec(width),
{
    if width >= 2 {
        (width - 2) as usize
    } else {
        0
    }
}

/// Left-aligns `text` in `width` columns (`{:<width$}`).
pub fn pad(text: &str, width: usize) -> (r: String)
    ensures
        r@ == pad_right(text@, width as nat),
{
    pad_right_str(text, width)
}

/// Text cut to at most `max_chars` characters; a cut is marked by a final
/// `~` when there is room for more than one character.
pub open spec fn truncate_spec(value: Seq<char>, max_chars: nat) -> Seq<char> {
    if max_chars == 0 {
        Seq::empty()
    } else if value.len() > max_chars {
        if max_chars > 1 {
            value.take(max_chars - 1).push('~')
        } else {
            value.take(max_chars as int)
        }
    } else {
        value
    }
}

/// Text cut to fit (see `truncate_spec`).
pub fn truncate(value: &str, max_chars: usize) -> (r: String)
    ensures
        r@ == truncate_spec(value@, max_chars as nat),
{
    if max_chars == 0 {
        return String::new();
    }
    let v = to_chars(value);
    let n = v.len();
    if n > max_chars {
        if max_chars > 1 {
            let mut r = crate::text::string_from_range(&v, 0, max_chars - 1);
            push_char(&mut r, '~');
            assert(v@.subrange(0, max_chars - 1) =~= value@.take(max_chars - 1));
            r
        } else {
            let r = crate::text::string_from_range(&v, 0, max_chars);
            assert(v@.subrange(0, max_chars as int) =~= value@.take(max_chars as int));
            r
        }
    } else {
        owned(value)
    }
}

/// A clock reading: `<n> MHz`, or `n/a`.
pub fn format_clock(clock: Option<u64>) -> (r: String)
    ensures
        clock matches Some(c) ==> r@ == decimal(c as nat) + " MHz"@,
        clock is None ==> r@ == "n/a"@,
{
    match clock {
        Some(c) => {
            let digits = fmt_u64(c);
            concat2(digits.as_str(), " MHz")
        },
        None => owned("n/a"),
    }
}

/// A path shown with the home directory abbreviated to `~`.
pub open spec fn abbreviate_home_spec(path: Seq<char>, home: Option<Seq<char>>) -> Seq<char> {
    match home {
        None => path,
        Some(h) => if path == h {
            "~"@
        } else if (h + "/"@).is_prefix_of(path) {
            "~/"@ + path.skip(h.len() + 1 as int)
        } else {
            path
        },
    }
}

/// A path shown with the home directory abbreviated (see `abbreviate_home_spec`).
pub fn abbreviate_home(path: &str, home: Option<&str>) -> (r: String)
    ensures
        r@ == abbreviate_home_spec(path@, crate::commands::builtins::opt_string_view(home)),
{
    let h = match home {
        Some(h) => h,
        None => {
            return owned(path);
        },
    };
    if str_eq(path, h) {
        return owned("~");
    }
    let with_slash = concat2(h, "/");
    if crate::text::starts_with_str(path, with_slash.as_str()) {
        let n = path.unicode_len();
        let m = with_slash.as_str().unicode_len();
        let rest = path.substring_char(m, n);
        proof {
            reveal_strlit("/");
            assert(path@.subrange(m as int, n as int) =~= path@.skip(h@.len() + 1 as int));
        }
        return concat2("~/", rest);
    }
    owned(path)
}

/// How the GPU is named on screen: vendor and model, or just the model when
/// none was detected.
pub open spec fn vendor_model_spec(vendor: Seq<char>, model: Seq<char>) -> Seq<char> {
    if model == "Not detected"@ {
        model
    } else {
        vendor + " "@ + model
    }
}

/// How the GPU is named on screen (see `vendor_model_spec`).
pub fn vendor_model(gpu: &GpuInfo) -> (r: String)
    ensures
        r@ == vendor_model_spec(gpu.vendor@, gpu.model@),
{
    if str_eq(gpu.model.as_str(), "Not detected") {
        gpu.model.clone()
    } else {
        concat3(gpu.vendor.as_str(), " ", gpu.model.as_str())
    }
}

/// The prompt line: `  RustProc <cwd> [<code>] > <input>` followed by a
/// block cursor; the code shows only when the last command failed.
pub open spec fn prompt_spec(cwd: Seq<char>, last_exit_code: i32, input: Seq<char>) -> Seq<char> {
    let status = if last_exit_code == 0 {
        Seq::<char>::empty()
    } else {
        "["@ + signed_decimal(last_exit_code as int) + "] "@
    };
    "  RustProc "@ + cwd + " "@ + status + "> "@ + input + "\u{2588}"@
}

/// A failed last command shows its code: for every non-zero code the
/// prompt is the success prompt with `[<code>] ` inserted just before the
/// `> `; code 0 shows no status at all.
pub proof fn lemma_prompt_shows_failure_code(cwd: Seq<char>, code: i32, input: Seq<char>)
    ensures
        prompt_spec(cwd, 0, input) == "  RustProc "@ + cwd + " > "@ + input + "\u{2588}"@,
        code != 0 ==> prompt_spec(cwd, code, input) == prompt_spec(cwd, 0, input).take(
            cwd.len() + 12int,
        ) + "["@ + signed_decimal(code as int) + "] "@ + prompt_spec(cwd, 0, input).skip(
            cwd.len() + 12int,
        ),
        code != 0 ==> prompt_spec(cwd, code, input).len() >= prompt_spec(cwd, 0, input).len() + 4,
{
    reveal_strlit("  RustProc ");
    reveal_strlit(" ");
    reveal_strlit("> ");
    reveal_strlit(" > ");
    reveal_strlit("[");
    reveal_strlit("] ");
    let head = "  RustProc "@ + cwd + " "@;
    assert(head.len() == cwd.len() + 12);
    let tail = "> "@ + input + "\u{2588}"@;
    assert(prompt_spec(cwd, 0, input) =~= head + tail);
    assert(head + tail =~= "  RustProc "@ + cwd + " > "@ + input + "\u{2588}"@);
    assert((head + tail).take(cwd.len() + 12int) =~= head);
    assert((head + tail).skip(cwd.len() + 12int) =~= tail);
    if code != 0 {
        let status = "["@ + signed_decimal(code as int) + "] "@;
        assert(prompt_spec(cwd, code, input) =~= head + status + tail);
        if code < 0 {
            assert(signed_decimal(code as int).len() >= 1);
        } else {
            assert(crate::text::decimal(code as nat).len() >= 1);
        }
    }
}

/// The prompt line (see `prompt_spec`).
pub fn prompt_text(cwd: &str, last_exit_code: i32, input: &str) -> (r: String)
    ensures
        r@ == prompt_spec(cwd@, last_exit_code, input@),
{
    let status = if last_exit_code == 0 {
        String::new()
    } else {
        let code = fmt_i32(last_exit_code);
        concat3("[", code.as_str(), "] ")
    };
    let head = concat3("  RustProc ", cwd, " ");
    let mid = concat3(head.as_str(), status.as_str(), "> ");
    concat3(mid.as_str(), input, "\u{2588}")
}

/// Where the screen's parts go.
pub struct Layout {
    pub width: u16,
    pub height: u16,
    /// The screen is too small for the full view.
    pub too_small: bool,
    /// The row above the shell output.
    pub shell_divider: u16,
    /// The row above the prompt.
    pub prompt_divider: u16,
}

/// The screen layout for a terminal size (100x32 when unknown): at least
/// 20x8; the full view needs 74x32, room for the eight process rows; the
/// shell output starts 8 rows from the bottom but not above row 24, below
/// the process panel; the prompt sits 3 rows from the bottom.
pub fn layout(size: Option<(u16, u16)>) -> (l: Layout)
    ensures
        ({
            let (w, h) = match size {
                Some(s) => s,
                None => (100u16, 32u16),
            };
            &&& l.width == if w > 20 {
                w
            } else {
                20
            }
            &&& l.height == if h > 8 {
                h
            } else {
                8
            }
            &&& l.too_small == (l.width < 74 || l.height < 32)
            &&& l.shell_divider == if l.height >= 32 {
                (l.height - 8) as u16
            } else {
                24
            }
            &&& l.prompt_divider == (l.height - 3) as u16
        }),
{
    let (w, h) = match size {
        Some(s) => s,
        None => (100u16, 32u16),
    };
    let width = if w > 20 {
        w
    } else {
        20
    };
    let height = if h > 8 {
        h
    } else {
        8
    };
    let shell_divider = if height >= 32 {
        height - 8
    } else {
        24
    };
    Layout {
        width,
        height,
        too_small: width < 74 || height < 32,
        shell_divider,
        prompt_divider: height - 3,
    }
}

/// The text with every `pat` replaced by `rep`, scanning left to right.
pub open spec fn replace_spec(s: Seq<char>, pat: Seq<char>, rep: Seq<char>) -> Seq<char>
    decreases s.len(),
{
    if s.len() == 0 || pat.len() == 0 {
        s
    } else if pat.is_prefix_of(s) {
        rep + replace_spec(s.skip(pat.len() as int), pat, rep)
    } else {
        seq![s[0]] + replace_spec(s.drop_first(), pat, rep)
    }
}


proof fn lemma_prefix_at(s: Seq<char>, pat: Seq<char>, i: int)
    requires
        0 <= i <= s.len(),
    ensures
        pat.is_prefix_of(s.skip(i)) == (i + pat.len() <= s.len() && forall|k: int|
            0 <= k < pat.len() ==> #[trigger] s[i + k] == pat[k]),
{
    if pat.is_prefix_of(s.skip(i)) {
        assert forall|k: int| 0 <= k < pat.len() implies #[trigger] s[i + k] == pat[k] by {
            assert(s.skip(i)[k] == s[i + k]);
            assert(s.skip(i).subrange(0, pat.len() as int)[k] == pat[k]);
        }
    }
    if i + pat.len() <= s.len() && forall|k: int| 0 <= k < pat.len() ==> #[trigger] s[i + k] == pat[k] {
        assert forall|k: int| 0 <= k < pat.len() implies #[trigger] s.skip(i).subrange(
            0,
            pat.len() as int,
        )[k] == pat[k] by {
            assert(s.skip(i).subrange(0, pat.len() as int)[k] == s[i + k]);
        }
        assert(pat =~= s.skip(i).subrange(0, pat.len() as int));
    }
}

fn matches_at(v: &Vec<char>, p: &Vec<char>, i: usize) -> (b: bool)
    requires
        i <= v@.len(),
    ensures
        b == (i + p@.len() <= v@.len() && forall|k: int|
            0 <= k < p@.len() ==> #[trigger] v@[i + k] == p@[k]),
{
    let n = v.len();
    let m = p.len();
    if m > n - i {
        return false;
    }
    let mut k: usize = 0;
    while k < m
        invariant
            k <= m,
            m == p@.len(),
            n == v@.len(),
            i + m <= n,
            forall|j: int| 0 <= j < k ==> #[trigger] v@[i + j] == p@[j],
        decreases m - k,
    {
        if v[i + k] != p[k] {
            return false;
        }
        k = k + 1;
    }
    true
}

/// `str::replace`: every occurrence of `pat` replaced by `rep` (see `replace_spec`).
pub fn replace_all(s: &str, pat: &str, rep: &str) -> (r: String)
    ensures
        r@ == replace_spec(s@, pat@, rep@),
{
    let v = to_chars(s);
    let p = to_chars(pat);
    let n = v.len();
    let m = p.len();
    let mut r = String::new();
    let mut i: usize = 0;
    assert(s@.skip(0) =~= s@);
    while i < n
        invariant
            i <= n,
            n == v@.len(),
            m == p@.len(),
            v@ == s@,
            p@ == pat@,
            r@ + replace_spec(s@.skip(i as int), pat@, rep@) == replace_spec(s@, pat@, rep@),
        decreases n - i,
    {
        let ghost rest = s@.skip(i as int);
        let ghost before = r@;
        proof {
            lemma_prefix_at(s@, pat@, i as int);
            assert(rest[0] == s@[i as int]);
        }
        if m > 0 && matches_at(&v, &p, i) {
            r.append(rep);
            proof {
                assert(rest.skip(m as int) =~= s@.skip(i + m));
                assert(r@ + replace_spec(s@.skip(i + m), pat@, rep@) =~= before + replace_spec(
                    rest,
                    pat@,
                    rep@,
                ));
            }
            i = i + m;
        } else {
            let c = v[i];
            push_char(&mut r, c);
            proof {
                assert(rest.drop_first() =~= s@.skip(i + 1));
                if m == 0 {
                    assert(replace_spec(rest, pat@, rep@) == rest);
                    assert(replace_spec(rest.drop_first(), pat@, rep@) == rest.drop_first());
                }
                assert(replace_spec(rest, pat@, rep@) =~= seq![c] + replace_spec(
                    rest.drop_first(),
                    pat@,
                    rep@,
                ));
                assert(r@ + replace_spec(s@.skip(i + 1), pat@, rep@) =~= before + replace_spec(
                    rest,
                    pat@,
                    rep@,
                ));
            }
            i = i + 1;
        }
    }
    assert(s@.skip(n as int).len() == 0);
    assert(r@ + replace_spec(s@.skip(n as int), pat@, rep@) =~= r@);
    r
}


/// A CPU core as the clock line summarises it; its usage already formatted
/// as a whole percentage.
pub struct CoreText {
    pub name: String,
    pub usage: String,
    pub frequency_mhz: u64,
}

/// One core in the summary: `<name with cpu shortened to c>:<usage>%/<MHz>`.
pub open spec fn core_entry(c: CoreText) -> Seq<char> {
    replace_spec(c.name@, "cpu"@, "c"@) + ":"@ + c.usage@ + "%/"@ + decimal(c.frequency_mhz as nat)
}

/// The summary of the first four cores, separated by spaces, cut to fit.
pub open spec fn core_summary_spec(cores: Seq<CoreText>, max_chars: nat) -> Seq<char> {
    let shown = if cores.len() > 4 {
        cores.take(4)
    } else {
        cores
    };
    truncate_spec(join(shown.map_values(|c: CoreText| core_entry(c)), " "@), max_chars)
}

/// The summary of the first four cores (see `core_summary_spec`).
pub fn core_summary(cores: &Vec<CoreText>, max_chars: usize) -> (r: String)
    ensures
        r@ == core_summary_spec(cores@, max_chars as nat),
{
    let count = if cores.len() > 4 {
        4
    } else {
        cores.len()
    };
    let ghost shown = if cores@.len() > 4 {
        cores@.take(4)
    } else {
        cores@
    };
    let mut entries: Vec<String> = Vec::new();
    let mut i: usize = 0;
    while i < count
        invariant
            i <= count,
            count == shown.len(),
            count <= cores@.len(),
            shown == (if cores@.len() > 4 {
                cores@.take(4)
            } else {
                cores@
            }),
            strings_view(entries@) == shown.take(i as int).map_values(|c: CoreText| core_entry(c)),
        decreases count - i,
    {
        let c = &cores[i];
        let name = replace_all(c.name.as_str(), "cpu", "c");
        let head = concat3(name.as_str(), ":", c.usage.as_str());
        let freq = fmt_u64(c.frequency_mhz);
        let entry = concat3(head.as_str(), "%/", freq.as_str());
        let ghost before = entries@;
        entries.push(entry);
        proof {
            assert(shown[i as int] == cores@[i as int]);
            assert(strings_view(entries@) =~= strings_view(before).push(entry@));
            assert(shown.take(i + 1).map_values(|c: CoreText| core_entry(c)) =~= shown.take(
                i as int,
            ).map_values(|c: CoreText| core_entry(c)).push(core_entry(shown[i as int])));
        }
        i = i + 1;
    }
    assert(shown.take(count as int) =~= shown);
    let summary = crate::text::join_strings(&entries, " ");
    truncate(summary.as_str(), max_chars)
}

/// Text placed at a screen position in a color.
pub struct DrawOp {
    pub x: u16,
    pub y: u16,
    pub color: Color,
    pub text: String,
}

/// A drawing operation, its text taken as characters.
pub struct OpSpec {
    pub x: int,
    pub y: int,
    pub color: Color,
    pub text: Seq<char>,
}

impl View for DrawOp {
    type V = OpSpec;

    open spec fn view(&self) -> OpSpec {
        OpSpec { x: self.x as int, y: self.y as int, color: self.color, text: self.text@ }
    }
}

/// Drawing operations taken as positions, colors and characters.
pub open spec fn ops_view(v: Seq<DrawOp>) -> Seq<OpSpec> {
    v.map_values(|o: DrawOp| o@)
}

/// An operation placing `text` at `(x, y)` in `color`.
pub open spec fn op(x: int, y: int, color: Color, text: Seq<char>) -> OpSpec {
    OpSpec { x, y, color, text }
}

/// Text inside the outer frame: cut and padded to the frame's inner width,
/// from column 1.
pub open spec fn frame_text_spec(y: int, frame_width: u16, text: Seq<char>, color: Color) -> OpSpec {
    let w = inner_spec(frame_width);
    op(1, y, color, pad_right(truncate_spec(text, w), w))
}

/// Text inside the outer frame (see `frame_text_spec`).
pub fn frame_text(y: u16, frame_width: u16, text: &str, color: Color) -> (o: DrawOp)
    ensures
        o@ == frame_text_spec(y as int, frame_width, text@, color),
{
    let w = inner(frame_width);
    let cut = truncate(text, w);
    DrawOp { x: 1, y, color, text: pad(cut.as_str(), w) }
}

/// The width of a panel's text: four columns less than the panel.
pub open spec fn panel_inner(panel_width: u16) -> nat {
    if panel_width >= 4 {
        (panel_width - 4) as nat
    } else {
        0
    }
}

/// Text inside a panel: cut and padded to the panel's text width, three
/// columns in.
pub open spec fn panel_text_spec(panel_x: u16, y: int, panel_width: u16, text: Seq<char>, color: Color) -> OpSpec {
    let w = panel_inner(panel_width);
    op(panel_x + 3, y, color, pad_right(truncate_spec(text, w), w))
}

/// Text inside a panel (see `panel_text_spec`).
pub fn panel_text(panel_x: u16, y: u16, panel_width: u16, text: &str, color: Color) -> (o: DrawOp)
    requires
        panel_x + 3 <= u16::MAX,
    ensures
        o@ == panel_text_spec(panel_x, y as int, panel_width, text@, color),
{
    let w: usize = if panel_width >= 4 {
        (panel_width - 4) as usize
    } else {
        0
    };
    let cut = truncate(text, w);
    DrawOp { x: panel_x + 3, y, color, text: pad(cut.as_str(), w) }
}

/// `n` copies of `c`.
pub open spec fn repeat_spec(c: char, n: nat) -> Seq<char> {
    Seq::new(n, |i: int| c)
}

/// `n` copies of `c`.
pub fn repeat_char(c: char, n: usize) -> (r: String)
    ensures
        r@ == repeat_spec(c, n as nat),
{
    let mut r = String::new();
    let mut i: usize = 0;
    while i < n
        invariant
            i <= n,
            r@ == repeat_spec(c, i as nat),
        decreases n - i,
    {
        push_char(&mut r, c);
        assert(repeat_spec(c, (i + 1) as nat) =~= repeat_spec(c, i as nat).push(c));
        i = i + 1;
    }
    r
}

/// A horizontal border: `left`, `n` copies of `fill`, `right`.
pub open spec fn rule_spec(left: char, fill: char, right: char, n: nat) -> Seq<char> {
    seq![left] + repeat_spec(fill, n) + seq![right]
}

/// A horizontal border (see `rule_spec`).
pub fn rule(left: char, fill: char, right: char, n: usize) -> (r: String)
    ensures
        r@ == rule_spec(left, fill, right, n as nat),
{
    let mut r = String::new();
    push_char(&mut r, left);
    let body = repeat_char(fill, n);
    r.append(body.as_str());
    push_char(&mut r, right);
    assert(r@ =~= rule_spec(left, fill, right, n as nat));
    r
}


/// The title bar text of a panel: two rule characters, the title, a space.
pub open spec fn panel_title_spec(title: Seq<char>) -> Seq<char> {
    "\u{2500}\u{2500} "@ + title + " "@
}

/// The columns left for the rule after a panel's title.
pub open spec fn title_fill(width: u16, title: Seq<char>) -> nat {
    let used = panel_title_spec(title).len() + 2;
    if width >= used {
        (width - used) as nat
    } else {
        0
    }
}

/// A panel's box: a top border holding the title, side borders around blank
/// rows, and a bottom border, `width` columns wide and `height` rows high.
pub open spec fn panel_ops_spec(x: u16, y: u16, width: u16, height: u16, title: Seq<char>) -> Seq<OpSpec> {
    let w2 = inner_spec(width);
    let rows = if height >= 2 {
        (height - 2) as nat
    } else {
        0
    };
    seq![
        op(
            x as int,
            y as int,
            Color::Cyan,
            "\u{250C}"@ + panel_title_spec(title) + repeat_spec('\u{2500}', title_fill(width, title))
                + "\u{2510}"@,
        ),
    ] + Seq::new(
        rows,
        |i: int| op(x as int, y + 1 + i, Color::Cyan, rule_spec('\u{2502}', ' ', '\u{2502}', w2)),
    ) + seq![op(x as int, y + height - 1, Color::Cyan, rule_spec('\u{2514}', '\u{2500}', '\u{2518}', w2))]
}

/// A panel's box (see `panel_ops_spec`).
pub fn draw_panel(x: u16, y: u16, width: u16, height: u16, title: &str) -> (r: Vec<DrawOp>)
    requires
        height >= 1,
        y + height <= u16::MAX,
        title@.len() + 6 <= u16::MAX,
    ensures
        ops_view(r@) == panel_ops_spec(x, y, width, height, title@),
{
    let title_text = concat3("\u{2500}\u{2500} ", title, " ");
    proof {
        reveal_strlit("\u{2500}\u{2500} ");
        reveal_strlit(" ");
    }
    let used = (title_text.as_str().unicode_len() + 2) as u16;
    let fill: usize = if width >= used {
        (width - used) as usize
    } else {
        0
    };
    let w2 = inner(width);
    let mut top = concat2("\u{250C}", title_text.as_str());
    let fill_text = repeat_char('\u{2500}', fill);
    top.append(fill_text.as_str());
    top.append("\u{2510}");
    let mut r: Vec<DrawOp> = Vec::new();
    r.push(DrawOp { x, y, color: Color::Cyan, text: top });
    let side = rule('\u{2502}', ' ', '\u{2502}', w2);
    let rows: u16 = if height >= 2 {
        height - 2
    } else {
        0
    };
    let mut i: u16 = 0;
    while i < rows
        invariant
            i <= rows,
            rows == (if height >= 2 {
                (height - 2) as nat
            } else {
                0
            }),
            y + height <= u16::MAX,
            side@ == rule_spec('\u{2502}', ' ', '\u{2502}', w2 as nat),
            r@.len() == 1 + i,
            r@[0]@ == panel_ops_spec(x, y, width, height, title@)[0],
            forall|k: int|
                0 <= k < i ==> (#[trigger] r@[1 + k])@ == op(
                    x as int,
                    y + 1 + k,
                    Color::Cyan,
                    side@,
                ),
        decreases rows - i,
    {
        r.push(DrawOp { x, y: y + 1 + i, color: Color::Cyan, text: side.clone() });
        i = i + 1;
    }
    let bottom = rule('\u{2514}', '\u{2500}', '\u{2518}', w2);
    r.push(DrawOp { x, y: y + height - 1, color: Color::Cyan, text: bottom });
    proof {
        let sp = panel_ops_spec(x, y, width, height, title@);
        assert(sp.len() == rows + 2);
        assert forall|k: int| 0 <= k < r@.len() implies ops_view(r@)[k] == sp[k] by {
            if 1 <= k < 1 + rows {
                assert(r@[1 + (k - 1)]@ == op(x as int, y + 1 + (k - 1), Color::Cyan, side@));
            }
        }
        assert(ops_view(r@) =~= sp);
    }
    r
}

/// A horizontal frame border at row `y`.
pub open spec fn border_spec(y: int, width: u16, left: char, right: char) -> OpSpec {
    op(0, y, Color::Cyan, rule_spec(left, '\u{2550}', right, inner_spec(width)))
}

/// The side borders of row `y`, except on divider rows.
pub open spec fn side_row_spec(width: u16, y: int, shell_divider: u16, prompt_divider: u16) -> Seq<OpSpec> {
    if y == 2 || y == shell_divider || y == prompt_divider {
        Seq::empty()
    } else {
        seq![
            op(0, y, Color::Cyan, "\u{2551}"@),
            op(width - 1, y, Color::Cyan, "\u{2551}"@),
        ]
    }
}

/// The side borders of rows `lo` up to (not including) `hi`.
pub open spec fn sides_spec(width: u16, lo: int, hi: int, shell_divider: u16, prompt_divider: u16) -> Seq<OpSpec>
    decreases hi - lo,
{
    if hi <= lo {
        Seq::empty()
    } else {
        sides_spec(width, lo, hi - 1, shell_divider, prompt_divider) + side_row_spec(
            width,
            hi - 1,
            shell_divider,
            prompt_divider,
        )
    }
}

/// The outer frame: top border, the rule under the header, the shell and
/// prompt dividers, the bottom border, then the side borders of every other
/// row.
pub open spec fn outer_frame_spec(width: u16, height: u16, shell_divider: u16, prompt_divider: u16) -> Seq<OpSpec> {
    seq![
        border_spec(0, width, '\u{2554}', '\u{2557}'),
        border_spec(2, width, '\u{2560}', '\u{2563}'),
        border_spec(shell_divider as int, width, '\u{2560}', '\u{2563}'),
        border_spec(prompt_divider as int, width, '\u{2560}', '\u{2563}'),
        border_spec(height - 1, width, '\u{255A}', '\u{255D}'),
    ] + sides_spec(width, 1, height - 1, shell_divider, prompt_divider)
}

/// The outer frame (see `outer_frame_spec`).
pub fn outer_frame(width: u16, height: u16, shell_divider: u16, prompt_divider: u16) -> (r: Vec<DrawOp>)
    requires
        width >= 1,
        height >= 1,
    ensures
        ops_view(r@) == outer_frame_spec(width, height, shell_divider, prompt_divider),
{
    let w = inner(width);
    let mut r: Vec<DrawOp> = Vec::new();
    r.push(DrawOp { x: 0, y: 0, color: Color::Cyan, text: rule('\u{2554}', '\u{2550}', '\u{2557}', w) });
    r.push(DrawOp { x: 0, y: 2, color: Color::Cyan, text: rule('\u{2560}', '\u{2550}', '\u{2563}', w) });
    r.push(
        DrawOp {
            x: 0,
            y: shell_divider,
            color: Color::Cyan,
            text: rule('\u{2560}', '\u{2550}', '\u{2563}', w),
        },
    );
    r.push(
        DrawOp {
            x: 0,
            y: prompt_divider,
            color: Color::Cyan,
            text: rule('\u{2560}', '\u{2550}', '\u{2563}', w),
        },
    );
    r.push(
        DrawOp {
            x: 0,
            y: height - 1,
            color: Color::Cyan,
            text: rule('\u{255A}', '\u{2550}', '\u{255D}', w),
        },
    );
    let ghost head = ops_view(r@);
    assert(head =~= outer_frame_spec(width, height, shell_divider, prompt_divider).take(5));
    let mut y: u16 = 1;
    proof {
        reveal_strlit("\u{2551}");
    }
    while y < height - 1
        invariant
            1 <= y <= (if height >= 2 {
                height - 1
            } else {
                1
            }),
            width >= 1,
            height >= 1,
            ops_view(r@) == head + sides_spec(width, 1, y as int, shell_divider, prompt_divider),
        decreases height - y,
    {
        let ghost before = ops_view(r@);
        if !(y == 2 || y == shell_divider || y == prompt_divider) {
            r.push(DrawOp { x: 0, y, color: Color::Cyan, text: owned("\u{2551}") });
            r.push(DrawOp { x: width - 1, y, color: Color::Cyan, text: owned("\u{2551}") });
        }
        assert(ops_view(r@) =~= before + side_row_spec(width, y as int, shell_divider, prompt_divider));
        y = y + 1;
    }
    proof {
        if height < 2 {
            assert(sides_spec(width, 1, height - 1, shell_divider, prompt_divider) =~= Seq::<
                OpSpec,
            >::empty());
            assert(sides_spec(width, 1, 1, shell_divider, prompt_divider) =~= Seq::<OpSpec>::empty());
        }
    }
    assert(ops_view(r@) =~= outer_frame_spec(width, height, shell_divider, prompt_divider));
    r
}


/// The output line shown at a row: indented by two, cut to fit.
pub open spec fn output_row_text(width: u16, text: Seq<char>) -> Seq<char> {
    let w = inner_spec(width);
    "  "@ + truncate_spec(
        text,
        if w >= 3 {
            (w - 3) as nat
        } else {
            0
        },
    )
}

/// How many output lines fit between the shell divider's title row and the
/// prompt divider.
pub open spec fn output_rows(shell_divider: u16, prompt_divider: u16) -> nat {
    if prompt_divider >= shell_divider + 2 {
        (prompt_divider - shell_divider - 2) as nat
    } else {
        0
    }
}

/// The index of the first output line shown: the newest lines that fit.
pub open spec fn first_shown(count: nat, rows: nat) -> nat {
    if count >= rows {
        (count - rows) as nat
    } else {
        0
    }
}

/// The shell output area: its title, then the newest lines that fit, each
/// in its kind's color.
pub open spec fn shell_output_spec(lines: Seq<LineSpec>, width: u16, shell_divider: u16, prompt_divider: u16) -> Seq<OpSpec> {
    let rows = output_rows(shell_divider, prompt_divider);
    let start = first_shown(lines.len(), rows);
    seq![frame_text_spec(shell_divider + 1, width, "  Shell Output"@, Color::Cyan)] + Seq::new(
        (lines.len() - start) as nat,
        |i: int|
            frame_text_spec(
                shell_divider + 2 + i,
                width,
                output_row_text(width, lines[start + i].text),
                line_color_spec(lines[start + i].kind),
            ),
    )
}

/// The shell output area (see `shell_output_spec`).
pub fn shell_output(lines: &Vec<OutputLine>, width: u16, shell_divider: u16, prompt_divider: u16) -> (r:
    Vec<DrawOp>)
    requires
        shell_divider + 2 <= u16::MAX,
    ensures
        ops_view(r@) == shell_output_spec(
            crate::commands::lines_view(lines@),
            width,
            shell_divider,
            prompt_divider,
        ),
{
    let mut r: Vec<DrawOp> = Vec::new();
    r.push(frame_text(shell_divider + 1, width, "  Shell Output", Color::Cyan));
    let top = shell_divider + 2;
    let available: usize = if prompt_divider >= top {
        (prompt_divider - top) as usize
    } else {
        0
    };
    let n = lines.len();
    let start: usize = if n >= available {
        n - available
    } else {
        0
    };
    let w = inner(width);
    let cut: usize = if w >= 3 {
        w - 3
    } else {
        0
    };
    let ghost lv = crate::commands::lines_view(lines@);
    let mut i: usize = start;
    while i < n
        invariant
            start <= i <= n,
            n == lines@.len(),
            lv == crate::commands::lines_view(lines@),
            n - start <= available,
            available == output_rows(shell_divider, prompt_divider),
            start == first_shown(n as nat, available as nat),
            top == shell_divider + 2,
            top as int + available <= u16::MAX,
            cut == (if inner_spec(width) >= 3 {
                (inner_spec(width) - 3) as nat
            } else {
                0
            }),
            r@.len() == 1 + (i - start),
            r@[0]@ == frame_text_spec(shell_divider + 1, width, "  Shell Output"@, Color::Cyan),
            forall|k: int|
                0 <= k < i - start ==> (#[trigger] r@[1 + k])@ == frame_text_spec(
                    shell_divider + 2 + k,
                    width,
                    output_row_text(width, lv[start + k].text),
                    line_color_spec(lv[start + k].kind),
                ),
        decreases n - i,
    {
        let line = &lines[i];
        let shown = truncate(line.text.as_str(), cut);
        let text = concat2("  ", shown.as_str());
        let row = top + (i - start) as u16;
        r.push(frame_text(row, width, text.as_str(), line_color(&line.kind)));
        i = i + 1;
    }
    proof {
        let sp = shell_output_spec(lv, width, shell_divider, prompt_divider);
        assert forall|k: int| 0 <= k < r@.len() implies ops_view(r@)[k] == sp[k] by {
            if k >= 1 {
                assert(r@[1 + (k - 1)]@ == frame_text_spec(
                    shell_divider + 2 + (k - 1),
                    width,
                    output_row_text(width, lv[start + (k - 1)].text),
                    line_color_spec(lv[start + (k - 1)].kind),
                ));
            }
        }
        assert(ops_view(r@) =~= sp);
    }
    r
}

/// The too-small screen: a message, with a hint below it when there is a
/// row for it, centred vertically, each cut and padded to the width.
pub open spec fn too_small_spec(width: u16, height: u16) -> Seq<OpSpec> {
    let y = if height / 2 >= 1 {
        height / 2 - 1
    } else {
        0
    };
    let message = op(
        0,
        y,
        Color::Cyan,
        pad_right(truncate_spec("RustProc needs at least 74x32"@, width as nat), width as nat),
    );
    if height > y + 1 {
        seq![
            message,
            op(
                0,
                y + 1,
                Color::DarkGrey,
                pad_right(truncate_spec("Resize terminal or zoom out"@, width as nat), width as nat),
            ),
        ]
    } else {
        seq![message]
    }
}

/// The too-small screen (see `too_small_spec`).
pub fn too_small(width: u16, height: u16) -> (r: Vec<DrawOp>)
    ensures
        ops_view(r@) == too_small_spec(width, height),
{
    let y: u16 = if height / 2 >= 1 {
        height / 2 - 1
    } else {
        0
    };
    let w = width as usize;
    let mut r: Vec<DrawOp> = Vec::new();
    let message = truncate("RustProc needs at least 74x32", w);
    r.push(DrawOp { x: 0, y, color: Color::Cyan, text: pad(message.as_str(), w) });
    if height > y + 1 {
        let hint = truncate("Resize terminal or zoom out", w);
        r.push(DrawOp { x: 0, y: y + 1, color: Color::DarkGrey, text: pad(hint.as_str(), w) });
    }
    assert(ops_view(r@) =~= too_small_spec(width, height));
    r
}

/// The prompt row, in green, two rows from the bottom.
pub fn prompt_op(width: u16, height: u16, prompt: &str) -> (o: DrawOp)
    requires
        height >= 2,
    ensures
        o@ == frame_text_spec(height - 2, width, prompt@, Color::Green),
{
    frame_text(height - 2, width, prompt, Color::Green)
}


/// The header line: version, CPU load, memory in GB, GPU temperature and
/// process count; the figures that are floating point numbers come as text.
pub open spec fn header_spec(cpu: Seq<char>, used_gb: Seq<char>, total_gb: Seq<char>, gpu_temp: Seq<char>, process_count: nat) -> Seq<char> {
    "  RustProc Shell v0.2  \u{2502}  CPU: "@ + cpu + "%  RAM: "@ + used_gb + "/"@ + total_gb
        + " GB  GPU: "@ + gpu_temp + "  PIDs: "@ + decimal(process_count)
}

/// The header row (see `header_spec`), in cyan on row 1.
pub fn header_op(width: u16, cpu: &str, used_gb: &str, total_gb: &str, gpu_temp: &str, process_count: usize) -> (o: DrawOp)
    ensures
        o@ == frame_text_spec(
            1,
            width,
            header_spec(cpu@, used_gb@, total_gb@, gpu_temp@, process_count as nat),
            Color::Cyan,
        ),
{
    let a = concat3("  RustProc Shell v0.2  \u{2502}  CPU: ", cpu, "%  RAM: ");
    let b = concat3(a.as_str(), used_gb, "/");
    let c = concat3(b.as_str(), total_gb, " GB  GPU: ");
    let d = concat3(c.as_str(), gpu_temp, "  PIDs: ");
    let count = crate::text::fmt_usize(process_count);
    let header = concat2(d.as_str(), count.as_str());
    frame_text(1, width, header.as_str(), Color::Cyan)
}

/// What the system panel shows; the figures that are floating point numbers
/// (bars, percentages, temperatures, sizes in GB) come as text, and the load
/// colors come chosen.
pub struct SystemPanel {
    pub cpu_bar: String,
    pub cpu_usage: String,
    pub cpu_temp: String,
    pub cpu_frequency_mhz: u64,
    pub cpu_color: Color,
    pub memory_bar: String,
    pub memory_pct: String,
    pub used_gb: String,
    pub total_gb: String,
    pub memory_color: Color,
    pub gpu_name: String,
    pub vram: String,
    pub gpu_temp: String,
    pub cpu_brand: String,
    pub cpu_logical_cores: usize,
    pub critical: String,
    pub core_clock_mhz: Option<u64>,
    pub memory_clock_mhz: Option<u64>,
    pub cores: String,
}

/// A clock reading as the panel shows it (see `format_clock`).
pub open spec fn clock_spec(clock: Option<u64>) -> Seq<char> {
    match clock {
        Some(c) => decimal(c as nat) + " MHz"@,
        None => "n/a"@,
    }
}

/// The five rows of the system panel.
pub open spec fn system_rows_spec(p: SystemPanel) -> Seq<Seq<char>> {
    seq![
        "CPU  "@ + p.cpu_bar@ + " "@ + crate::text::pad_left(p.cpu_usage@, 5) + "%   Temp: "@
            + pad_right(p.cpu_temp@, 8) + " Freq: "@ + decimal(p.cpu_frequency_mhz as nat)
            + " MHz"@,
        "RAM  "@ + p.memory_bar@ + " "@ + crate::text::pad_left(p.memory_pct@, 5) + "%   "@
            + p.used_gb@ + " GB / "@ + p.total_gb@ + " GB"@,
        "GPU  "@ + truncate_spec(p.gpu_name@, 20) + "   VRAM: "@ + pad_right(p.vram@, 18)
            + " Temp: "@ + p.gpu_temp@,
        "CPU  "@ + pad_right(truncate_spec(p.cpu_brand@, 34), 34) + " Cores: "@ + pad_right(
            decimal(p.cpu_logical_cores as nat),
            3,
        ) + " Critical: "@ + p.critical@,
        "CLK  GPU core "@ + pad_right(clock_spec(p.core_clock_mhz), 10) + " mem "@ + pad_right(
            clock_spec(p.memory_clock_mhz),
            10,
        ) + " Cores "@ + p.cores@,
    ]
}

/// The colors of the five rows of the system panel.
pub open spec fn system_colors_spec(p: SystemPanel) -> Seq<Color> {
    seq![p.cpu_color, p.memory_color, Color::White, Color::DarkGrey, Color::DarkGrey]
}

/// The system panel at rows 4 to 10, three columns in and six narrower than
/// the screen: its box, then its five rows.
pub open spec fn system_panel_spec(p: SystemPanel, width: u16) -> Seq<OpSpec> {
    let panel_width = if width >= 6 {
        (width - 6) as u16
    } else {
        0u16
    };
    panel_ops_spec(3, 4, panel_width, 7, "System Stats"@) + Seq::new(
        5,
        |i: int|
            panel_text_spec(
                3,
                5 + i,
                panel_width,
                system_rows_spec(p)[i],
                system_colors_spec(p)[i],
            ),
    )
}

/// The system panel (see `system_panel_spec`).
pub fn system_panel(p: &SystemPanel, width: u16) -> (r: Vec<DrawOp>)
    ensures
        ops_view(r@) == system_panel_spec(*p, width),
{
    let panel_width: u16 = if width >= 6 {
        width - 6
    } else {
        0
    };
    proof {
        reveal_strlit("System Stats");
    }
    let mut r = draw_panel(3, 4, panel_width, 7, "System Stats");
    let ghost boxed = ops_view(r@);

    let a = concat3("CPU  ", p.cpu_bar.as_str(), " ");
    let usage = crate::text::pad_left_str(p.cpu_usage.as_str(), 5);
    let b = concat3(a.as_str(), usage.as_str(), "%   Temp: ");
    let temp = pad_right_str(p.cpu_temp.as_str(), 8);
    let c = concat3(b.as_str(), temp.as_str(), " Freq: ");
    let freq = fmt_u64(p.cpu_frequency_mhz);
    let row0 = concat3(c.as_str(), freq.as_str(), " MHz");

    let a = concat3("RAM  ", p.memory_bar.as_str(), " ");
    let pct = crate::text::pad_left_str(p.memory_pct.as_str(), 5);
    let b = concat3(a.as_str(), pct.as_str(), "%   ");
    let c = concat3(b.as_str(), p.used_gb.as_str(), " GB / ");
    let row1 = concat3(c.as_str(), p.total_gb.as_str(), " GB");

    let name = truncate(p.gpu_name.as_str(), 20);
    let a = concat3("GPU  ", name.as_str(), "   VRAM: ");
    let vram = pad_right_str(p.vram.as_str(), 18);
    let b = concat3(a.as_str(), vram.as_str(), " Temp: ");
    let row2 = concat2(b.as_str(), p.gpu_temp.as_str());

    let brand = truncate(p.cpu_brand.as_str(), 34);
    let brand = pad_right_str(brand.as_str(), 34);
    let a = concat3("CPU  ", brand.as_str(), " Cores: ");
    let cores = crate::text::fmt_usize(p.cpu_logical_cores);
    let cores = pad_right_str(cores.as_str(), 3);
    let b = concat3(a.as_str(), cores.as_str(), " Critical: ");
    let row3 = concat2(b.as_str(), p.critical.as_str());

    let core_clock = format_clock(p.core_clock_mhz);
    let core_clock = pad_right_str(core_clock.as_str(), 10);
    let a = concat3("CLK  GPU core ", core_clock.as_str(), " mem ");
    let mem_clock = format_clock(p.memory_clock_mhz);
    let mem_clock = pad_right_str(mem_clock.as_str(), 10);
    let b = concat3(a.as_str(), mem_clock.as_str(), " Cores ");
    let row4 = concat2(b.as_str(), p.cores.as_str());

    r.push(panel_text(3, 5, panel_width, row0.as_str(), p.cpu_color));
    r.push(panel_text(3, 6, panel_width, row1.as_str(), p.memory_color));
    r.push(panel_text(3, 7, panel_width, row2.as_str(), Color::White));
    r.push(panel_text(3, 8, panel_width, row3.as_str(), Color::DarkGrey));
    r.push(panel_text(3, 9, panel_width, row4.as_str(), Color::DarkGrey));
    proof {
        let rows = system_rows_spec(*p);
        assert(row0@ =~= rows[0]);
        assert(row1@ =~= rows[1]);
        assert(row2@ =~= rows[2]);
        assert(row3@ =~= rows[3]);
        assert(row4@ =~= rows[4]);
        assert(ops_view(r@) =~= system_panel_spec(*p, width));
    }
    r
}

/// A process as its panel row shows it; its CPU share already formatted and
/// its load color chosen.
pub struct ProcessText {
    pub pid: String,
    pub name: String,
    pub cpu: String,
    pub memory_mb: u64,
    pub status: String,
    pub color: Color,
}

/// A process row: pid, name, CPU share, memory in MB and status, in columns.
pub open spec fn process_row_spec(p: ProcessText) -> Seq<char> {
    pad_right(p.pid@, 8) + " "@ + pad_right(truncate_spec(p.name@, 20), 20) + " "@
        + crate::text::pad_left(p.cpu@, 5) + "   "@ + crate::text::pad_left(
        decimal(p.memory_mb as nat),
        6,
    ) + "   "@ + truncate_spec(p.status@, 12)
}

/// The process panel at rows 13 to 23: its box, the column titles, then up
/// to eight processes in the given order.
pub open spec fn process_panel_spec(processes: Seq<ProcessText>, width: u16) -> Seq<OpSpec> {
    let panel_width = if width >= 6 {
        (width - 6) as u16
    } else {
        0u16
    };
    let shown = if processes.len() > 8 {
        8
    } else {
        processes.len()
    };
    panel_ops_spec(3, 13, panel_width, 11, "Processes (top 8 by CPU)"@) + seq![
        panel_text_spec(
            3,
            14,
            panel_width,
            "PID      Name                 CPU%    Mem MB   Status"@,
            Color::DarkGrey,
        ),
    ] + Seq::new(
        shown,
        |i: int|
            panel_text_spec(
                3,
                15 + i,
                panel_width,
                process_row_spec(processes[i]),
                processes[i].color,
            ),
    )
}

/// The process panel (see `process_panel_spec`).
pub fn process_panel(processes: &Vec<ProcessText>, width: u16) -> (r: Vec<DrawOp>)
    ensures
        ops_view(r@) == process_panel_spec(processes@, width),
{
    let panel_width: u16 = if width >= 6 {
        width - 6
    } else {
        0
    };
    proof {
        reveal_strlit("Processes (top 8 by CPU)");
    }
    let mut r = draw_panel(3, 13, panel_width, 11, "Processes (top 8 by CPU)");
    r.push(
        panel_text(
            3,
            14,
            panel_width,
            "PID      Name                 CPU%    Mem MB   Status",
            Color::DarkGrey,
        ),
    );
    let ghost head = ops_view(r@);
    let count: usize = if processes.len() > 8 {
        8
    } else {
        processes.len()
    };
    let mut i: usize = 0;
    while i < count
        invariant
            i <= count,
            count <= 8,
            count <= processes@.len(),
            r@.len() == head.len() + i,
            forall|k: int| 0 <= k < head.len() ==> (#[trigger] r@[k])@ == head[k],
            forall|k: int|
                0 <= k < i ==> (#[trigger] r@[head.len() + k])@ == panel_text_spec(
                    3,
                    15 + k,
                    panel_width,
                    process_row_spec(processes@[k]),
                    processes@[k].color,
                ),
        decreases count - i,
    {
        let p = &processes[i];
        let pid = pad_right_str(p.pid.as_str(), 8);
        let name = truncate(p.name.as_str(), 20);
        let name = pad_right_str(name.as_str(), 20);
        let a = concat3(pid.as_str(), " ", name.as_str());
        let cpu = crate::text::pad_left_str(p.cpu.as_str(), 5);
        let b = concat3(a.as_str(), " ", cpu.as_str());
        let mem = fmt_u64(p.memory_mb);
        let mem = crate::text::pad_left_str(mem.as_str(), 6);
        let c = concat3(b.as_str(), "   ", mem.as_str());
        let status = truncate(p.status.as_str(), 12);
        let row = concat3(c.as_str(), "   ", status.as_str());
        assert(row@ =~= process_row_spec(processes@[i as int]));
        r.push(panel_text(3, 15 + i as u16, panel_width, row.as_str(), p.color));
        i = i + 1;
    }
    proof {
        let sp = process_panel_spec(processes@, width);
        assert(sp.len() == head.len() + count);
        assert forall|k: int| 0 <= k < r@.len() implies ops_view(r@)[k] == sp[k] by {
            if k >= head.len() {
                let j = k - head.len();
                assert(r@[head.len() + j]@ == panel_text_spec(
                    3,
                    15 + j,
                    panel_width,
                    process_row_spec(processes@[j]),
                    processes@[j].color,
                ));
            }
        }
        assert(ops_view(r@) =~= sp);
    }
    r
}

} // verus!
