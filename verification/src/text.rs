//! Character-level text handling: Unicode whitespace, trimming and
//! conversions between `&str`, `String` and character vectors.

use vstd::prelude::*;

verus! {

/// `char::is_whitespace`: the Unicode `White_Space` property.
pub open spec fn is_ws(c: char) -> bool {
    let u = c as u32;
    ||| 9 <= u <= 13
    ||| u == 32
    ||| u == 0x85
    ||| u == 0xA0
    ||| u == 0x1680
    ||| 0x2000 <= u <= 0x200A
    ||| u == 0x2028
    ||| u == 0x2029
    ||| u == 0x202F
    ||| u == 0x205F
    ||| u == 0x3000
}

/// The text with its leading whitespace removed.
pub open spec fn trim_front(s: Seq<char>) -> Seq<char>
    decreases s.len(),
{
    if s.len() > 0 && is_ws(s[0]) {
        trim_front(s.drop_first())
    } else {
        s
    }
}

/// The text with its trailing whitespace removed.
pub open spec fn trim_back(s: Seq<char>) -> Seq<char>
    decreases s.len(),
{
    if s.len() > 0 && is_ws(s.last()) {
        trim_back(s.drop_last())
    } else {
        s
    }
}

/// `str::trim`: leading and trailing whitespace removed.
pub open spec fn trim(s: Seq<char>) -> Seq<char> {
    trim_back(trim_front(s))
}

/// Text that holds nothing but whitespace.
pub open spec fn is_blank(s: Seq<char>) -> bool {
    trim(s).len() == 0
}

/// Whether `c` is whitespace in the sense of `char::is_whitespace`.
pub fn is_whitespace(c: char) -> (b: bool)
    ensures
        b == is_ws(c),
{
    let u = c as u32;
    (9 <= u && u <= 13) || u == 32 || u == 0x85 || u == 0xA0 || u == 0x1680 || (0x2000 <= u
        && u <= 0x200A) || u == 0x2028 || u == 0x2029 || u == 0x202F || u == 0x205F || u
        == 0x3000
}

/// The characters of `s`, in order.
pub fn to_chars(s: &str) -> (v: Vec<char>)
    ensures
        v@ == s@,
{
    let mut v: Vec<char> = Vec::new();
    for c in it: s.chars()
        invariant
            v@ == it.seq().take(it.index() as int),
    {
        v.push(c);
    }
    v
}


/// Dropping a run of leading whitespace does not change the front-trimmed text.
pub proof fn lemma_trim_front_skip(s: Seq<char>, i: int)
    requires
        0 <= i <= s.len(),
        forall|k: int| 0 <= k < i ==> is_ws(#[trigger] s[k]),
    ensures
        trim_front(s) == trim_front(s.subrange(i, s.len() as int)),
    decreases i,
{
    if i > 0 {
        lemma_trim_front_skip(s.drop_first(), i - 1);
        assert(s.drop_first().subrange(i - 1, s.drop_first().len() as int) =~= s.subrange(
            i,
            s.len() as int,
        ));
    } else {
        assert(s.subrange(0, s.len() as int) =~= s);
    }
}

/// Dropping a run of trailing whitespace does not change the back-trimmed text.
pub proof fn lemma_trim_back_cut(s: Seq<char>, j: int)
    requires
        0 <= j <= s.len(),
        forall|k: int| j <= k < s.len() ==> is_ws(#[trigger] s[k]),
    ensures
        trim_back(s) == trim_back(s.subrange(0, j)),
    decreases s.len() - j,
{
    if j < s.len() {
        lemma_trim_back_cut(s.drop_last(), j);
        assert(s.drop_last().subrange(0, j) =~= s.subrange(0, j));
    } else {
        assert(s.subrange(0, j) =~= s);
    }
}

/// Front-trimmed text is empty or starts with a non-whitespace character,
/// and is a suffix of the text.
pub proof fn lemma_trim_front_shape(s: Seq<char>)
    ensures
        trim_front(s).len() <= s.len(),
        trim_front(s) =~= s.subrange(s.len() - trim_front(s).len(), s.len() as int),
        trim_front(s).len() > 0 ==> !is_ws(trim_front(s)[0]),
        forall|k: int| 0 <= k < s.len() - trim_front(s).len() ==> is_ws(#[trigger] s[k]),
    decreases s.len(),
{
    if s.len() > 0 && is_ws(s[0]) {
        lemma_trim_front_shape(s.drop_first());
        assert forall|k: int| 0 <= k < s.len() - trim_front(s).len() implies is_ws(
            #[trigger] s[k],
        ) by {
            if k > 0 {
                assert(s[k] == s.drop_first()[k - 1]);
            }
        }
    }
}

/// Back-trimmed text is empty or ends with a non-whitespace character,
/// and is a prefix of the text.
pub proof fn lemma_trim_back_shape(s: Seq<char>)
    ensures
        trim_back(s).len() <= s.len(),
        trim_back(s) =~= s.subrange(0, trim_back(s).len() as int),
        trim_back(s).len() > 0 ==> !is_ws(trim_back(s).last()),
        forall|k: int| trim_back(s).len() <= k < s.len() ==> is_ws(#[trigger] s[k]),
    decreases s.len(),
{
    if s.len() > 0 && is_ws(s.last()) {
        lemma_trim_back_shape(s.drop_last());
        assert forall|k: int| trim_back(s).len() <= k < s.len() implies is_ws(#[trigger] s[k]) by {
            if k < s.len() - 1 {
                assert(s[k] == s.drop_last()[k]);
            }
        }
    }
}

/// Text without leading or trailing whitespace is its own trim.
pub proof fn lemma_trim_fixed(s: Seq<char>)
    requires
        s.len() > 0 ==> !is_ws(s[0]) && !is_ws(s.last()),
    ensures
        trim(s) == s,
{
}

/// Trimming twice is trimming once.
pub proof fn lemma_trim_idempotent(s: Seq<char>)
    ensures
        trim(trim(s)) == trim(s),
{
    let f = trim_front(s);
    lemma_trim_front_shape(s);
    lemma_trim_back_shape(f);
    let t = trim_back(f);
    if t.len() > 0 {
        assert(t[0] == f[0]);
    }
    lemma_trim_fixed(t);
}

/// Trimming the front and trimming the back commute.
pub proof fn lemma_trim_commutes(x: Seq<char>)
    ensures
        trim_front(trim_back(x)) == trim_back(trim_front(x)),
{
    let f = trim_front(x);
    let b = trim_back(x);
    lemma_trim_front_shape(x);
    lemma_trim_back_shape(x);
    let a = x.len() - f.len();
    let e = b.len() as int;
    if f.len() == 0 {
        // all whitespace: both sides are empty
        assert forall|k: int| 0 <= k < b.len() implies is_ws(#[trigger] b[k]) by {
            assert(b[k] == x[k]);
        }
        lemma_trim_front_skip(b, b.len() as int);
        assert(b.subrange(b.len() as int, b.len() as int) =~= Seq::<char>::empty());
        assert(trim_back(f) =~= f);
    } else {
        assert(!is_ws(x[a]));
        assert(e > a) by {
            if e <= a {
                assert(is_ws(x[a]));
            }
        }
        assert(!is_ws(x[e - 1])) by {
            assert(b.last() == x[e - 1]);
        }
        // the back-trimmed front-trim is x[a..e]
        assert forall|k: int| e - a <= k < f.len() implies is_ws(#[trigger] f[k]) by {
            assert(f[k] == x[a + k]);
        }
        lemma_trim_back_cut(f, e - a);
        let mid = x.subrange(a, e);
        assert(f.subrange(0, e - a) =~= mid);
        assert(mid.last() == x[e - 1]);
        assert(mid[0] == x[a]);
        assert(trim_back(mid) == mid);
        // the front-trimmed back-trim is x[a..e]
        assert forall|k: int| 0 <= k < a implies is_ws(#[trigger] b[k]) by {
            assert(b[k] == x[k]);
        }
        lemma_trim_front_skip(b, a);
        assert(b.subrange(a, b.len() as int) =~= mid);
        assert(trim_front(mid) == mid);
    }
}

/// Trimming the back of text whose tail is not all whitespace keeps the head.
pub proof fn lemma_trim_back_concat(a: Seq<char>, b: Seq<char>)
    ensures
        trim_back(b).len() > 0 ==> trim_back(a + b) == a + trim_back(b),
        trim_back(b).len() == 0 ==> trim_back(a + b) == trim_back(a),
    decreases b.len(),
{
    if b.len() == 0 {
        assert(a + b =~= a);
    } else {
        assert((a + b).last() == b.last());
        assert((a + b).drop_last() =~= a + b.drop_last());
        lemma_trim_back_concat(a, b.drop_last());
    }
}

/// `str::trim`: the piece of `s` without leading and trailing whitespace.
pub fn trim_str(s: &str) -> (r: &str)
    ensures
        r@ == trim(s@),
{
    let v = to_chars(s);
    let n = v.len();
    let mut i: usize = 0;
    while i < n && is_whitespace(v[i])
        invariant
            i <= n,
            n == v@.len(),
            v@ == s@,
            forall|k: int| 0 <= k < i ==> is_ws(#[trigger] v@[k]),
        decreases n - i,
    {
        i = i + 1;
    }
    let mut j: usize = n;
    while j > i && is_whitespace(v[j - 1])
        invariant
            i <= j <= n,
            n == v@.len(),
            v@ == s@,
            forall|k: int| j <= k < n ==> is_ws(#[trigger] v@[k]),
        decreases j,
    {
        j = j - 1;
    }
    proof {
        let s0 = s@;
        lemma_trim_front_skip(s0, i as int);
        let f = s0.subrange(i as int, n as int);
        assert(f.len() > 0 ==> !is_ws(f[0]) || i == j);
        if i < n {
            if i < j {
                assert(f[0] == s0[i as int]);
            } else {
                assert forall|k: int| 0 <= k < f.len() implies is_ws(#[trigger] f[k]) by {
                    assert(f[k] == s0[i + k]);
                }
                lemma_trim_front_skip(f, f.len() as int);
                assert(f.subrange(f.len() as int, f.len() as int) =~= Seq::<char>::empty());
            }
        }
        assert forall|k: int| (j - i) <= k < f.len() implies is_ws(#[trigger] f[k]) by {
            assert(f[k] == s0[i + k]);
        }
        lemma_trim_back_cut(f, j - i);
        assert(f.subrange(0, j - i) =~= s0.subrange(i as int, j as int));
        let g = s0.subrange(i as int, j as int);
        if g.len() > 0 {
            assert(g[0] == s0[i as int]);
            assert(g.last() == s0[j - 1]);
        }
        lemma_trim_fixed(g);
        if i == j {
            // the whole text is whitespace: trimming the front leaves nothing
            assert forall|k: int| 0 <= k < s0.len() implies is_ws(#[trigger] s0[k]) by {
                if k >= i {
                    assert(k >= j);
                }
            }
            lemma_trim_front_skip(s0, n as int);
            assert(s0.subrange(n as int, n as int) =~= Seq::<char>::empty());
        }
    }
    s.substring_char(i, j)
}


/// Equality of two string slices, character by character.
pub fn str_eq(a: &str, b: &str) -> (r: bool)
    ensures
        r == (a@ == b@),
{
    let va = to_chars(a);
    let vb = to_chars(b);
    if va.len() != vb.len() {
        return false;
    }
    let n = va.len();
    let mut i: usize = 0;
    while i < n
        invariant
            i <= n,
            n == va@.len(),
            n == vb@.len(),
            va@ == a@,
            vb@ == b@,
            forall|k: int| 0 <= k < i ==> va@[k] == vb@[k],
        decreases n - i,
    {
        if va[i] != vb[i] {
            return false;
        }
        i = i + 1;
    }
    assert(va@ =~= vb@);
    true
}

/// `String::push`: appends one character.
#[verifier::external_body]
pub(crate) fn push_char(s: &mut String, c: char)
    ensures
        final(s)@ == old(s)@.push(c),
{
    s.push(c);
}

/// An owned copy of a string slice.
pub fn owned(s: &str) -> (r: String)
    ensures
        r@ == s@,
{
    s.to_owned()
}

/// The concatenation of two pieces of text.
pub fn concat2(a: &str, b: &str) -> (r: String)
    ensures
        r@ == a@ + b@,
{
    let mut r = a.to_owned();
    r.append(b);
    r
}

/// The concatenation of three pieces of text.
pub fn concat3(a: &str, b: &str, c: &str) -> (r: String)
    ensures
        r@ == a@ + b@ + c@,
{
    let mut r = a.to_owned();
    r.append(b);
    r.append(c);
    r
}


/// Whether the text holds nothing but whitespace.
pub fn is_blank_str(s: &str) -> (b: bool)
    ensures
        b == is_blank(s@),
{
    trim_str(s).unicode_len() == 0
}


/// The decimal digit character for `d` (0 to 9).
pub open spec fn digit_char(d: int) -> char {
    (48 + d) as char
}

/// The decimal representation of `n`, without leading zeros.
pub open spec fn decimal(n: nat) -> Seq<char>
    decreases n,
{
    if n < 10 {
        seq![digit_char(n as int)]
    } else {
        decimal(n / 10).push(digit_char((n % 10) as int))
    }
}

/// The decimal representation of a signed integer, with a leading `-` when negative.
pub open spec fn signed_decimal(n: int) -> Seq<char> {
    if n < 0 {
        seq!['-'] + decimal((-n) as nat)
    } else {
        decimal(n as nat)
    }
}

/// `n` spaces.
pub open spec fn spaces(n: nat) -> Seq<char> {
    Seq::new(n, |i: int| ' ')
}

/// Right-aligned in a field of `width` characters (`{:>width}`).
pub open spec fn pad_left(s: Seq<char>, width: nat) -> Seq<char> {
    if s.len() < width {
        spaces((width - s.len()) as nat) + s
    } else {
        s
    }
}

/// Left-aligned in a field of `width` characters (`{:<width}`).
pub open spec fn pad_right(s: Seq<char>, width: nat) -> Seq<char> {
    if s.len() < width {
        s + spaces((width - s.len()) as nat)
    } else {
        s
    }
}

fn digit(d: u64) -> (c: char)
    requires
        d < 10,
    ensures
        c == digit_char(d as int),
{
    ((48u8 + d as u8) as char)
}

/// The decimal representation of an unsigned integer (`{}`).
pub fn fmt_u64(n: u64) -> (s: String)
    ensures
        s@ == decimal(n as nat),
    decreases n,
{
    if n < 10 {
        let mut s = String::new();
        push_char(&mut s, digit(n));
        assert(s@ =~= seq![digit_char(n as int)]);
        s
    } else {
        let mut s = fmt_u64(n / 10);
        push_char(&mut s, digit(n % 10));
        s
    }
}

/// The decimal representation of a `usize` (`{}`).
pub fn fmt_usize(n: usize) -> (s: String)
    ensures
        s@ == decimal(n as nat),
{
    fmt_u64(n as u64)
}

/// The decimal representation of an `i32` (`{}`).
pub fn fmt_i32(n: i32) -> (s: String)
    ensures
        s@ == signed_decimal(n as int),
{
    if n < 0 {
        let magnitude: u64 = (-(n as i64)) as u64;
        let digits = fmt_u64(magnitude);
        proof {
            reveal_strlit("-");
            assert("-"@ =~= seq!['-']);
        }
        concat2("-", digits.as_str())
    } else {
        fmt_u64(n as u64)
    }
}


/// The text of each `String`, in order.
pub open spec fn strings_view(v: Seq<String>) -> Seq<Seq<char>> {
    v.map_values(|s: String| s@)
}

/// Position of the first `'\n'` (the length when there is none).
pub open spec fn line_end(s: Seq<char>) -> nat
    decreases s.len(),
{
    if s.len() == 0 || s[0] == '\n' {
        0
    } else {
        1 + line_end(s.drop_first())
    }
}

/// A line without the `'\r'` of a `"\r\n"` ending.
pub open spec fn strip_cr(l: Seq<char>) -> Seq<char> {
    if l.len() > 0 && l.last() == '\r' {
        l.drop_last()
    } else {
        l
    }
}

/// `str::lines`: the text split at `'\n'`, each line without its `"\r\n"` or
/// `'\n'` ending; a final line ending adds no empty line.
pub open spec fn lines_of(s: Seq<char>) -> Seq<Seq<char>>
    decreases s.len(),
{
    if s.len() == 0 {
        Seq::empty()
    } else {
        let k = line_end(s);
        if k >= s.len() {
            seq![s]
        } else {
            seq![strip_cr(s.take(k as int))] + lines_of(s.skip(k + 1 as int))
        }
    }
}

proof fn lemma_line_end_at(s: Seq<char>, k: int)
    requires
        0 <= k <= s.len(),
        forall|j: int| 0 <= j < k ==> #[trigger] s[j] != '\n',
        k == s.len() || s[k] == '\n',
    ensures
        line_end(s) == k,
    decreases k,
{
    if k > 0 {
        assert forall|j: int| 0 <= j < k - 1 implies #[trigger] s.drop_first()[j] != '\n' by {
            assert(s.drop_first()[j] == s[j + 1]);
        }
        lemma_line_end_at(s.drop_first(), k - 1);
    }
}

/// The characters `v[a..b]` as a `String`.
pub fn string_from_range(v: &Vec<char>, a: usize, b: usize) -> (s: String)
    requires
        a <= b <= v@.len(),
    ensures
        s@ == v@.subrange(a as int, b as int),
{
    let mut s = String::new();
    let mut i: usize = a;
    while i < b
        invariant
            a <= i <= b,
            b <= v@.len(),
            s@ == v@.subrange(a as int, i as int),
        decreases b - i,
    {
        push_char(&mut s, v[i]);
        assert(v@.subrange(a as int, i + 1) =~= v@.subrange(a as int, i as int).push(v@[i as int]));
        i = i + 1;
    }
    s
}

/// `str::lines`, each line as an owned `String`.
pub fn split_lines(text: &str) -> (r: Vec<String>)
    ensures
        strings_view(r@) == lines_of(text@),
{
    let v = to_chars(text);
    let n = v.len();
    let ghost s = text@;
    let mut r: Vec<String> = Vec::new();
    let mut st: usize = 0;
    let mut i: usize = 0;
    assert(s.skip(0) =~= s);
    assert(strings_view(r@) + lines_of(s.skip(0)) =~= lines_of(s));
    while i < n
        invariant
            st <= i <= n,
            n == s.len(),
            v@ == s,
            strings_view(r@) + lines_of(s.skip(st as int)) == lines_of(s),
            forall|j: int| st <= j < i ==> #[trigger] s[j] != '\n',
        decreases n - i,
    {
        if v[i] == '\n' {
            let end = if i > st && v[i - 1] == '\r' {
                i - 1
            } else {
                i
            };
            let line = string_from_range(&v, st, end);
            proof {
                let rest = s.skip(st as int);
                let k = (i - st) as int;
                assert forall|j: int| 0 <= j < k implies #[trigger] rest[j] != '\n' by {
                    assert(rest[j] == s[st + j]);
                }
                assert(rest[k] == s[i as int]);
                lemma_line_end_at(rest, k);
                assert(rest.take(k) =~= s.subrange(st as int, i as int));
                assert(rest.skip(k + 1) =~= s.skip(i + 1));
                assert(strip_cr(rest.take(k)) =~= s.subrange(st as int, end as int));
                assert(strings_view(r@.push(line)) =~= strings_view(r@).push(line@));
                assert(strings_view(r@).push(line@) + lines_of(s.skip(i + 1)) =~= strings_view(r@)
                    + lines_of(rest));
            }
            r.push(line);
            st = i + 1;
        }
        i = i + 1;
    }
    if st < n {
        let line = string_from_range(&v, st, n);
        proof {
            let rest = s.skip(st as int);
            let k = (n - st) as int;
            assert forall|j: int| 0 <= j < k implies #[trigger] rest[j] != '\n' by {
                assert(rest[j] == s[st + j]);
            }
            lemma_line_end_at(rest, k);
            assert(rest =~= s.subrange(st as int, n as int));
            assert(strings_view(r@.push(line)) =~= strings_view(r@).push(line@));
            assert(strings_view(r@).push(line@) =~= strings_view(r@) + lines_of(rest));
        }
        r.push(line);
    } else {
        proof {
            assert(s.skip(st as int).len() == 0);
            assert(strings_view(r@) =~= strings_view(r@) + lines_of(s.skip(st as int)));
        }
    }
    r
}

/// The pieces joined with `sep` between consecutive pieces.
pub open spec fn join(parts: Seq<Seq<char>>, sep: Seq<char>) -> Seq<char>
    decreases parts.len(),
{
    if parts.len() == 0 {
        Seq::empty()
    } else if parts.len() == 1 {
        parts[0]
    } else {
        join(parts.drop_last(), sep) + sep + parts.last()
    }
}

/// The strings joined with `sep` between consecutive strings.
pub fn join_strings(parts: &Vec<String>, sep: &str) -> (r: String)
    ensures
        r@ == join(strings_view(parts@), sep@),
{
    let mut r = String::new();
    let n = parts.len();
    let ghost ps = strings_view(parts@);
    let mut i: usize = 0;
    while i < n
        invariant
            i <= n,
            n == parts@.len(),
            ps == strings_view(parts@),
            r@ == join(ps.take(i as int), sep@),
        decreases n - i,
    {
        if i > 0 {
            r.append(sep);
        }
        r.append(parts[i].as_str());
        proof {
            assert(ps.take(i + 1).drop_last() =~= ps.take(i as int));
            if i == 0 {
                assert(join(ps.take(0), sep@) =~= Seq::<char>::empty());
                assert(r@ =~= ps.take(1)[0]);
            }
        }
        i = i + 1;
    }
    assert(ps.take(n as int) =~= ps);
    r
}


/// A `String` of `n` spaces.
pub fn spaces_string(n: usize) -> (s: String)
    ensures
        s@ == spaces(n as nat),
{
    let mut s = String::new();
    let mut i: usize = 0;
    while i < n
        invariant
            i <= n,
            s@ == spaces(i as nat),
        decreases n - i,
    {
        push_char(&mut s, ' ');
        assert(spaces((i + 1) as nat) =~= spaces(i as nat).push(' '));
        i = i + 1;
    }
    s
}

/// Right-aligns `s` in a field of `width` characters.
pub fn pad_left_str(s: &str, width: usize) -> (r: String)
    ensures
        r@ == pad_left(s@, width as nat),
{
    let n = s.unicode_len();
    if n < width {
        let mut r = spaces_string(width - n);
        r.append(s);
        r
    } else {
        owned(s)
    }
}

/// Left-aligns `s` in a field of `width` characters.
pub fn pad_right_str(s: &str, width: usize) -> (r: String)
    ensures
        r@ == pad_right(s@, width as nat),
{
    let n = s.unicode_len();
    let mut r = owned(s);
    if n < width {
        let fill = spaces_string(width - n);
        r.append(fill.as_str());
    }
    r
}


/// The text that `String::from_utf8_lossy` makes of `bytes`: their UTF-8
/// decoding, with each invalid sequence replaced by U+FFFD.
pub uninterp spec fn utf8_lossy(bytes: Seq<u8>) -> Seq<char>;

/// `String::from_utf8_lossy`, owned. Its result is `utf8_lossy` of the bytes;
/// for valid UTF-8 that is the plain decoding, as its documentation states.
/// How invalid sequences are replaced is left to the name.
#[verifier::external_body]
pub(crate) fn decode_lossy(bytes: &[u8]) -> (s: String)
    ensures
        s@ == utf8_lossy(bytes@),
        vstd::utf8::valid_utf8(bytes@) ==> s@ == vstd::utf8::decode_utf8(bytes@),
{
    String::from_utf8_lossy(bytes).into_owned()
}

/// `String::from_utf8`, its error dropped: the decoded text when the bytes
/// are valid UTF-8, and nothing otherwise, as its documentation states.
#[verifier::external_body]
pub(crate) fn decode_strict(bytes: Vec<u8>) -> (r: Option<String>)
    ensures
        r is Some <==> vstd::utf8::valid_utf8(bytes@),
        r matches Some(s) ==> s@ == vstd::utf8::decode_utf8(bytes@),
{
    String::from_utf8(bytes).ok()
}

/// A line whose first non-whitespace characters open or close a fenced
/// code block (three backticks).
pub open spec fn is_fence(l: Seq<char>) -> bool {
    let t = trim_front(l);
    t.len() >= 3 && t[0] == '`' && t[1] == '`' && t[2] == '`'
}

/// Whether a line opens or closes a fenced code block (see `is_fence`).
pub fn is_fence_line(l: &str) -> (b: bool)
    ensures
        b == is_fence(l@),
{
    let v = to_chars(l);
    let n = v.len();
    let mut i: usize = 0;
    while i < n && is_whitespace(v[i])
        invariant
            i <= n,
            n == v@.len(),
            v@ == l@,
            forall|k: int| 0 <= k < i ==> is_ws(#[trigger] v@[k]),
        decreases n - i,
    {
        i = i + 1;
    }
    proof {
        lemma_trim_front_skip(l@, i as int);
        let rest = l@.subrange(i as int, n as int);
        if i < n {
            assert(rest[0] == l@[i as int]);
        }
        assert(trim_front(rest) == rest);
        if i + 3 <= n {
            assert(rest[0] == l@[i as int] && rest[1] == l@[i + 1] && rest[2] == l@[i + 2]);
        }
    }
    n - i >= 3 && v[i] == '`' && v[i + 1] == '`' && v[i + 2] == '`'
}


/// Whether `s` begins with `prefix`.
pub fn starts_with_str(s: &str, prefix: &str) -> (b: bool)
    ensures
        b == prefix@.is_prefix_of(s@),
{
    let sv = to_chars(s);
    let pv = to_chars(prefix);
    let m = pv.len();
    if m > sv.len() {
        return false;
    }
    let mut i: usize = 0;
    while i < m
        invariant
            i <= m,
            m == pv@.len(),
            m <= sv@.len(),
            sv@ == s@,
            pv@ == prefix@,
            forall|k: int| 0 <= k < i ==> sv@[k] == pv@[k],
        decreases m - i,
    {
        if sv[i] != pv[i] {
            assert(prefix@[i as int] != s@.subrange(0, m as int)[i as int]);
            return false;
        }
        i = i + 1;
    }
    assert(prefix@ =~= s@.subrange(0, m as int));
    true
}

/// Whether `c` occurs in `s`.
pub fn contains_char(s: &str, c: char) -> (b: bool)
    ensures
        b == s@.contains(c),
{
    let v = to_chars(s);
    let n = v.len();
    let mut i: usize = 0;
    while i < n
        invariant
            i <= n,
            n == v@.len(),
            v@ == s@,
            forall|k: int| 0 <= k < i ==> v@[k] != c,
        decreases n - i,
    {
        if v[i] == c {
            assert(s@[i as int] == c);
            return true;
        }
        i = i + 1;
    }
    false
}

/// `char::to_ascii_lowercase`.
pub open spec fn lower_char(c: char) -> char {
    if 65 <= c as u32 <= 90 {
        ((c as u32) + 32) as char
    } else {
        c
    }
}

/// `str::to_ascii_lowercase`: ASCII capitals lowered, all else kept.
pub open spec fn ascii_lower(s: Seq<char>) -> Seq<char> {
    s.map_values(|c: char| lower_char(c))
}

/// `str::to_ascii_lowercase`.
pub fn to_ascii_lower(s: &str) -> (r: String)
    ensures
        r@ == ascii_lower(s@),
{
    let v = to_chars(s);
    let n = v.len();
    let mut r = String::new();
    let mut i: usize = 0;
    while i < n
        invariant
            i <= n,
            n == v@.len(),
            v@ == s@,
            r@ == ascii_lower(s@.take(i as int)),
        decreases n - i,
    {
        let c = v[i];
        let u = c as u32;
        let l = if 65 <= u && u <= 90 {
            (((u - 65) as u8) + 97) as char
        } else {
            c
        };
        push_char(&mut r, l);
        assert(ascii_lower(s@.take(i + 1)) =~= ascii_lower(s@.take(i as int)).push(lower_char(c)));
        i = i + 1;
    }
    assert(s@.take(n as int) =~= s@);
    r
}

/// Whether `p` occurs in `s` as a run of consecutive characters.
pub open spec fn contains_seq(s: Seq<char>, p: Seq<char>) -> bool {
    exists|i: int| 0 <= i && i + p.len() <= s.len() && #[trigger] s.subrange(i, i + p.len()) == p
}

/// `str::contains` with a string pattern (see `contains_seq`).
pub fn contains_str(s: &str, p: &str) -> (b: bool)
    ensures
        b == contains_seq(s@, p@),
{
    let v = to_chars(s);
    let w = to_chars(p);
    let n = v.len();
    let m = w.len();
    if m > n {
        proof {
            assert forall|i: int| 0 <= i && i + p@.len() <= s@.len() implies #[trigger] s@.subrange(
                i,
                i + p@.len(),
            ) != p@ by {}
        }
        return false;
    }
    let mut i: usize = 0;
    while i <= n - m
        invariant
            m <= n,
            n == v@.len(),
            m == w@.len(),
            v@ == s@,
            w@ == p@,
            i <= n - m + 1,
            forall|j: int| 0 <= j < i ==> #[trigger] s@.subrange(j, j + m) != p@,
        decreases n - i,
    {
        let mut k: usize = 0;
        let mut same = true;
        while k < m
            invariant
                k <= m,
                i + m <= n,
                n == v@.len(),
                m == w@.len(),
                same <==> forall|q: int| 0 <= q < k ==> v@[i + q] == w@[q],
            decreases m - k,
        {
            if v[i + k] != w[k] {
                same = false;
            }
            k = k + 1;
        }
        if same {
            assert(s@.subrange(i as int, i + m) =~= p@);
            return true;
        }
        proof {
            let q = choose|q: int| 0 <= q < m && v@[i + q] != w@[q];
            assert(s@.subrange(i as int, i + m)[q] != p@[q]);
        }
        i = i + 1;
    }
    false
}

/// An ASCII decimal digit.
pub open spec fn is_digit(c: char) -> bool {
    48 <= c as u32 <= 57
}

/// The number written by a run of decimal digits.
pub open spec fn digits_value(s: Seq<char>) -> nat
    decreases s.len(),
{
    if s.len() == 0 {
        0
    } else {
        digits_value(s.drop_last()) * 10 + (((s.last() as u32) as int - 48) as nat)
    }
}

/// The text after an optional leading `+`.
pub open spec fn unsigned_digits(s: Seq<char>) -> Seq<char> {
    if s.len() > 0 && s[0] == '+' {
        s.drop_first()
    } else {
        s
    }
}

/// Every character is a decimal digit.
pub open spec fn all_digits(d: Seq<char>) -> bool {
    forall|i: int| 0 <= i < d.len() ==> is_digit(#[trigger] d[i])
}

/// `u64::from_str`: an optional `+`, then one or more decimal digits whose
/// value fits in 64 bits.
pub open spec fn parse_u64_spec(s: Seq<char>) -> Option<u64> {
    let d = unsigned_digits(s);
    if d.len() > 0 && all_digits(d) && digits_value(d) <= u64::MAX {
        Some(digits_value(d) as u64)
    } else {
        None
    }
}

proof fn lemma_digits_value_grows(s: Seq<char>, i: int)
    requires
        0 <= i <= s.len(),
        forall|k: int| 0 <= k < s.len() ==> is_digit(#[trigger] s[k]),
    ensures
        digits_value(s.take(i)) <= digits_value(s),
    decreases s.len() - i,
{
    if i < s.len() {
        lemma_digits_value_grows(s.drop_last(), i);
        assert(s.drop_last().take(i) =~= s.take(i));
    } else {
        assert(s.take(i) =~= s);
    }
}

/// `u64::from_str` (see `parse_u64_spec`).
pub fn parse_u64(s: &str) -> (r: Option<u64>)
    ensures
        r == parse_u64_spec(s@),
{
    let v = to_chars(s);
    let n = v.len();
    let start: usize = if n > 0 && v[0] == '+' {
        1
    } else {
        0
    };
    let ghost d = unsigned_digits(s@);
    assert(d =~= s@.skip(start as int));
    if start >= n {
        return None;
    }
    let mut value: u64 = 0;
    let mut i: usize = start;
    while i < n
        invariant
            start <= i <= n,
            start < n,
            n == v@.len(),
            v@ == s@,
            d =~= s@.skip(start as int),
            d == unsigned_digits(s@),
            forall|k: int| 0 <= k < i - start ==> is_digit(#[trigger] d[k]),
            value as nat == digits_value(d.take(i - start)),
        decreases n - i,
    {
        let c = v[i];
        assert(d[i - start] == c);
        let u = c as u32;
        if !(48 <= u && u <= 57) {
            assert(!is_digit(d[i - start]));
            assert(!all_digits(d));
            return None;
        }
        let digit_value = (u - 48) as u64;
        assert(d.take(i + 1 - start).drop_last() =~= d.take(i - start));
        assert(d.take(i + 1 - start).last() == c);
        if value > (u64::MAX - digit_value) / 10 {
            proof {
                assert(digits_value(d.take(i + 1 - start)) == value * 10 + digit_value);
                assert(value * 10 + digit_value > u64::MAX) by (nonlinear_arith)
                    requires
                        value > (u64::MAX - digit_value) / 10,
                        digit_value <= 9,
                ;
                if all_digits(d) {
                    lemma_digits_value_grows(d, i + 1 - start);
                }
            }
            return None;
        }
        assert(value * 10 + digit_value <= u64::MAX) by (nonlinear_arith)
            requires
                value <= (u64::MAX - digit_value) / 10,
                digit_value <= 9,
        ;
        value = value * 10 + digit_value;
        i = i + 1;
    }
    assert(d.take(n - start) =~= d);
    Some(value)
}


/// Position of the first `c` (the length when there is none).
pub open spec fn char_pos(s: Seq<char>, c: char) -> nat
    decreases s.len(),
{
    if s.len() == 0 || s[0] == c {
        0
    } else {
        1 + char_pos(s.drop_first(), c)
    }
}

proof fn lemma_char_pos_at(s: Seq<char>, c: char, k: int)
    requires
        0 <= k <= s.len(),
        forall|j: int| 0 <= j < k ==> #[trigger] s[j] != c,
        k == s.len() || s[k] == c,
    ensures
        char_pos(s, c) == k,
    decreases k,
{
    if k > 0 {
        assert forall|j: int| 0 <= j < k - 1 implies #[trigger] s.drop_first()[j] != c by {
            assert(s.drop_first()[j] == s[j + 1]);
        }
        lemma_char_pos_at(s.drop_first(), c, k - 1);
    }
}

/// `str::split(c)`: the pieces between occurrences of `c`; there is always
/// one more piece than separators, empty pieces included.
pub open spec fn split_on(s: Seq<char>, c: char) -> Seq<Seq<char>>
    decreases s.len(),
{
    let k = char_pos(s, c);
    if k >= s.len() {
        seq![s]
    } else {
        seq![s.take(k as int)] + split_on(s.skip(k + 1 as int), c)
    }
}

/// `str::split(c)`, each piece as an owned `String`.
pub fn split_on_char(text: &str, c: char) -> (r: Vec<String>)
    ensures
        strings_view(r@) == split_on(text@, c),
{
    let v = to_chars(text);
    let n = v.len();
    let ghost s = text@;
    let mut r: Vec<String> = Vec::new();
    let mut st: usize = 0;
    let mut i: usize = 0;
    assert(s.skip(0) =~= s);
    assert(strings_view(r@) + split_on(s.skip(0), c) =~= split_on(s, c));
    while i < n
        invariant
            st <= i <= n,
            n == s.len(),
            v@ == s,
            strings_view(r@) + split_on(s.skip(st as int), c) == split_on(s, c),
            forall|j: int| st <= j < i ==> #[trigger] s[j] != c,
        decreases n - i,
    {
        if v[i] == c {
            let piece = string_from_range(&v, st, i);
            proof {
                let rest = s.skip(st as int);
                let k = (i - st) as int;
                assert forall|j: int| 0 <= j < k implies #[trigger] rest[j] != c by {
                    assert(rest[j] == s[st + j]);
                }
                assert(rest[k] == s[i as int]);
                lemma_char_pos_at(rest, c, k);
                assert(rest.take(k) =~= s.subrange(st as int, i as int));
                assert(rest.skip(k + 1) =~= s.skip(i + 1));
                assert(strings_view(r@.push(piece)) =~= strings_view(r@).push(piece@));
                assert(strings_view(r@).push(piece@) + split_on(s.skip(i + 1), c) =~= strings_view(
                    r@,
                ) + split_on(rest, c));
            }
            r.push(piece);
            st = i + 1;
        }
        i = i + 1;
    }
    let piece = string_from_range(&v, st, n);
    proof {
        let rest = s.skip(st as int);
        let k = (n - st) as int;
        assert forall|j: int| 0 <= j < k implies #[trigger] rest[j] != c by {
            assert(rest[j] == s[st + j]);
        }
        lemma_char_pos_at(rest, c, k);
        assert(rest =~= s.subrange(st as int, n as int));
        assert(strings_view(r@.push(piece)) =~= strings_view(r@).push(piece@));
        assert(strings_view(r@).push(piece@) =~= strings_view(r@) + split_on(rest, c));
    }
    r.push(piece);
    r
}

/// `str::split_whitespace`: the maximal runs of non-whitespace characters.
pub open spec fn words(s: Seq<char>) -> Seq<Seq<char>>
    decreases s.len(),
{
    let t = trim_front(s);
    if t.len() == 0 {
        Seq::empty()
    } else {
        proof {
            lemma_trim_front_shape(s);
        }
        let k = run_len(t);
        if 0 < k <= t.len() {
            seq![t.take(k as int)] + words(t.skip(k as int))
        } else {
            Seq::empty()
        }
    }
}

/// Number of leading non-whitespace characters.
pub open spec fn run_len(s: Seq<char>) -> nat
    decreases s.len(),
{
    if s.len() == 0 || is_ws(s[0]) {
        0
    } else {
        1 + run_len(s.drop_first())
    }
}

proof fn lemma_run_len_at(s: Seq<char>, k: int)
    requires
        0 <= k <= s.len(),
        forall|j: int| 0 <= j < k ==> !is_ws(#[trigger] s[j]),
        k == s.len() || is_ws(s[k]),
    ensures
        run_len(s) == k,
    decreases k,
{
    if k > 0 {
        assert forall|j: int| 0 <= j < k - 1 implies !is_ws(#[trigger] s.drop_first()[j]) by {
            assert(s.drop_first()[j] == s[j + 1]);
        }
        lemma_run_len_at(s.drop_first(), k - 1);
    }
}

/// `str::split_whitespace`, each word as an owned `String`.
pub fn split_words(text: &str) -> (r: Vec<String>)
    ensures
        strings_view(r@) == words(text@),
{
    let v = to_chars(text);
    let n = v.len();
    let ghost s = text@;
    let mut r: Vec<String> = Vec::new();
    let mut i: usize = 0;
    assert(s.skip(0) =~= s);
    assert(strings_view(r@) + words(s.skip(0)) =~= words(s));
    while i < n
        invariant
            i <= n,
            n == s.len(),
            v@ == s,
            strings_view(r@) + words(s.skip(i as int)) == words(s),
        decreases n - i,
    {
        let mut j: usize = i;
        while j < n && is_whitespace(v[j])
            invariant
                i <= j <= n,
                n == s.len(),
                v@ == s,
                forall|k: int| i <= k < j ==> is_ws(#[trigger] s[k]),
            decreases n - j,
        {
            j = j + 1;
        }
        proof {
            let rest = s.skip(i as int);
            assert forall|k: int| 0 <= k < j - i implies is_ws(#[trigger] rest[k]) by {
                assert(rest[k] == s[i + k]);
            }
            lemma_trim_front_skip(rest, j - i);
            assert(rest.subrange(j - i, rest.len() as int) =~= s.skip(j as int));
        }
        if j == n {
            proof {
                assert(s.skip(j as int).len() == 0);
                assert(trim_front(s.skip(i as int)).len() == 0);
                assert(words(s.skip(i as int)) =~= Seq::<Seq<char>>::empty());
                assert(strings_view(r@) + words(s.skip(n as int)) =~= strings_view(r@));
            }
            i = n;
        } else {
            let mut k: usize = j;
            while k < n && !is_whitespace(v[k])
                invariant
                    j <= k <= n,
                    n == s.len(),
                    v@ == s,
                    forall|m: int| j <= m < k ==> !is_ws(#[trigger] s[m]),
                decreases n - k,
            {
                k = k + 1;
            }
            let word = string_from_range(&v, j, k);
            proof {
                let rest = s.skip(i as int);
                let t = s.skip(j as int);
                assert(trim_front(rest) == trim_front(t));
                assert(t[0] == s[j as int]);
                assert(trim_front(t) == t);
                assert forall|m: int| 0 <= m < k - j implies !is_ws(#[trigger] t[m]) by {
                    assert(t[m] == s[j + m]);
                }
                if k < n {
                    assert(t[k - j] == s[k as int]);
                }
                lemma_run_len_at(t, k - j);
                assert(t.take(k - j) =~= s.subrange(j as int, k as int));
                assert(t.skip(k - j) =~= s.skip(k as int));
                assert(words(rest) == seq![t.take(k - j)] + words(t.skip(k - j)));
                assert(strings_view(r@.push(word)) =~= strings_view(r@).push(word@));
                assert(strings_view(r@).push(word@) + words(s.skip(k as int)) =~= strings_view(r@)
                    + words(rest));
            }
            r.push(word);
            i = k;
        }
    }
    r
}

} // verus!
