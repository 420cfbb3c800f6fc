//! Classification of captured clipboard text into a semantic category:
//! a hex color, a file path, a link, or plain text.

use vstd::prelude::*;
use vstd::string::StrSliceExecFns;
use crate::models::push_char;

verus! {

/// The result of classifying one clipboard text payload.
pub struct TextClassification {
    pub format: String,
    pub category: String,
    pub color: Option<String>,
    pub file_path: Option<String>,
}

/// Whether `c` has the Unicode `White_Space` property, the set that
/// `str::trim` removes: the ASCII whitespace controls and space, next
/// line, no-break space, ogham space mark, the typographic spaces, the
/// line and paragraph separators, and the narrow, mathematical and
/// ideographic spaces.
pub open spec fn is_whitespace_char(c: char) -> bool {
    let u = c as u32;
    (9 <= u && u <= 13) || u == 32 || u == 133 || u == 160 || u == 5760 || (8192 <= u && u
        <= 8202) || u == 8232 || u == 8233 || u == 8239 || u == 8287 || u == 12288
}

fn char_is_whitespace(c: char) -> (r: bool)
    ensures
        r == is_whitespace_char(c),
{
    let u = c as u32;
    (9 <= u && u <= 13) || u == 32 || u == 133 || u == 160 || u == 5760 || (8192 <= u && u
        <= 8202) || u == 8232 || u == 8233 || u == 8239 || u == 8287 || u == 12288
}

/// Length of the longest whitespace-only prefix of `s`.
pub open spec fn ws_prefix_len(s: Seq<char>) -> nat
    decreases s.len(),
{
    if s.len() == 0 || !is_whitespace_char(s[0]) {
        0
    } else {
        1 + ws_prefix_len(s.drop_first())
    }
}

/// Length of the longest whitespace-only suffix of `s`.
pub open spec fn ws_suffix_len(s: Seq<char>) -> nat
    decreases s.len(),
{
    if s.len() == 0 || !is_whitespace_char(s.last()) {
        0
    } else {
        1 + ws_suffix_len(s.drop_last())
    }
}

/// `s` with leading and trailing whitespace removed, as `str::trim` does.
pub open spec fn trim_spec(s: Seq<char>) -> Seq<char> {
    if ws_prefix_len(s) == s.len() {
        Seq::empty()
    } else {
        s.subrange(ws_prefix_len(s) as int, s.len() - ws_suffix_len(s))
    }
}

proof fn lemma_ws_prefix_len(s: Seq<char>, i: int)
    requires
        0 <= i <= s.len(),
        forall|k: int| 0 <= k < i ==> is_whitespace_char(s[k]),
        i == s.len() || !is_whitespace_char(s[i]),
    ensures
        ws_prefix_len(s) == i,
    decreases s.len(),
{
    if i == 0 {
    } else {
        assert(is_whitespace_char(s[0]));
        let t = s.drop_first();
        assert(forall|k: int| 0 <= k < i - 1 ==> s[k + 1] == t[k] && is_whitespace_char(t[k]));
        lemma_ws_prefix_len(t, i - 1);
    }
}

proof fn lemma_ws_suffix_len(s: Seq<char>, j: int)
    requires
        0 <= j <= s.len(),
        forall|k: int| s.len() - j <= k < s.len() ==> is_whitespace_char(s[k]),
        j == s.len() || !is_whitespace_char(s[s.len() - j - 1]),
    ensures
        ws_suffix_len(s) == j,
    decreases s.len(),
{
    if j == 0 {
    } else {
        assert(is_whitespace_char(s.last()));
        let t = s.drop_last();
        assert(forall|k: int| t.len() - (j - 1) <= k < t.len() ==> t[k] == s[k]
            && is_whitespace_char(t[k]));
        lemma_ws_suffix_len(t, j - 1);
    }
}

/// `s` with leading and trailing whitespace removed.
pub fn trim_str(s: &str) -> (t: &str)
    ensures
        t@ == trim_spec(s@),
{
    let n: usize = s.unicode_len();
    let mut i: usize = 0;
    while i < n && char_is_whitespace(s.get_char(i))
        invariant
            0 <= i <= n,
            n == s@.len(),
            forall|k: int| 0 <= k < i ==> is_whitespace_char(s@[k]),
        decreases n - i,
    {
        i = i + 1;
    }
    proof {
        lemma_ws_prefix_len(s@, i as int);
    }
    if i == n {
        let t = s.substring_char(n, n);
        assert(t@ =~= trim_spec(s@));
        return t;
    }
    let mut j: usize = n;
    while j > i + 1 && char_is_whitespace(s.get_char(j - 1))
        invariant
            i < j <= n,
            n == s@.len(),
            !is_whitespace_char(s@[i as int]),
            forall|k: int| j <= k < n ==> is_whitespace_char(s@[k]),
        decreases j,
    {
        j = j - 1;
    }
    proof {
        if j == i + 1 && is_whitespace_char(s@[j - 1]) {
            assert(false);
        }
        lemma_ws_suffix_len(s@, n - j);
    }
    let t = s.substring_char(i, j);
    assert(t@ =~= trim_spec(s@));
    t
}

/// What is left of `s` from position `i` on after dropping everything
/// between `<` and `>` (the tag markers themselves included), starting in
/// state `in_tag`.
pub open spec fn strip_html_rec(s: Seq<char>, i: int, in_tag: bool) -> Seq<char>
    decreases s.len() - i,
{
    if i < 0 || i >= s.len() {
        Seq::empty()
    } else if s[i] == '<' {
        strip_html_rec(s, i + 1, true)
    } else if s[i] == '>' {
        strip_html_rec(s, i + 1, false)
    } else if !in_tag {
        seq![s[i]] + strip_html_rec(s, i + 1, in_tag)
    } else {
        strip_html_rec(s, i + 1, in_tag)
    }
}

/// `s` with every `<`...`>` tag removed.
pub open spec fn strip_html_spec(s: Seq<char>) -> Seq<char> {
    strip_html_rec(s, 0, false)
}

/// Remove every `<`...`>` tag from `input`, keeping the text between tags.
pub fn strip_html(input: &str) -> (out: String)
    ensures
        out@ == strip_html_spec(input@),
{
    let n: usize = input.unicode_len();
    let mut out = String::new();
    let mut in_tag = false;
    let mut i: usize = 0;
    while i < n
        invariant
            0 <= i <= n,
            n == input@.len(),
            out@ + strip_html_rec(input@, i as int, in_tag) == strip_html_spec(input@),
        decreases n - i,
    {
        let c = input.get_char(i);
        if c == '<' {
            in_tag = true;
        } else if c == '>' {
            in_tag = false;
        } else if !in_tag {
            let ghost prev = out@;
            push_char(&mut out, c);
            proof {
                assert(out@ + strip_html_rec(input@, i + 1, in_tag) =~= prev + (seq![c]
                    + strip_html_rec(input@, i + 1, in_tag)));
            }
        }
        i = i + 1;
    }
    proof {
        assert(out@ + strip_html_rec(input@, n as int, in_tag) =~= out@);
    }
    out
}

/// Whether `c` is an ASCII hexadecimal digit (`0-9`, `a-f`, `A-F`).
pub open spec fn is_hex_digit(c: char) -> bool {
    let u = c as u32;
    (48 <= u && u <= 57) || (97 <= u && u <= 102) || (65 <= u && u <= 70)
}

/// The hex part of a color may have 3, 4, 6 or 8 digits.
pub open spec fn hex_len_ok(n: int) -> bool {
    n == 3 || n == 4 || n == 6 || n == 8
}

/// A trimmed text is a color when it starts with `#` and the rest is
/// 3, 4, 6 or 8 hexadecimal digits.
pub open spec fn is_color_spec(s: Seq<char>) -> bool {
    &&& s.len() > 0
    &&& s[0] == '#'
    &&& hex_len_ok(s.len() - 1)
    &&& forall|k: int| 1 <= k < s.len() ==> is_hex_digit(#[trigger] s[k])
}

/// A trimmed text is a file path when it starts with a double backslash
/// (UNC path), or its second character is `:` and its third `\` or `/`
/// (drive-letter path), or it starts with `/`.
pub open spec fn is_file_path_spec(s: Seq<char>) -> bool {
    ||| s.len() >= 2 && s[0] == '\\' && s[1] == '\\'
    ||| s.len() >= 3 && s[1] == ':' && (s[2] == '\\' || s[2] == '/')
    ||| s.len() >= 1 && s[0] == '/'
}

/// Case-insensitive match of `a` against a lower-case ASCII pattern
/// character `b`.
pub open spec fn eq_ci(a: char, b: char) -> bool {
    a == b || (65 <= a as u32 && a as u32 <= 90 && a as u32 + 32 == b as u32)
}

/// `s` starts, case-insensitively, with the lower-case ASCII pattern `p`.
pub open spec fn prefix_ci(s: Seq<char>, p: Seq<char>) -> bool {
    s.len() >= p.len() && forall|k: int| 0 <= k < p.len() ==> eq_ci(#[trigger] s[k], p[k])
}

/// The scheme prefix `http://`.
pub open spec fn http_prefix() -> Seq<char> {
    seq!['h', 't', 't', 'p', ':', '/', '/']
}

/// The scheme prefix `https://`.
pub open spec fn https_prefix() -> Seq<char> {
    seq!['h', 't', 't', 'p', 's', ':', '/', '/']
}

/// A text is a link when its lower-cased form starts with `http://` or
/// `https://`.
pub open spec fn is_url_spec(s: Seq<char>) -> bool {
    prefix_ci(s, http_prefix()) || prefix_ci(s, https_prefix())
}

/// The model of a classification: each text field as a character sequence.
pub ghost struct ClassificationModel {
    pub format: Seq<char>,
    pub category: Seq<char>,
    pub color: Option<Seq<char>>,
    pub file_path: Option<Seq<char>>,
}

impl View for TextClassification {
    type V = ClassificationModel;

    open spec fn view(&self) -> ClassificationModel {
        ClassificationModel {
            format: self.format@,
            category: self.category@,
            color: match self.color {
                Some(c) => Some(c@),
                None => None,
            },
            file_path: match self.file_path {
                Some(p) => Some(p@),
                None => None,
            },
        }
    }
}

/// What classifying the trimmed text `t` yields: the first matching
/// heuristic wins, in the order color, file path, link, plain text.
pub open spec fn classify_spec(t: Seq<char>) -> ClassificationModel {
    if is_color_spec(t) {
        ClassificationModel {
            format: "color"@,
            category: "text"@,
            color: Some(t),
            file_path: None,
        }
    } else if is_file_path_spec(t) {
        ClassificationModel {
            format: "file"@,
            category: "file"@,
            color: None,
            file_path: Some(t),
        }
    } else if is_url_spec(t) {
        ClassificationModel { format: "text"@, category: "link"@, color: None, file_path: None }
    } else {
        ClassificationModel { format: "text"@, category: "text"@, color: None, file_path: None }
    }
}

fn hex_digit_char(c: char) -> (r: bool)
    ensures
        r == is_hex_digit(c),
{
    let u = c as u32;
    (48 <= u && u <= 57) || (97 <= u && u <= 102) || (65 <= u && u <= 70)
}

fn char_eq_ci(a: char, b: char) -> (r: bool)
    ensures
        r == eq_ci(a, b),
{
    a == b || (65 <= a as u32 && a as u32 <= 90 && a as u32 + 32 == b as u32)
}

/// When the trimmed text is a color, the trimmed text itself; `None`
/// otherwise.
pub fn detect_color(text: &str) -> (r: Option<String>)
    ensures
        r is Some <==> is_color_spec(trim_spec(text@)),
        r is Some ==> r->0@ == trim_spec(text@),
{
    let trimmed = trim_str(text);
    let n: usize = trimmed.unicode_len();
    if n == 0 || trimmed.get_char(0) != '#' {
        return None;
    }
    let hex_len: usize = n - 1;
    if !(hex_len == 3 || hex_len == 4 || hex_len == 6 || hex_len == 8) {
        return None;
    }
    let mut i: usize = 1;
    while i < n
        invariant
            1 <= i <= n,
            n == trimmed@.len(),
            trimmed@ == trim_spec(text@),
            forall|k: int| 1 <= k < i ==> is_hex_digit(#[trigger] trimmed@[k]),
        decreases n - i,
    {
        if !hex_digit_char(trimmed.get_char(i)) {
            return None;
        }
        i = i + 1;
    }
    Some(trimmed.to_owned())
}

/// Whether the trimmed text looks like a file path.
pub fn looks_like_file_path(text: &str) -> (r: bool)
    ensures
        r == is_file_path_spec(trim_spec(text@)),
{
    let trimmed = trim_str(text);
    let n: usize = trimmed.unicode_len();
    if n >= 2 && trimmed.get_char(0) == '\\' && trimmed.get_char(1) == '\\' {
        return true;
    }
    if n >= 3 && trimmed.get_char(1) == ':' && (trimmed.get_char(2) == '\\' || trimmed.get_char(
        2,
    ) == '/') {
        return true;
    }
    n >= 1 && trimmed.get_char(0) == '/'
}

/// Whether `text` (not trimmed here) starts with `http://` or `https://`,
/// ignoring ASCII case.
pub fn looks_like_url(text: &str) -> (r: bool)
    ensures
        r == is_url_spec(text@),
{
    let n: usize = text.unicode_len();
    if n >= 7 && char_eq_ci(text.get_char(0), 'h') && char_eq_ci(text.get_char(1), 't')
        && char_eq_ci(text.get_char(2), 't') && char_eq_ci(text.get_char(3), 'p') {
        if char_eq_ci(text.get_char(4), ':') && char_eq_ci(text.get_char(5), '/') && char_eq_ci(
            text.get_char(6),
            '/',
        ) {
            assert(prefix_ci(text@, http_prefix()));
            return true;
        }
        if n >= 8 && char_eq_ci(text.get_char(4), 's') && char_eq_ci(text.get_char(5), ':')
            && char_eq_ci(text.get_char(6), '/') && char_eq_ci(text.get_char(7), '/') {
            assert(prefix_ci(text@, https_prefix()));
            return true;
        }
    }
    assert(!prefix_ci(text@, http_prefix()) && !prefix_ci(text@, https_prefix()));
    false
}

/// Classification is total and deterministic: it is defined for every
/// trimmed input, and equal inputs classify alike.
pub proof fn lemma_classify_deterministic(a: Seq<char>, b: Seq<char>)
    requires
        a == b,
    ensures
        classify_spec(a) == classify_spec(b),
{
}

/// No text looks like both a color and a file path: a color starts with
/// `#`, and its second character is a hexadecimal digit, never `:`.
pub proof fn lemma_color_path_disjoint(t: Seq<char>)
    ensures
        !(is_color_spec(t) && is_file_path_spec(t)),
{
    if is_color_spec(t) && is_file_path_spec(t) {
        if t.len() >= 2 && t[0] == '\\' && t[1] == '\\' {
            assert(false);
        } else if t.len() >= 3 && t[1] == ':' && (t[2] == '\\' || t[2] == '/') {
            assert(is_hex_digit(t[1]));
            assert(false);
        } else {
            assert(t[0] == '/');
            assert(false);
        }
    }
}

/// Path detection precedes link detection: a trimmed text that looks
/// like a file path is classified as a file, whether or not it also
/// starts with a URL scheme.
pub proof fn lemma_path_precedes_link(t: Seq<char>)
    requires
        is_file_path_spec(t),
    ensures
        classify_spec(t).format == "file"@,
        classify_spec(t).category == "file"@,
        classify_spec(t).file_path == Some(t),
{
    lemma_color_path_disjoint(t);
}

/// Classify a clipboard text payload. The text is trimmed first; the
/// heuristics apply in the order color, file path, link, plain text, and
/// the first match wins.
pub fn classify_text(input: &str) -> (c: TextClassification)
    ensures
        c@ == classify_spec(trim_spec(input@)),
{
    let trimmed = trim_str(input);
    if let Some(color) = detect_color(input) {
        return TextClassification {
            format: "color".to_owned(),
            category: "text".to_owned(),
            color: Some(color),
            file_path: None,
        };
    }
    if looks_like_file_path(input) {
        return TextClassification {
            format: "file".to_owned(),
            category: "file".to_owned(),
            color: None,
            file_path: Some(trimmed.to_owned()),
        };
    }
    let category: &str = if looks_like_url(trimmed) {
        "link"
    } else {
        "text"
    };
    TextClassification {
        format: "text".to_owned(),
        category: category.to_owned(),
        color: None,
        file_path: None,
    }
}

} // verus!
