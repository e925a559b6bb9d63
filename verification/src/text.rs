//! Character-level helpers over `str` and `String`, specified over `Seq<char>`.

use vstd::prelude::*;
use vstd::std_specs::iter::IteratorSpec;
use vstd::utf8::{decode_utf8, valid_utf8};

verus! {

broadcast use vstd::string::group_string_axioms;

/// Appends one character to a `String` (std's `String::push`).
#[verifier::external_body]
fn push_char(s: &mut String, c: char)
    ensures
        final(s)@ == old(s)@.push(c),
{
    s.push(c);
}

/// The characters of `s`, in order.
pub fn str_chars(s: &str) -> (v: Vec<char>)
    ensures
        v@ == s@,
{
    let mut v: Vec<char> = Vec::new();
    for c in it: s.chars()
        invariant
            v@ == it.seq().take(it.index() as int),
    {
        v.push(c);
    }
    v
}

/// A `String` holding exactly the given characters.
pub fn chars_to_string(v: &[char]) -> (s: String)
    ensures
        s@ == v@,
{
    let mut s = String::new();
    let mut i: usize = 0;
    while i < v.len()
        invariant
            i <= v@.len(),
            s@ == v@.take(i as int),
        decreases v@.len() - i,
    {
        push_char(&mut s, v[i]);
        assert(v@.take(i as int).push(v@[i as int]) == v@.take(i + 1));
        i = i + 1;
    }
    assert(v@.take(v@.len() as int) == v@);
    s
}


/// The characters of an optional string.
pub open spec fn opt_chars(o: Option<String>) -> Option<Seq<char>> {
    match o {
        Some(s) => Some(s@),
        None => None,
    }
}

/// The view of an optional string slice.
pub open spec fn opt_str(o: Option<&str>) -> Option<Seq<char>> {
    match o {
        Some(s) => Some(s@),
        None => None,
    }
}

/// Unicode `White_Space` (what `char::is_whitespace` tests).
pub open spec fn is_ws(c: char) -> bool {
    ||| ('\u{9}' <= c && c <= '\u{d}')
    ||| c == ' '
    ||| c == '\u{85}'
    ||| c == '\u{a0}'
    ||| c == '\u{1680}'
    ||| ('\u{2000}' <= c && c <= '\u{200a}')
    ||| c == '\u{2028}'
    ||| c == '\u{2029}'
    ||| c == '\u{202f}'
    ||| c == '\u{205f}'
    ||| c == '\u{3000}'
}

/// Whether every character is whitespace (so that trimming leaves nothing).
pub open spec fn all_ws(s: Seq<char>) -> bool {
    forall|i: int| 0 <= i < s.len() ==> #[trigger] is_ws(s[i])
}

/// ASCII letters and digits.
pub open spec fn is_ascii_alnum(c: char) -> bool {
    ('0' <= c && c <= '9') || ('a' <= c && c <= 'z') || ('A' <= c && c <= 'Z')
}

/// Whether `c` is Unicode whitespace.
pub fn is_whitespace(c: char) -> (r: bool)
    ensures
        r == is_ws(c),
{
    ('\u{9}' <= c && c <= '\u{d}') || c == ' ' || c == '\u{85}' || c == '\u{a0}' || c == '\u{1680}'
        || ('\u{2000}' <= c && c <= '\u{200a}') || c == '\u{2028}' || c == '\u{2029}' || c
        == '\u{202f}' || c == '\u{205f}' || c == '\u{3000}'
}

/// Whether `c` is an ASCII letter or digit.
pub fn is_ascii_alphanumeric(c: char) -> (r: bool)
    ensures
        r == is_ascii_alnum(c),
{
    ('0' <= c && c <= '9') || ('a' <= c && c <= 'z') || ('A' <= c && c <= 'Z')
}

/// Whether the text is empty once trimmed of whitespace (`s.trim().is_empty()`).
pub fn is_blank(s: &str) -> (r: bool)
    ensures
        r == all_ws(s@),
{
    let cs = str_chars(s);
    let mut i: usize = 0;
    while i < cs.len()
        invariant
            cs@ == s@,
            i <= cs@.len(),
            forall|j: int| 0 <= j < i ==> #[trigger] is_ws(cs@[j]),
        decreases cs@.len() - i,
    {
        if !is_whitespace(cs[i]) {
            return false;
        }
        i = i + 1;
    }
    true
}

/// `s` with every `"\r\n"` (left to right, without overlap) replaced by `"\n"`.
pub open spec fn normalize_newlines(s: Seq<char>) -> Seq<char>
    decreases s.len(),
{
    if s.len() == 0 {
        s
    } else if s.len() >= 2 && s[0] == '\r' && s[1] == '\n' {
        seq!['\n'] + normalize_newlines(s.skip(2))
    } else {
        seq![s[0]] + normalize_newlines(s.skip(1))
    }
}

/// `s` with every line feed written as a carriage return and a line feed, as a
/// Windows clipboard holds text.
pub open spec fn crlf(s: Seq<char>) -> Seq<char>
    decreases s.len(),
{
    if s.len() == 0 {
        s
    } else if s[0] == '\n' {
        seq!['\r', '\n'] + crlf(s.skip(1))
    } else {
        seq![s[0]] + crlf(s.skip(1))
    }
}

/// Text without carriage returns is normalised to itself, and so is the same text
/// with its line feeds written as CRLF: both ends hash the same text.
pub proof fn lemma_normalize_crlf(s: Seq<char>)
    requires
        !s.contains('\r'),
    ensures
        normalize_newlines(s) == s,
        normalize_newlines(crlf(s)) == s,
    decreases s.len(),
{
    if s.len() > 0 {
        let t = s.skip(1);
        assert(!t.contains('\r')) by {
            if t.contains('\r') {
                let k = choose|k: int| 0 <= k < t.len() && t[k] == '\r';
                assert(s[k + 1] == '\r');
            }
        }
        lemma_normalize_crlf(t);
        assert(s[0] != '\r') by {
            if s[0] == '\r' {
                assert(s.contains('\r'));
            }
        }
        assert(seq![s[0]] + t =~= s);
        if s[0] == '\n' {
            let c = crlf(s);
            assert(c == seq!['\r', '\n'] + crlf(t));
            assert(c.skip(2) =~= crlf(t));
            assert(normalize_newlines(c) == seq!['\n'] + normalize_newlines(c.skip(2)));
        } else {
            let c = crlf(s);
            assert(c == seq![s[0]] + crlf(t));
            assert(c.skip(1) =~= crlf(t));
            assert(normalize_newlines(c) == seq![s[0]] + normalize_newlines(c.skip(1)));
        }
    }
}

/// Replaces each `"\r\n"` in `text` with `"\n"`.
pub fn normalize_newlines_of(text: &str) -> (out: String)
    ensures
        out@ == normalize_newlines(text@),
{
    let cs = str_chars(text);
    let mut out: Vec<char> = Vec::new();
    let mut i: usize = 0;
    assert(cs@.skip(0) =~= cs@);
    while i < cs.len()
        invariant
            cs@ == text@,
            i <= cs@.len(),
            out@ + normalize_newlines(cs@.skip(i as int)) == normalize_newlines(text@),
        decreases cs@.len() - i,
    {
        let ghost rest = cs@.skip(i as int);
        if i + 1 < cs.len() && cs[i] == '\r' && cs[i + 1] == '\n' {
            out.push('\n');
            assert(rest.skip(2) =~= cs@.skip(i + 2));
            assert(out@ + normalize_newlines(cs@.skip(i + 2)) =~= (out@.drop_last() + (seq!['\n'] + normalize_newlines(rest.skip(2)))));
            i = i + 2;
        } else {
            out.push(cs[i]);
            assert(rest.skip(1) =~= cs@.skip(i + 1));
            assert(out@ + normalize_newlines(cs@.skip(i + 1)) =~= (out@.drop_last() + (seq![rest[0]] + normalize_newlines(rest.skip(1)))));
            i = i + 1;
        }
    }
    assert(cs@.skip(cs@.len() as int) =~= Seq::<char>::empty());
    assert(out@ + Seq::<char>::empty() =~= out@);
    chars_to_string(out.as_slice())
}

/// Text outside `<...>` tags: `<` opens a tag, `>` closes it, and characters
/// outside a tag are kept. Returns the kept text and whether a tag is open.
pub open spec fn tag_scan(s: Seq<char>) -> (Seq<char>, bool)
    decreases s.len(),
{
    if s.len() == 0 {
        (Seq::empty(), false)
    } else {
        let (o, in_tag) = tag_scan(s.drop_last());
        let c = s.last();
        if c == '<' {
            (o, true)
        } else if c == '>' {
            (o, false)
        } else if !in_tag {
            (o.push(c), in_tag)
        } else {
            (o, in_tag)
        }
    }
}

/// The whitespace-separated words of `s` joined by single spaces, with the
/// state "a gap is pending" after `s`.
pub open spec fn word_scan(s: Seq<char>) -> (Seq<char>, bool)
    decreases s.len(),
{
    if s.len() == 0 {
        (Seq::empty(), false)
    } else {
        let (o, gap) = word_scan(s.drop_last());
        let c = s.last();
        if is_ws(c) {
            (o, true)
        } else if gap && o.len() > 0 {
            (o.push(' ').push(c), false)
        } else {
            (o.push(c), false)
        }
    }
}

/// The words of `s` joined by single spaces (`split_whitespace` then `join(" ")`).
pub open spec fn collapse_whitespace(s: Seq<char>) -> Seq<char> {
    word_scan(s).0
}

/// Plain text of an HTML fragment: tags removed, whitespace runs collapsed to
/// single spaces, leading and trailing whitespace dropped.
pub open spec fn spec_strip_html(html: Seq<char>) -> Seq<char> {
    collapse_whitespace(tag_scan(html).0)
}

/// A crude HTML-to-text conversion, used for hashing and previews when the
/// clipboard has no plain-text version.
pub fn strip_html(html: &str) -> (out: String)
    ensures
        out@ == spec_strip_html(html@),
{
    let cs = str_chars(html);
    let mut kept: Vec<char> = Vec::new();
    let mut in_tag = false;
    let mut i: usize = 0;
    while i < cs.len()
        invariant
            cs@ == html@,
            i <= cs@.len(),
            tag_scan(cs@.take(i as int)) == (kept@, in_tag),
        decreases cs@.len() - i,
    {
        let c = cs[i];
        assert(cs@.take(i + 1).drop_last() =~= cs@.take(i as int));
        if c == '<' {
            in_tag = true;
        } else if c == '>' {
            in_tag = false;
        } else if !in_tag {
            kept.push(c);
        }
        i = i + 1;
    }
    assert(cs@.take(cs@.len() as int) =~= cs@);
    let mut out: Vec<char> = Vec::new();
    let mut gap = false;
    let mut j: usize = 0;
    while j < kept.len()
        invariant
            j <= kept@.len(),
            word_scan(kept@.take(j as int)) == (out@, gap),
            tag_scan(html@).0 == kept@,
        decreases kept@.len() - j,
    {
        let c = kept[j];
        assert(kept@.take(j + 1).drop_last() =~= kept@.take(j as int));
        if is_whitespace(c) {
            gap = true;
        } else {
            if gap && out.len() > 0 {
                out.push(' ');
            }
            out.push(c);
            gap = false;
        }
        j = j + 1;
    }
    assert(kept@.take(kept@.len() as int) =~= kept@);
    chars_to_string(out.as_slice())
}


/// Whether trimming removes `c`: a dash when `dash`, whitespace otherwise.
pub open spec fn strip_pred(c: char, dash: bool) -> bool {
    if dash {
        c == '-'
    } else {
        is_ws(c)
    }
}

/// `s` without its leading characters that `strip_pred` removes.
pub open spec fn trim_front(s: Seq<char>, dash: bool) -> Seq<char>
    decreases s.len(),
{
    if s.len() > 0 && strip_pred(s[0], dash) {
        trim_front(s.skip(1), dash)
    } else {
        s
    }
}

/// `s` without its trailing characters that `strip_pred` removes.
pub open spec fn trim_back(s: Seq<char>, dash: bool) -> Seq<char>
    decreases s.len(),
{
    if s.len() > 0 && strip_pred(s.last(), dash) {
        trim_back(s.drop_last(), dash)
    } else {
        s
    }
}

/// `s` trimmed at both ends (`trim()` for whitespace, `trim_matches('-')` for dashes).
pub open spec fn trim_both(s: Seq<char>, dash: bool) -> Seq<char> {
    trim_back(trim_front(s, dash), dash)
}

fn strips(c: char, dash: bool) -> (r: bool)
    ensures
        r == strip_pred(c, dash),
{
    if dash {
        c == '-'
    } else {
        is_whitespace(c)
    }
}

/// The position where the characters left after trimming the front start.
fn front_index(cs: &[char], dash: bool) -> (lo: usize)
    ensures
        lo <= cs@.len(),
        trim_front(cs@, dash) == cs@.skip(lo as int),
{
    let mut lo: usize = 0;
    assert(cs@.skip(0) =~= cs@);
    while lo < cs.len() && strips(cs[lo], dash)
        invariant
            lo <= cs@.len(),
            trim_front(cs@, dash) == trim_front(cs@.skip(lo as int), dash),
        decreases cs@.len() - lo,
    {
        assert(cs@.skip(lo as int).skip(1) =~= cs@.skip(lo + 1));
        lo = lo + 1;
    }
    lo
}

/// `cs` trimmed at the front.
pub fn trim_front_chars(cs: &[char], dash: bool) -> (r: Vec<char>)
    ensures
        r@ == trim_front(cs@, dash),
{
    let lo = front_index(cs, dash);
    let mut r: Vec<char> = Vec::new();
    let mut i = lo;
    while i < cs.len()
        invariant
            lo <= i <= cs@.len(),
            r@ == cs@.subrange(lo as int, i as int),
        decreases cs@.len() - i,
    {
        r.push(cs[i]);
        assert(r@ =~= cs@.subrange(lo as int, i + 1));
        i = i + 1;
    }
    assert(cs@.subrange(lo as int, cs@.len() as int) =~= cs@.skip(lo as int));
    r
}

/// `cs` trimmed at both ends.
pub fn trim_chars(cs: &[char], dash: bool) -> (r: Vec<char>)
    ensures
        r@ == trim_both(cs@, dash),
{
    let mut t = trim_front_chars(cs, dash);
    let ghost front = t@;
    while t.len() > 0 && strips(t[t.len() - 1], dash)
        invariant
            trim_back(front, dash) == trim_back(t@, dash),
        decreases t@.len(),
    {
        let ghost before = t@;
        t.pop();
        assert(t@ =~= before.drop_last());
    }
    t
}

/// `s.trim()`: `s` without leading and trailing whitespace.
pub fn trim_str(s: &str) -> (r: String)
    ensures
        r@ == trim_both(s@, false),
{
    let cs = str_chars(s);
    let t = trim_chars(cs.as_slice(), false);
    chars_to_string(t.as_slice())
}

/// Trimming leaves nothing exactly when every character is whitespace.
pub proof fn lemma_trim_empty_iff_blank(s: Seq<char>)
    ensures
        (trim_both(s, false).len() == 0) <==> all_ws(s),
    decreases s.len(),
{
    if s.len() > 0 && is_ws(s[0]) {
        lemma_trim_empty_iff_blank(s.skip(1));
        assert forall|i: int| 0 <= i < s.len() && all_ws(s.skip(1)) implies #[trigger] is_ws(s[i]) by {
            if i > 0 {
                assert(s[i] == s.skip(1)[i - 1]);
            }
        }
        assert(all_ws(s) ==> all_ws(s.skip(1))) by {
            if all_ws(s) {
                assert forall|i: int| 0 <= i < s.skip(1).len() implies #[trigger] is_ws(s.skip(1)[i]) by {
                    assert(s.skip(1)[i] == s[i + 1]);
                }
            }
        }
    } else if s.len() > 0 {
        assert(trim_front(s, false) == s);
        lemma_trim_back_keeps_first(s);
    }
}

proof fn lemma_trim_back_keeps_first(s: Seq<char>)
    requires
        s.len() > 0,
        !is_ws(s[0]),
    ensures
        trim_back(s, false).len() > 0,
    decreases s.len(),
{
    if is_ws(s.last()) {
        assert(s.len() > 1);
        lemma_trim_back_keeps_first(s.drop_last());
    }
}

/// The decimal digits of `n`, without leading zeros.
pub open spec fn decimal(n: nat) -> Seq<char>
    decreases n,
{
    if n < 10 {
        seq![(48 + n) as char]
    } else {
        decimal(n / 10).push((48 + n % 10) as char)
    }
}

/// Appends the decimal digits of `n`.
pub fn push_decimal(out: &mut Vec<char>, n: u32)
    ensures
        final(out)@ == old(out)@ + decimal(n as nat),
    decreases n,
{
    if n >= 10 {
        push_decimal(out, n / 10);
    }
    let d = ((48 + n % 10) as u8) as char;
    out.push(d);
    assert(out@ =~= old(out)@ + decimal(n as nat)) by {
        if n >= 10 {
            assert(decimal(n as nat) == decimal((n / 10) as nat).push((48 + n % 10) as char));
        }
    }
}

/// ASCII lower case of a character (other characters unchanged).
pub open spec fn ascii_lower(c: char) -> char {
    if 'A' <= c && c <= 'Z' {
        ((c as u32) + 32) as char
    } else {
        c
    }
}

/// `c.to_ascii_lowercase()`.
pub fn to_ascii_lowercase(c: char) -> (r: char)
    ensures
        r == ascii_lower(c),
{
    if 'A' <= c && c <= 'Z' {
        (((c as u32) + 32) as u8) as char
    } else {
        c
    }
}


/// What `String::from_utf8_lossy` gives for bytes that are not valid UTF-8 (each
/// invalid sequence replaced by U+FFFD).
pub uninterp spec fn spec_utf8_lossy(bytes: Seq<u8>) -> Seq<char>;

/// `String::from_utf8`: the text when the bytes are valid UTF-8.
#[verifier::external_body]
pub(crate) fn utf8_string(bytes: Vec<u8>) -> (r: Option<String>)
    ensures
        r matches Some(s) ==> valid_utf8(bytes@) && s@ == decode_utf8(bytes@),
        r is None ==> !valid_utf8(bytes@),
{
    String::from_utf8(bytes).ok()
}

/// `String::from_utf8_lossy`: valid UTF-8 decoded as is; otherwise each invalid
/// sequence becomes U+FFFD (that replacement is not spelled out here).
#[verifier::external_body]
pub(crate) fn utf8_lossy(bytes: &[u8]) -> (s: String)
    ensures
        s@ == spec_utf8_lossy(bytes@),
        valid_utf8(bytes@) ==> s@ == decode_utf8(bytes@),
{
    String::from_utf8_lossy(bytes).into_owned()
}

/// Whether `s` starts with `prefix`.
pub fn starts_with(s: &[char], prefix: &str) -> (r: bool)
    ensures
        r == (prefix@.len() <= s@.len() && s@.take(prefix@.len() as int) == prefix@),
{
    let p = str_chars(prefix);
    if p.len() > s.len() {
        return false;
    }
    let mut i: usize = 0;
    while i < p.len()
        invariant
            p@ == prefix@,
            p@.len() <= s@.len(),
            i <= p@.len(),
            forall|j: int| 0 <= j < i ==> s@[j] == p@[j],
        decreases p@.len() - i,
    {
        if s[i] != p[i] {
            assert(s@.take(p@.len() as int)[i as int] != prefix@[i as int]);
            return false;
        }
        i = i + 1;
    }
    assert(s@.take(p@.len() as int) =~= prefix@);
    true
}


/// How many bytes `c` takes in UTF-8 (what `char::len_utf8` gives).
pub open spec fn utf8_width(c: char) -> int {
    if (c as u32) < 0x80 {
        1
    } else if (c as u32) < 0x800 {
        2
    } else if (c as u32) < 0x10000 {
        3
    } else {
        4
    }
}

/// Whether byte offset `n` of the UTF-8 encoding of `s` lies within it and
/// between two characters (what `str::is_char_boundary` tests).
pub open spec fn is_char_boundary(s: Seq<char>, n: int) -> bool
    decreases s.len(),
{
    if n == 0 {
        true
    } else if n < 0 || s.len() == 0 {
        false
    } else {
        utf8_width(s[0]) <= n && is_char_boundary(s.skip(1), n - utf8_width(s[0]))
    }
}

/// The characters whose encoding makes up the first `n` bytes of that of `s`
/// (the text `&s[..n]` where `n` is a character boundary).
pub open spec fn byte_prefix(s: Seq<char>, n: int) -> Seq<char>
    decreases s.len(),
{
    if n <= 0 || s.len() == 0 {
        Seq::empty()
    } else {
        seq![s[0]] + byte_prefix(s.skip(1), n - utf8_width(s[0]))
    }
}

/// `c.len_utf8()`.
pub fn utf8_width_of(c: char) -> (r: usize)
    ensures
        r == utf8_width(c),
{
    let v = c as u32;
    if v < 0x80 {
        1
    } else if v < 0x800 {
        2
    } else if v < 0x10000 {
        3
    } else {
        4
    }
}

/// `&s[..n]`, for a byte offset `n` that is a character boundary (slicing
/// elsewhere panics).
pub fn byte_prefix_of(s: &str, n: usize) -> (r: String)
    requires
        is_char_boundary(s@, n as int),
    ensures
        r@ == byte_prefix(s@, n as int),
{
    let cs = str_chars(s);
    let mut out: Vec<char> = Vec::new();
    let mut i: usize = 0;
    let mut rem: usize = n;
    assert(cs@.skip(0) =~= cs@);
    assert(out@ + byte_prefix(cs@.skip(0), n as int) =~= byte_prefix(s@, n as int));
    while rem > 0
        invariant
            cs@ == s@,
            i <= cs@.len(),
            rem <= n,
            is_char_boundary(cs@.skip(i as int), rem as int),
            out@ + byte_prefix(cs@.skip(i as int), rem as int) == byte_prefix(s@, n as int),
        decreases rem,
    {
        let ghost rest = cs@.skip(i as int);
        assert(rest.len() > 0);
        assert(rest[0] == cs@[i as int]);
        assert(rest.skip(1) =~= cs@.skip(i + 1));
        let c = cs[i];
        let w = utf8_width_of(c);
        assert(w as int == utf8_width(rest[0]));
        assert(out@.push(c) + byte_prefix(rest.skip(1), rem - w) =~= out@ + byte_prefix(rest, rem as int));
        out.push(c);
        rem = rem - w;
        i = i + 1;
    }
    assert(out@ + byte_prefix(cs@.skip(i as int), 0) =~= out@);
    chars_to_string(out.as_slice())
}

/// What `str::to_lowercase` gives: the Unicode lower-case mapping of each
/// character (a single character may map to several).
pub uninterp spec fn spec_to_lowercase(s: Seq<char>) -> Seq<char>;

/// `str::to_lowercase`.
#[verifier::external_body]
pub(crate) fn to_lowercase(s: &str) -> (r: String)
    ensures
        r@ == spec_to_lowercase(s@),
{
    s.to_lowercase()
}

} // verus!
