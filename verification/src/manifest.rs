//! Manifest text and field extraction.
//!
//! A manifest is the raw text of one `appmanifest_<id>.acf` file. The tool
//! consumes three of its fields — `appid`, `name` and `installdir` — each
//! defined as the first line (top to bottom) of the shape
//!
//! ```text
//! <whitespace> "<fieldname>" <whitespace> "<value>" <whitespace>
//! ```
//!
//! with at least one whitespace character between the two quoted parts and a
//! non-empty value. The closing quote of the value is the last quote on the
//! line that is followed by whitespace only, so the value itself may contain
//! quotes, and nothing inside it is trimmed. A malformed line, an empty
//! value, or no matching line at all make the field absent; absence is never
//! a parse error here, the callers above decide what it means.

use vstd::prelude::*;

use crate::steamapps::path_join;

verus! {

/// Whitespace that may appear inside one manifest line: every whitespace
/// character except the line feed, which separates lines.
pub open spec fn is_line_ws(c: char) -> bool {
    c == ' ' || c == '\t' || c == '\r' || c == '\u{b}' || c == '\u{c}'
}

/// Every character of `s` is line whitespace.
pub open spec fn all_line_ws(s: Seq<char>) -> bool {
    forall|i: int| 0 <= i < s.len() ==> is_line_ws(s[i])
}

/// The first position at or after `i` holding a non-whitespace character,
/// or the end of the line.
pub open spec fn skip_ws(line: Seq<char>, i: int) -> int
    decreases line.len() - i,
{
    if i < 0 || i >= line.len() {
        line.len() as int
    } else if is_line_ws(line[i]) {
        skip_ws(line, i + 1)
    } else {
        i
    }
}

/// The position just after the last non-whitespace character of the line
/// (0 when the line is all whitespace).
pub open spec fn trailing_ws_start(line: Seq<char>) -> int
    decreases line.len(),
{
    if line.len() == 0 {
        0
    } else if is_line_ws(line[line.len() - 1]) {
        trailing_ws_start(line.drop_last())
    } else {
        line.len() as int
    }
}

/// The value of `line` for the field `key`: `Some` exactly when the line
/// consists of optional whitespace, the quoted key, at least one whitespace
/// character, the quoted non-empty value, and optional trailing whitespace.
pub open spec fn line_value(line: Seq<char>, key: Seq<char>) -> Option<Seq<char>> {
    let i = skip_ws(line, 0);
    let kq = i + 1 + key.len();
    if i >= line.len() || line[i] != '"' {
        None
    } else if kq >= line.len() || line.subrange(i + 1, kq) != key || line[kq] != '"' {
        None
    } else {
        let p = skip_ws(line, kq + 1);
        if p == kq + 1 || p >= line.len() || line[p] != '"' {
            None
        } else {
            let q = trailing_ws_start(line) - 1;
            if q < p + 2 || line[q] != '"' {
                None
            } else {
                Some(line.subrange(p + 1, q))
            }
        }
    }
}

/// The lines of the text, split on line feeds: a text without a line feed
/// is one line, and a trailing line feed opens a final empty line.
pub open spec fn lines_of(text: Seq<char>) -> Seq<Seq<char>>
    decreases text.len(),
{
    if text.len() == 0 {
        seq![Seq::<char>::empty()]
    } else {
        let prev = lines_of(text.drop_last());
        if text.last() == '\n' {
            prev.push(Seq::empty())
        } else {
            prev.update(prev.len() - 1, prev.last().push(text.last()))
        }
    }
}

/// The value of the first line, in order, that matches the field.
pub open spec fn first_value(lines: Seq<Seq<char>>, key: Seq<char>) -> Option<Seq<char>>
    decreases lines.len(),
{
    if lines.len() == 0 {
        None
    } else if line_value(lines[0], key) is Some {
        line_value(lines[0], key)
    } else {
        first_value(lines.drop_first(), key)
    }
}

/// Field extraction over a whole manifest text: the value of the first
/// line, top to bottom, that matches the field; `None` when no line does.
pub open spec fn extract_field(text: Seq<char>, key: Seq<char>) -> Option<Seq<char>> {
    first_value(lines_of(text), key)
}

/// A text always splits into at least one line.
pub proof fn lemma_lines_of_nonempty(text: Seq<char>)
    ensures
        lines_of(text).len() >= 1,
    decreases text.len(),
{
    if text.len() > 0 {
        lemma_lines_of_nonempty(text.drop_last());
    }
}

/// `skip_ws` lands exactly on `m` when everything before `m` (from `start`)
/// is whitespace and `m` is the end of the line or a non-whitespace spot.
pub proof fn lemma_skip_ws_exact(line: Seq<char>, start: int, m: int)
    requires
        0 <= start <= m <= line.len(),
        forall|k: int| start <= k < m ==> is_line_ws(line[k]),
        m < line.len() ==> !is_line_ws(line[m]),
    ensures
        skip_ws(line, start) == m,
    decreases m - start,
{
    if start < m {
        lemma_skip_ws_exact(line, start + 1, m);
    }
}

/// `trailing_ws_start` lands exactly on `m` when everything from `m` on is
/// whitespace and `m` is 0 or preceded by a non-whitespace character.
pub proof fn lemma_trailing_ws_exact(line: Seq<char>, m: int)
    requires
        0 <= m <= line.len(),
        forall|k: int| m <= k < line.len() ==> is_line_ws(line[k]),
        m > 0 ==> !is_line_ws(line[m - 1]),
    ensures
        trailing_ws_start(line) == m,
    decreases line.len(),
{
    if m < line.len() {
        assert(trailing_ws_start(line) == trailing_ws_start(line.drop_last()));
        lemma_trailing_ws_exact(line.drop_last(), m);
    }
}

/// Splitting off the first line: when no line feed occurs before `e`, and
/// `e` is either a line feed or the end of the text, the lines of the text
/// are the first line followed by the lines of what comes after `e`.
pub proof fn lemma_lines_of_split(text: Seq<char>, e: int)
    requires
        0 <= e <= text.len(),
        forall|k: int| 0 <= k < e ==> text[k] != '\n',
        e < text.len() ==> text[e] == '\n',
    ensures
        e == text.len() ==> lines_of(text) == seq![text],
        e < text.len() ==> lines_of(text) == seq![text.subrange(0, e)] + lines_of(
            text.subrange(e + 1, text.len() as int),
        ),
    decreases text.len(),
{
    if text.len() == 0 {
        assert(lines_of(text) =~~= seq![text]);
    } else {
        let s0 = text.drop_last();
        let c = text.last();
        if e == text.len() {
            lemma_lines_of_split(s0, e - 1);
            assert(lines_of(text) =~~= seq![text]);
        } else if e == text.len() - 1 {
            lemma_lines_of_split(s0, e);
            let suffix = text.subrange(e + 1, text.len() as int);
            assert(suffix =~= Seq::<char>::empty());
            assert(text.subrange(0, e) =~= s0);
            assert(lines_of(text) =~~= seq![text.subrange(0, e)] + lines_of(suffix));
        } else {
            lemma_lines_of_split(s0, e);
            let pre = text.subrange(0, e);
            let mid = s0.subrange(e + 1, s0.len() as int);
            let suffix = text.subrange(e + 1, text.len() as int);
            assert(s0.subrange(0, e) =~= pre);
            assert(lines_of(s0) == seq![pre] + lines_of(mid));
            assert(suffix.drop_last() =~= mid);
            assert(suffix.last() == c);
            assert(suffix.len() > 0);
            lemma_lines_of_nonempty(mid);
            if c == '\n' {
                assert(lines_of(suffix) == lines_of(mid).push(Seq::empty()));
                assert(lines_of(text) =~~= seq![pre] + lines_of(suffix));
            } else {
                let lm = lines_of(mid);
                assert(lines_of(suffix) == lm.update(lm.len() - 1, lm.last().push(c)));
                let prev = lines_of(s0);
                assert(prev.len() == 1 + lm.len());
                assert(prev.last() == lm.last());
                assert(lines_of(text) == prev.update(prev.len() - 1, prev.last().push(c)));
                assert(lines_of(text) =~~= seq![pre] + lines_of(suffix));
            }
        }
    }
}

/// The value of the first matching line, found at index `j`: if no earlier
/// line matches, the sequence's first value is line `j`'s value.
proof fn lemma_first_value_at(lines: Seq<Seq<char>>, key: Seq<char>, j: int)
    requires
        0 <= j < lines.len(),
        line_value(lines[j], key) is Some,
        forall|k: int| 0 <= k < j ==> line_value(lines[k], key) is None,
    ensures
        first_value(lines, key) == line_value(lines[j], key),
    decreases j,
{
    if j > 0 {
        lemma_first_value_at(lines.drop_first(), key, j - 1);
    }
}

/// No match anywhere: the sequence's first value is `None` exactly when no
/// line matches.
proof fn lemma_first_value_none(lines: Seq<Seq<char>>, key: Seq<char>)
    ensures
        first_value(lines, key) is None <==> (forall|k: int|
            0 <= k < lines.len() ==> line_value(lines[k], key) is None),
    decreases lines.len(),
{
    if lines.len() > 0 {
        lemma_first_value_none(lines.drop_first(), key);
        let rest = lines.drop_first();
        assert forall|k: int| 0 <= k < rest.len() implies rest[k] == lines[k + 1] by {}
        if first_value(lines, key) is None {
            assert forall|k: int| 0 <= k < lines.len() implies line_value(
                lines[k],
                key,
            ) is None by {
                if k > 0 {
                    assert(lines[k] == rest[k - 1]);
                }
            }
        } else {
            if line_value(lines[0], key) is None {
                assert(first_value(rest, key) is Some);
            }
        }
    }
}

/// First match wins: if line `j` of the text matches the field and no
/// earlier line does, extraction over the whole text returns line `j`'s
/// value. In particular, when a field occurs on two lines, the first
/// occurrence (top to bottom) decides.
pub proof fn lemma_extract_first_match(text: Seq<char>, key: Seq<char>, j: int)
    requires
        0 <= j < lines_of(text).len(),
        line_value(lines_of(text)[j], key) is Some,
        forall|k: int| 0 <= k < j ==> line_value(lines_of(text)[k], key) is None,
    ensures
        extract_field(text, key) == line_value(lines_of(text)[j], key),
{
    lemma_first_value_at(lines_of(text), key, j);
}

/// Absence means no line matched: extraction returns `None` exactly when no
/// line of the text matches the field.
pub proof fn lemma_extract_none(text: Seq<char>, key: Seq<char>)
    ensures
        extract_field(text, key) is None <==> (forall|k: int|
            0 <= k < lines_of(text).len() ==> line_value(lines_of(text)[k], key) is None),
{
    lemma_first_value_none(lines_of(text), key);
}

/// A well-formed field line yields its quoted value exactly: for any line
/// of the shape `<ws> "key" <ws> "value" ` with at least one whitespace
/// character between the quoted parts and a non-empty value, the line's
/// value is `value` itself — whatever whitespace or quotes it contains,
/// nothing is trimmed from it.
pub proof fn lemma_field_line(lead: Seq<char>, key: Seq<char>, mid: Seq<char>, value: Seq<char>)
    requires
        all_line_ws(lead),
        all_line_ws(mid),
        mid.len() >= 1,
        value.len() >= 1,
    ensures
        line_value(
            lead + seq!['"'] + key + seq!['"'] + mid + seq!['"'] + value + seq!['"'],
            key,
        ) == Some(value),
{
    let line = lead + seq!['"'] + key + seq!['"'] + mid + seq!['"'] + value + seq!['"'];
    let i = lead.len() as int;
    let kq = i + 1 + key.len();
    let p = kq + 1 + mid.len();
    let q = line.len() - 1;
    assert(line[i] == '"');
    assert(line[kq] == '"');
    assert(line[p] == '"');
    assert(line[q] == '"');
    lemma_skip_ws_exact(line, 0, i);
    lemma_skip_ws_exact(line, kq + 1, p);
    lemma_trailing_ws_exact(line, line.len() as int);
    assert(line.subrange(i + 1, kq) =~= key);
    assert(line.subrange(p + 1, q) =~= value);
}

/// The two laws above composed: a manifest text whose first matching line
/// for `key` is a well-formed field line — `<ws> "key" <ws> "value"` with a
/// non-empty value — yields that line's quoted value exactly.
pub proof fn lemma_extract_of_field_line(
    text: Seq<char>,
    key: Seq<char>,
    j: int,
    lead: Seq<char>,
    mid: Seq<char>,
    value: Seq<char>,
)
    requires
        0 <= j < lines_of(text).len(),
        lines_of(text)[j] == lead + seq!['"'] + key + seq!['"'] + mid + seq!['"'] + value
            + seq!['"'],
        all_line_ws(lead),
        all_line_ws(mid),
        mid.len() >= 1,
        value.len() >= 1,
        forall|k: int| 0 <= k < j ==> line_value(lines_of(text)[k], key) is None,
    ensures
        extract_field(text, key) == Some(value),
{
    lemma_field_line(lead, key, mid, value);
    lemma_extract_first_match(text, key, j);
}

/// Whether `c` is line whitespace.
fn is_ws_char(c: char) -> (r: bool)
    ensures
        r == is_line_ws(c),
{
    c == ' ' || c == '\t' || c == '\r' || c == '\u{b}' || c == '\u{c}'
}

/// Match one line of `s` — the characters `lo..hi`, assumed free of line
/// feeds — against the field `key`; on success return the value's
/// character range within `s`.
#[verifier::loop_isolation(false)]
fn match_line(s: &str, lo: usize, hi: usize, key: &str) -> (r: Option<(usize, usize)>)
    requires
        lo <= hi <= s@.len(),
    ensures
        ({
            let line = s@.subrange(lo as int, hi as int);
            match r {
                Some((a, b)) => lo <= a && a <= b && b <= hi && line_value(line, key@) == Some(
                    s@.subrange(a as int, b as int),
                ),
                None => line_value(line, key@) is None,
            }
        }),
{
    let ghost line = s@.subrange(lo as int, hi as int);
    // leading whitespace, then the key's opening quote
    let mut j: usize = lo;
    while j < hi && is_ws_char(s.get_char(j))
        invariant
            lo <= j <= hi,
            skip_ws(line, 0) == skip_ws(line, j - lo),
        decreases hi - j,
    {
        assert(line[j - lo] == s@[j as int]);
        j += 1;
    }
    let ghost i = skip_ws(line, 0);
    if j == hi {
        return None;
    }
    assert(i == j - lo);
    assert(line[i] == s@[j as int]);
    if s.get_char(j) != '"' {
        return None;
    }
    // the key itself, then its closing quote
    let klen = key.unicode_len();
    let ghost kq = i + 1 + key@.len();
    if hi - j - 1 <= klen {
        assert(kq >= line.len());
        return None;
    }
    let mut k: usize = 0;
    while k < klen
        invariant
            0 <= k <= klen,
            forall|t: int| 0 <= t < k ==> line[i + 1 + t] == key@[t],
        decreases klen - k,
    {
        assert(line[i + 1 + k] == s@[(j + 1 + k) as int]);
        if s.get_char(j + 1 + k) != key.get_char(k) {
            proof {
                if line.subrange(i + 1, kq) == key@ {
                    assert(line.subrange(i + 1, kq)[k as int] == key@[k as int]);
                }
            }
            return None;
        }
        k += 1;
    }
    proof {
        assert(line.subrange(i + 1, kq) =~= key@);
    }
    let jq = j + 1 + klen;
    assert(line[kq] == s@[jq as int]);
    if s.get_char(jq) != '"' {
        return None;
    }
    // at least one whitespace character, then the value's opening quote
    let mut m: usize = jq + 1;
    while m < hi && is_ws_char(s.get_char(m))
        invariant
            jq + 1 <= m <= hi,
            skip_ws(line, kq + 1) == skip_ws(line, m - lo),
        decreases hi - m,
    {
        assert(line[m - lo] == s@[m as int]);
        m += 1;
    }
    let ghost p = skip_ws(line, kq + 1);
    if m == jq + 1 {
        return None;
    }
    if m == hi {
        return None;
    }
    assert(p == m - lo);
    assert(line[p] == s@[m as int]);
    if s.get_char(m) != '"' {
        return None;
    }
    // trailing whitespace, preceded by the value's closing quote
    proof {
        assert(line.subrange(0, (hi - lo) as int) =~= line);
    }
    let mut e: usize = hi;
    while e > lo && is_ws_char(s.get_char(e - 1))
        invariant
            lo <= e <= hi,
            trailing_ws_start(line) == trailing_ws_start(line.subrange(0, e - lo)),
        decreases e,
    {
        assert(line.subrange(0, (e - lo) as int).last() == s@[(e - 1) as int]);
        assert(line.subrange(0, (e - lo) as int).drop_last() =~= line.subrange(
            0,
            (e - 1 - lo) as int,
        ));
        e -= 1;
    }
    let ghost t = trailing_ws_start(line);
    assert(t <= e - lo);
    if e <= m {
        return None;
    }
    assert(t == e - lo);
    if e - m < 3 {
        return None;
    }
    assert(line[t - 1] == s@[(e - 1) as int]);
    if s.get_char(e - 1) != '"' {
        return None;
    }
    proof {
        assert(line.subrange(p + 1, t - 1) =~= s@.subrange((m + 1) as int, (e - 1) as int));
    }
    Some((m + 1, e - 1))
}

/// Extract the field `key` from the manifest text `s`: the value of the
/// first line, top to bottom, that matches it.
#[verifier::loop_isolation(false)]
pub fn extract<'a>(s: &'a str, key: &str) -> (r: Option<&'a str>)
    ensures
        match r {
            Some(v) => extract_field(s@, key@) == Some(v@),
            None => extract_field(s@, key@) is None,
        },
{
    let n = s.unicode_len();
    proof {
        assert(s@.subrange(0, n as int) =~= s@);
    }
    let mut line_start: usize = 0;
    let mut idx: usize = 0;
    while idx < n
        invariant
            line_start <= idx <= n,
            forall|k: int| line_start <= k < idx ==> s@[k] != '\n',
            first_value(lines_of(s@), key@) == first_value(
                lines_of(s@.subrange(line_start as int, n as int)),
                key@,
            ),
        decreases n - idx,
    {
        if s.get_char(idx) == '\n' {
            let ghost suffix = s@.subrange(line_start as int, n as int);
            let ghost e_rel = idx - line_start;
            let ghost cur = s@.subrange(line_start as int, idx as int);
            proof {
                assert(suffix[e_rel] == s@[idx as int]);
                lemma_lines_of_split(suffix, e_rel);
                assert(suffix.subrange(0, e_rel) =~= cur);
                let rest = lines_of(suffix.subrange(e_rel + 1, suffix.len() as int));
                assert((seq![cur] + rest)[0] == cur);
                assert((seq![cur] + rest).drop_first() =~= rest);
            }
            match match_line(s, line_start, idx, key) {
                Some((a, b)) => {
                    return Some(s.substring_char(a, b));
                },
                None => {
                    proof {
                        assert(suffix.subrange(e_rel + 1, suffix.len() as int) =~= s@.subrange(
                            (idx + 1) as int,
                            n as int,
                        ));
                    }
                    line_start = idx + 1;
                },
            }
        }
        idx += 1;
    }
    let ghost suffix = s@.subrange(line_start as int, n as int);
    proof {
        lemma_lines_of_split(suffix, suffix.len() as int);
        assert(seq![suffix][0] == suffix);
        assert(seq![suffix].drop_first() =~= Seq::<Seq<char>>::empty());
    }
    match match_line(s, line_start, n, key) {
        Some((a, b)) => {
            proof {
                assert(first_value(lines_of(suffix), key@) == line_value(suffix, key@));
            }
            Some(s.substring_char(a, b))
        },
        None => {
            proof {
                assert(first_value(lines_of(suffix), key@) == first_value(
                    Seq::<Seq<char>>::empty(),
                    key@,
                ));
            }
            None
        },
    }
}

/// The raw text of one `appmanifest_<id>.acf` file, immutable after
/// construction; its view is the text as a character sequence.
pub struct AppManifest {
    contents: String,
}

impl View for AppManifest {
    type V = Seq<char>;

    closed spec fn view(&self) -> Seq<char> {
        self.contents@
    }
}

impl AppManifest {
    /// Wrap the raw text of one manifest file. The caller reads the file;
    /// the manifest never changes afterwards.
    pub fn new(contents: String) -> (m: AppManifest)
        ensures
            m@ == contents@,
    {
        AppManifest { contents }
    }

    /// The value of an arbitrary field of the manifest.
    pub fn field(&self, key: &str) -> (r: Option<&str>)
        ensures
            match r {
                Some(v) => extract_field(self@, key@) == Some(v@),
                None => extract_field(self@, key@) is None,
            },
    {
        extract(self.contents.as_str(), key)
    }

    /// The `appid` value of the manifest.
    pub fn appid(&self) -> (r: Option<&str>)
        ensures
            match r {
                Some(v) => extract_field(self@, "appid"@) == Some(v@),
                None => extract_field(self@, "appid"@) is None,
            },
    {
        self.field("appid")
    }

    /// The `name` value of the manifest.
    pub fn game_name(&self) -> (r: Option<&str>)
        ensures
            match r {
                Some(v) => extract_field(self@, "name"@) == Some(v@),
                None => extract_field(self@, "name"@) is None,
            },
    {
        self.field("name")
    }

    /// The `installdir` value of the manifest, a path fragment relative to
    /// a payload directory.
    pub fn installdir(&self) -> (r: Option<&str>)
        ensures
            match r {
                Some(v) => extract_field(self@, "installdir"@) == Some(v@),
                None => extract_field(self@, "installdir"@) is None,
            },
    {
        self.field("installdir")
    }

    /// The manifest's install directory joined under `base_dir` (a payload
    /// directory), or `None` when the `installdir` field is absent. Whether
    /// the directory exists on disk is for the caller to probe.
    pub fn get_installdir(&self, base_dir: &str) -> (r: Option<String>)
        ensures
            match r {
                Some(p) => extract_field(self@, "installdir"@) matches Some(d) && p@ == path_join(
                    base_dir@,
                    d,
                ),
                None => extract_field(self@, "installdir"@) is None,
            },
    {
        match self.installdir() {
            Some(d) => Some(crate::steamapps::join_path(base_dir, d)),
            None => None,
        }
    }
}

} // verus!
