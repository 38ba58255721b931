//! Recognising HTML-like open and close tags inside section source text.
//!
//! Positions are character indices into the source.
use vstd::prelude::*;

use crate::text::{
    ascii_alnum, ascii_alpha, ascii_lowercase, find_char, find_from, is_ascii_alnum,
    is_ascii_alpha, is_whitespace, is_ws, lowercase, seq_eq, slice_to_vec, trim, trim_end,
    trimmed, trimmed_end,
};

verus! {

// ---------------------------------------------------------------------------
// End of a tag
// ---------------------------------------------------------------------------
/// The position of the `>` closing a tag whose text continues at `i`;
/// quoted text (with `\` escaping the next character) may hold `>`.
pub open spec fn tag_end(s: Seq<char>, i: int, quote: Option<char>) -> Option<int>
    decreases s.len() + 1 - i,
{
    if i < 0 || i >= s.len() {
        None
    } else {
        match quote {
            Some(q) => if s[i] == q {
                tag_end(s, i + 1, None)
            } else if s[i] == '\\' {
                tag_end(s, i + 2, Some(q))
            } else {
                tag_end(s, i + 1, Some(q))
            },
            None => if s[i] == '"' || s[i] == '\'' {
                tag_end(s, i + 1, Some(s[i]))
            } else if s[i] == '>' {
                Some(i)
            } else {
                tag_end(s, i + 1, None)
            },
        }
    }
}

pub proof fn lemma_tag_end_range(s: Seq<char>, i: int, quote: Option<char>)
    ensures
        tag_end(s, i, quote) matches Some(k) ==> i <= k < s.len() && s[k] == '>',
    decreases s.len() + 1 - i,
{
    if 0 <= i < s.len() {
        match quote {
            Some(q) => if s[i] == q {
                lemma_tag_end_range(s, i + 1, None);
            } else if s[i] == '\\' {
                lemma_tag_end_range(s, i + 2, Some(q));
            } else {
                lemma_tag_end_range(s, i + 1, Some(q));
            },
            None => if s[i] == '"' || s[i] == '\'' {
                lemma_tag_end_range(s, i + 1, Some(s[i]));
            } else if s[i] == '>' {
            } else {
                lemma_tag_end_range(s, i + 1, None);
            },
        }
    }
}

/// The position of the `>` that ends the tag text starting at `idx`.
pub fn find_tag_end(s: &[char], idx: usize) -> (r: Option<usize>)
    ensures
        match tag_end(s@, idx as int, None) {
            Some(k) => r == Some(k as usize),
            None => r is None,
        },
{
    let mut i = idx;
    let mut quote: Option<char> = None;
    while i < s.len()
        invariant
            tag_end(s@, idx as int, None) == tag_end(s@, i as int, quote),
        decreases s.len() + 1 - i,
    {
        let c = s[i];
        match quote {
            Some(q) => {
                if c == q {
                    quote = None;
                    i = i + 1;
                } else if c == '\\' {
                    if s.len() - i <= 2 {
                        assert(tag_end(s@, i + 2, Some(q)) is None);
                        return None;
                    }
                    i = i + 2;
                } else {
                    i = i + 1;
                }
            },
            None => {
                if c == '"' || c == '\'' {
                    quote = Some(c);
                    i = i + 1;
                } else if c == '>' {
                    return Some(i);
                } else {
                    i = i + 1;
                }
            },
        }
    }
    None
}

// ---------------------------------------------------------------------------
// Tag names
// ---------------------------------------------------------------------------
/// An ASCII letter followed by ASCII letters, digits and `-`.
pub open spec fn valid_tag_name(name: Seq<char>) -> bool {
    &&& name.len() > 0
    &&& is_ascii_alpha(name[0])
    &&& forall|i: int| 1 <= i < name.len() ==> is_ascii_alnum(#[trigger] name[i]) || name[i] == '-'
}

pub fn is_valid_tag_name(name: &[char]) -> (r: bool)
    ensures
        r == valid_tag_name(name@),
{
    if name.len() == 0 || !ascii_alpha(name[0]) {
        return false;
    }
    let mut i: usize = 1;
    while i < name.len()
        invariant
            1 <= i <= name@.len(),
            forall|j: int| 1 <= j < i ==> is_ascii_alnum(#[trigger] name@[j]) || name@[j] == '-',
        decreases name.len() - i,
    {
        if !(ascii_alnum(name[i]) || name[i] == '-') {
            assert(!(is_ascii_alnum(name@[i as int]) || name@[i as int] == '-'));
            return false;
        }
        i = i + 1;
    }
    true
}

/// Index of the first whitespace character, or the length.
pub open spec fn first_ws(s: Seq<char>, i: int) -> int
    decreases s.len() - i,
{
    if i < 0 || i >= s.len() {
        s.len() as int
    } else if is_ws(s[i]) {
        i
    } else {
        first_ws(s, i + 1)
    }
}

proof fn lemma_first_ws_range(s: Seq<char>, i: int)
    requires
        0 <= i <= s.len(),
    ensures
        i <= first_ws(s, i) <= s.len(),
    decreases s.len() - i,
{
    if i < s.len() && !is_ws(s[i]) {
        lemma_first_ws_range(s, i + 1);
    }
}

/// A tag's text split at its first whitespace into a valid name and the
/// trimmed attribute text.
pub open spec fn split_name_attrs(inner: Seq<char>) -> Option<(Seq<char>, Seq<char>)> {
    let k = first_ws(inner, 0);
    let name = inner.take(k);
    if !valid_tag_name(name) {
        None
    } else if k < inner.len() {
        Some((name, trim(inner.skip(k))))
    } else {
        Some((name, seq![]))
    }
}

pub fn split_tag_name_and_attrs(inner: &[char]) -> (r: Option<(Vec<char>, Vec<char>)>)
    ensures
        match split_name_attrs(inner@) {
            Some((n, a)) => r matches Some((rn, ra)) && rn@ == n && ra@ == a,
            None => r is None,
        },
{
    let mut k: usize = 0;
    while k < inner.len() && !is_whitespace(inner[k])
        invariant
            k <= inner@.len(),
            first_ws(inner@, 0) == first_ws(inner@, k as int),
        decreases inner.len() - k,
    {
        k = k + 1;
    }
    proof {
        lemma_first_ws_range(inner@, k as int);
    }
    let name = slice_to_vec(inner, 0, k);
    assert(name@ =~= inner@.take(k as int));
    if !is_valid_tag_name(name.as_slice()) {
        return None;
    }
    if k < inner.len() {
        let rest = slice_to_vec(inner, k, inner.len());
        assert(rest@ =~= inner@.skip(k as int));
        Some((name, trimmed(rest.as_slice())))
    } else {
        Some((name, Vec::new()))
    }
}

// ---------------------------------------------------------------------------
// Open and close tags
// ---------------------------------------------------------------------------
/// A parsed open tag: lower-cased name, attribute text, the position of its
/// `>`, and whether it ends with `/>`.
pub struct OpenTagModel {
    pub name: Seq<char>,
    pub attrs: Seq<char>,
    pub end: int,
    pub self_closing: bool,
}

pub struct OpenTag {
    pub name: Vec<char>,
    pub attrs: Vec<char>,
    pub end: usize,
    pub self_closing: bool,
}

impl OpenTag {
    pub open spec fn model(&self) -> OpenTagModel {
        OpenTagModel {
            name: self.name@,
            attrs: self.attrs@,
            end: self.end as int,
            self_closing: self.self_closing,
        }
    }
}

/// The open tag whose `<` is at `start`, if one is there.
pub open spec fn open_tag_spec(s: Seq<char>, start: int) -> Option<OpenTagModel> {
    if !(0 <= start < s.len()) || s[start] != '<' {
        None
    } else if start + 1 < s.len() && s[start + 1] == '/' {
        None
    } else {
        match tag_end(s, start + 1, None) {
            None => None,
            Some(end) => {
                let inner = trim(s.subrange(start + 1, end));
                if inner.len() == 0 {
                    None
                } else {
                    let self_closing = inner.last() == '/';
                    let inner2 = if self_closing {
                        trim_end(inner.drop_last())
                    } else {
                        inner
                    };
                    match split_name_attrs(inner2) {
                        Some((n, a)) => Some(
                            OpenTagModel { name: lowercase(n), attrs: a, end, self_closing },
                        ),
                        None => None,
                    }
                }
            },
        }
    }
}

pub fn parse_open_tag(s: &[char], start: usize) -> (r: Option<OpenTag>)
    ensures
        match open_tag_spec(s@, start as int) {
            Some(m) => r matches Some(t) && t.model() == m,
            None => r is None,
        },
{
    if start >= s.len() || s[start] != '<' {
        return None;
    }
    if start + 1 < s.len() && s[start + 1] == '/' {
        return None;
    }
    let end = match find_tag_end(s, start + 1) {
        Some(e) => e,
        None => return None,
    };
    proof {
        lemma_tag_end_range(s@, start + 1, None);
    }
    let raw = slice_to_vec(s, start + 1, end);
    let inner = trimmed(raw.as_slice());
    if inner.len() == 0 {
        return None;
    }
    let self_closing = inner[inner.len() - 1] == '/';
    let inner2 = if self_closing {
        let cut = slice_to_vec(inner.as_slice(), 0, inner.len() - 1);
        assert(cut@ =~= inner@.drop_last());
        trimmed_end(cut.as_slice())
    } else {
        inner
    };
    match split_tag_name_and_attrs(inner2.as_slice()) {
        Some((n, a)) => {
            let name = ascii_lowercase(n.as_slice());
            Some(OpenTag { name, attrs: a, end, self_closing })
        },
        None => None,
    }
}

pub struct CloseTagModel {
    pub name: Seq<char>,
    pub end: int,
}

pub struct CloseTag {
    pub name: Vec<char>,
    pub end: usize,
}

impl CloseTag {
    pub open spec fn model(&self) -> CloseTagModel {
        CloseTagModel { name: self.name@, end: self.end as int }
    }
}

/// The close tag whose `<` is at `start`, if one is there.
pub open spec fn close_tag_spec(s: Seq<char>, start: int) -> Option<CloseTagModel> {
    if !(0 <= start < s.len()) || s[start] != '<' {
        None
    } else if !(start + 1 < s.len() && s[start + 1] == '/') {
        None
    } else {
        match tag_end(s, start + 2, None) {
            None => None,
            Some(end) => {
                let inner = trim(s.subrange(start + 2, end));
                if !valid_tag_name(inner) {
                    None
                } else {
                    Some(CloseTagModel { name: lowercase(inner), end })
                }
            },
        }
    }
}

pub fn parse_close_tag(s: &[char], start: usize) -> (r: Option<CloseTag>)
    ensures
        match close_tag_spec(s@, start as int) {
            Some(m) => r matches Some(t) && t.model() == m,
            None => r is None,
        },
{
    if start >= s.len() || s[start] != '<' {
        return None;
    }
    if !(start + 1 < s.len() && s[start + 1] == '/') {
        return None;
    }
    let end = match find_tag_end(s, start + 2) {
        Some(e) => e,
        None => return None,
    };
    proof {
        lemma_tag_end_range(s@, start + 2, None);
    }
    let raw = slice_to_vec(s, start + 2, end);
    let inner = trimmed(raw.as_slice());
    if !is_valid_tag_name(inner.as_slice()) {
        return None;
    }
    Some(CloseTag { name: ascii_lowercase(inner.as_slice()), end })
}

pub proof fn lemma_open_tag_end(s: Seq<char>, start: int)
    ensures
        open_tag_spec(s, start) matches Some(m) ==> start < m.end < s.len(),
{
    lemma_tag_end_range(s, start + 1, None);
}

pub proof fn lemma_close_tag_end(s: Seq<char>, start: int)
    ensures
        close_tag_spec(s, start) matches Some(m) ==> start < m.end < s.len(),
{
    lemma_tag_end_range(s, start + 2, None);
}

// ---------------------------------------------------------------------------
// Matching close tag
// ---------------------------------------------------------------------------
/// The range `(start, end)` of the close tag that matches an already open
/// tag named `tag`, searching from `cursor` with `depth` tags of that name
/// still open. Nested open tags of the same name (not self-closing) must be
/// closed first; names compare ignoring ASCII case.
pub open spec fn match_close(s: Seq<char>, cursor: int, tag: Seq<char>, depth: nat) -> Option<
    (int, int),
>
    decreases s.len() - cursor,
{
    if cursor < 0 || cursor > s.len() {
        None
    } else {
        match find_from(s, seq!['<'], cursor) {
            None => None,
            Some(start) => if start < cursor || start >= s.len() {
                None
            } else {
                match open_tag_spec(s, start) {
                    Some(o) => if o.end < start || o.end >= s.len() {
                        None
                    } else if lowercase(o.name) == lowercase(tag) && !o.self_closing {
                        match_close(s, o.end + 1, tag, depth + 1)
                    } else {
                        match_close(s, o.end + 1, tag, depth)
                    },
                    None => match close_tag_spec(s, start) {
                        Some(c) => if c.end < start || c.end >= s.len() {
                            None
                        } else if lowercase(c.name) == lowercase(tag) {
                            if depth <= 1 {
                                Some((start, c.end))
                            } else {
                                match_close(s, c.end + 1, tag, (depth - 1) as nat)
                            }
                        } else {
                            match_close(s, c.end + 1, tag, depth)
                        },
                        None => match_close(s, start + 1, tag, depth),
                    },
                }
            },
        }
    }
}

pub struct CloseTagRange {
    pub start: usize,
    pub end: usize,
}

pub fn names_match(a: &[char], b: &[char]) -> (r: bool)
    ensures
        r == (lowercase(a@) == lowercase(b@)),
{
    let la = ascii_lowercase(a);
    let lb = ascii_lowercase(b);
    seq_eq(la.as_slice(), lb.as_slice())
}

/// The close tag matching an open tag named `tag_name` whose text ended
/// just before `cursor`.
pub fn find_matching_close_tag(s: &[char], cursor: usize, tag_name: &[char]) -> (r: Option<
    CloseTagRange,
>)
    requires
        cursor <= s@.len(),
    ensures
        match match_close(s@, cursor as int, tag_name@, 1) {
            Some((a, b)) => r matches Some(t) && t.start == a && t.end == b,
            None => r is None,
        },
{
    let mut cur = cursor;
    let mut depth: usize = 1;
    loop
        invariant
            cur <= s@.len(),
            1 <= depth <= cur + 1,
            match_close(s@, cur as int, tag_name@, depth as nat) == match_close(
                s@,
                cursor as int,
                tag_name@,
                1,
            ),
        decreases s.len() - cur,
    {
        let start = match find_char(s, '<', cur) {
            Some(x) => x,
            None => return None,
        };
        proof {
            lemma_open_tag_end(s@, start as int);
            lemma_close_tag_end(s@, start as int);
        }
        match parse_open_tag(s, start) {
            Some(o) => {
                if names_match(o.name.as_slice(), tag_name) && !o.self_closing {
                    depth = depth + 1;
                }
                cur = o.end + 1;
                continue ;
            },
            None => {},
        }
        match parse_close_tag(s, start) {
            Some(c) => {
                if names_match(c.name.as_slice(), tag_name) {
                    if depth == 1 {
                        return Some(CloseTagRange { start, end: c.end });
                    }
                    depth = depth - 1;
                }
                cur = c.end + 1;
            },
            None => {
                cur = start + 1;
            },
        }
    }
}

/// Line and column (from 1) of position `idx`, clamped to the text.
pub fn byte_index_to_line_col(s: &[char], idx: usize) -> (r: (usize, usize))
    requires
        s@.len() < usize::MAX,
    ensures
        r.0 as int == line_col(s@, idx as int).0,
        r.1 as int == line_col(s@, idx as int).1,
{
    let n = if idx < s.len() {
        idx
    } else {
        s.len()
    };
    let mut line: usize = 1;
    let mut col: usize = 1;
    let mut i: usize = 0;
    proof {
        if s@.len() > 0 && idx > s@.len() {
            assert(line_col(s@, idx as int) == line_col(s@, s@.len() as int));
        }
    }
    while i < n
        invariant
            n <= s@.len(),
            s@.len() < usize::MAX,
            i <= n,
            (line as int, col as int) == line_col(s@, i as int),
            line <= i + 1,
            col <= i + 1,
            n == (if idx < s@.len() { idx as int } else { s@.len() as int }),
        decreases n - i,
    {
        if s[i] == '\n' {
            line = line + 1;
            col = 1;
        } else {
            col = col + 1;
        }
        i = i + 1;
    }
    proof {
        if s@.len() == 0 {
            assert(line_col(s@, idx as int) == (1int, 1int));
        }
    }
    (line, col)
}

// ---------------------------------------------------------------------------
// Positions
// ---------------------------------------------------------------------------
/// Line and column (both from 1) of the character at `idx`, counting
/// columns in characters.
pub open spec fn line_col(s: Seq<char>, idx: int) -> (int, int)
    decreases idx,
{
    if idx <= 0 || s.len() == 0 {
        (1, 1)
    } else if idx > s.len() {
        line_col(s, s.len() as int)
    } else {
        let (l, c) = line_col(s, idx - 1);
        if s[idx - 1] == '\n' {
            (l + 1, 1)
        } else {
            (l, c + 1)
        }
    }
}

} // verus!
