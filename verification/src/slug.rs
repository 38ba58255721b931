//! Slugs: the tree-relative names of sections, and the path arithmetic that
//! produces them.
use vstd::prelude::*;

use crate::text::{chars_of, ends_with, has_prefix, has_suffix, push_all, push_str, seq_eq, slice_to_vec, starts_with, string_of};

verus! {

/// Source file kinds.
#[derive(Debug, Clone, Copy, PartialEq, Eq, Structural)]
pub enum Ext {
    Markdown,
    Typst,
}

/// Returned when an extension names no known source kind.
#[derive(Debug, Clone, Copy, PartialEq, Eq, Structural)]
pub struct ParseExtensionError;

pub open spec fn ext_text(e: Ext) -> Seq<char> {
    match e {
        Ext::Markdown => seq!['m', 'd'],
        Ext::Typst => seq!['t', 'y', 'p', 's', 't'],
    }
}

/// The source kind an extension names, if any.
pub open spec fn parse_ext(s: Seq<char>) -> Option<Ext> {
    if s == seq!['m', 'd'] {
        Some(Ext::Markdown)
    } else if s == seq!['t', 'y', 'p', 's', 't'] {
        Some(Ext::Typst)
    } else {
        None
    }
}

impl Ext {
    /// `md` or `typst`.
    pub fn parse(s: &str) -> (r: Result<Ext, ParseExtensionError>)
        ensures
            r matches Ok(e) ==> parse_ext(s@) == Some(e),
            r is Err ==> parse_ext(s@) is None,
    {
        let v = chars_of(s);
        ext_of(v.as_slice())
    }

    /// The extension text, as `Display` writes it.
    pub fn as_str(&self) -> (r: &'static str)
        ensures
            r@ == ext_text(*self),
    {
        match self {
            Ext::Markdown => {
                proof {
                    reveal_strlit("md");
                }
                "md"
            },
            Ext::Typst => {
                proof {
                    reveal_strlit("typst");
                }
                "typst"
            },
        }
    }
}

pub fn ext_of(v: &[char]) -> (r: Result<Ext, ParseExtensionError>)
    ensures
        r matches Ok(e) ==> parse_ext(v@) == Some(e),
        r is Err ==> parse_ext(v@) is None,
{
    let md = vec!['m', 'd'];
    let typst = vec!['t', 'y', 'p', 's', 't'];
    if seq_eq(v, md.as_slice()) {
        Ok(Ext::Markdown)
    } else if seq_eq(v, typst.as_slice()) {
        Ok(Ext::Typst)
    } else {
        Err(ParseExtensionError)
    }
}

/// A section's slug, e.g. `book/index`.
#[derive(Debug)]
pub struct Slug {
    text: String,
}

impl View for Slug {
    type V = Seq<char>;

    closed spec fn view(&self) -> Seq<char> {
        self.text@
    }
}

impl Slug {
    pub fn new(s: &str) -> (r: Slug)
        ensures
            r@ == s@,
    {
        Slug { text: string_of(chars_of(s).as_slice()) }
    }

    pub fn from_chars(s: &[char]) -> (r: Slug)
        ensures
            r@ == s@,
    {
        Slug { text: string_of(s) }
    }

    pub fn as_str(&self) -> (r: &str)
        ensures
            r@ == self@,
    {
        self.text.as_str()
    }

    pub fn chars(&self) -> (r: Vec<char>)
        ensures
            r@ == self@,
    {
        chars_of(self.text.as_str())
    }

    /// Whether both name the same section.
    pub fn same(&self, other: &Slug) -> (r: bool)
        ensures
            r == (self@ == other@),
    {
        self.text == other.text
    }

    pub fn duplicate(&self) -> (r: Slug)
        ensures
            r@ == self@,
    {
        Slug { text: self.text.clone() }
    }
}

// ---------------------------------------------------------------------------
// Character replacement
// ---------------------------------------------------------------------------
/// `s` with every `from` replaced by `to`.
pub open spec fn replace_char(s: Seq<char>, from: char, to: char) -> Seq<char> {
    s.map_values(|c: char| if c == from { to } else { c })
}

pub fn replaced(s: &[char], from: char, to: char) -> (r: Vec<char>)
    ensures
        r@ == replace_char(s@, from, to),
{
    let mut r: Vec<char> = Vec::new();
    let mut i: usize = 0;
    while i < s.len()
        invariant
            i <= s@.len(),
            r@ == replace_char(s@.take(i as int), from, to),
        decreases s.len() - i,
    {
        let c = if s[i] == from {
            to
        } else {
            s[i]
        };
        r.push(c);
        i = i + 1;
        assert(r@ =~= replace_char(s@.take(i as int), from, to));
    }
    assert(s@.take(i as int) =~= s@);
    r
}

/// `slug.replace("/", "-")`: the slug as an HTML id.
pub fn to_hash_id(slug: &str) -> (r: String)
    ensures
        r@ == replace_char(slug@, '/', '-'),
{
    let v = chars_of(slug);
    string_of(replaced(v.as_slice(), '/', '-').as_slice())
}

/// Backslashes become forward slashes.
pub fn posix_style(s: &str) -> (r: String)
    ensures
        r@ == replace_char(s@, '\\', '/'),
{
    let v = chars_of(s);
    string_of(replaced(v.as_slice(), '\\', '/').as_slice())
}

// ---------------------------------------------------------------------------
// Path cleaning
// ---------------------------------------------------------------------------
/// One `/`-separated piece applied to a stack of clean components: empty
/// pieces and `.` vanish, `..` drops the last component if there is one.
pub open spec fn apply_piece(stack: Seq<Seq<char>>, piece: Seq<char>) -> Seq<Seq<char>> {
    if piece.len() == 0 || piece == seq!['.'] {
        stack
    } else if piece == seq!['.', '.'] {
        if stack.len() > 0 {
            stack.drop_last()
        } else {
            stack
        }
    } else {
        stack.push(piece)
    }
}

/// Components left after reading `s` so far, and the piece being read.
pub open spec fn scan_path(s: Seq<char>) -> (Seq<Seq<char>>, Seq<char>)
    decreases s.len(),
{
    if s.len() == 0 {
        (seq![], seq![])
    } else {
        let (stack, cur) = scan_path(s.drop_last());
        if s.last() == '/' {
            (apply_piece(stack, cur), seq![])
        } else {
            (stack, cur.push(s.last()))
        }
    }
}

/// The clean components of a path.
pub open spec fn path_components(s: Seq<char>) -> Seq<Seq<char>> {
    let (stack, cur) = scan_path(s);
    apply_piece(stack, cur)
}

/// Components joined by `/`.
pub open spec fn join_slash(parts: Seq<Seq<char>>) -> Seq<char>
    decreases parts.len(),
{
    if parts.len() == 0 {
        seq![]
    } else if parts.len() == 1 {
        parts[0]
    } else {
        join_slash(parts.drop_last()) + seq!['/'] + parts.last()
    }
}

/// The cleaned path: `.` removed, `..` resolved against what precedes it
/// (never above the start or the root), repeated and trailing separators
/// dropped; an absolute path stays absolute.
pub open spec fn clean_path_spec(s: Seq<char>) -> Seq<char> {
    if s.len() > 0 && s[0] == '/' {
        seq!['/'] + join_slash(path_components(s))
    } else {
        join_slash(path_components(s))
    }
}

/// `posix_style(clean_path(path))`.
pub open spec fn pretty_path_spec(s: Seq<char>) -> Seq<char> {
    replace_char(clean_path_spec(s), '\\', '/')
}

fn apply_piece_exec(stack: &mut Vec<Vec<char>>, piece: Vec<char>)
    ensures
        deep(final(stack)@) == apply_piece(deep(old(stack)@), piece@),
{
    let dot = vec!['.'];
    let dotdot = vec!['.', '.'];
    assert(deep(stack@).len() == stack@.len());
    assert(dot@ =~= seq!['.']);
    assert(dotdot@ =~= seq!['.', '.']);
    if piece.len() == 0 || seq_eq(piece.as_slice(), dot.as_slice()) {
    } else if seq_eq(piece.as_slice(), dotdot.as_slice()) {
        if stack.len() > 0 {
            let ghost before = deep(stack@);
            stack.pop();
            assert(deep(stack@) =~= before.drop_last());
        }
    } else {
        let ghost before = deep(stack@);
        stack.push(piece);
        assert(deep(stack@) =~= before.push(piece@));
    }
}

/// The views of a sequence of character vectors.
pub open spec fn deep(v: Seq<Vec<char>>) -> Seq<Seq<char>> {
    v.map_values(|x: Vec<char>| x@)
}

fn components(s: &[char]) -> (r: Vec<Vec<char>>)
    ensures
        deep(r@) == path_components(s@),
{
    let mut stack: Vec<Vec<char>> = Vec::new();
    let mut cur: Vec<char> = Vec::new();
    let mut i: usize = 0;
    while i < s.len()
        invariant
            i <= s@.len(),
            scan_path(s@.take(i as int)) == (deep(stack@), cur@),
        decreases s.len() - i,
    {
        let c = s[i];
        proof {
            assert(s@.take(i + 1).drop_last() =~= s@.take(i as int));
        }
        if c == '/' {
            let piece = cur;
            cur = Vec::new();
            apply_piece_exec(&mut stack, piece);
        } else {
            cur.push(c);
        }
        i = i + 1;
    }
    assert(s@.take(i as int) =~= s@);
    apply_piece_exec(&mut stack, cur);
    stack
}

fn join_parts(parts: &Vec<Vec<char>>) -> (r: Vec<char>)
    ensures
        r@ == join_slash(deep(parts@)),
{
    let mut r: Vec<char> = Vec::new();
    let mut i: usize = 0;
    while i < parts.len()
        invariant
            i <= parts@.len(),
            r@ == join_slash(deep(parts@.take(i as int))),
        decreases parts.len() - i,
    {
        proof {
            assert(deep(parts@.take(i + 1)).drop_last() =~= deep(parts@.take(i as int)));
        }
        if i > 0 {
            r.push('/');
        }
        push_all(&mut r, parts[i].as_slice());
        i = i + 1;
        proof {
            if i == 1 {
                assert(r@ =~= join_slash(deep(parts@.take(i as int))));
            }
        }
    }
    assert(parts@.take(i as int) =~= parts@);
    r
}

pub fn clean_path_chars(s: &[char]) -> (r: Vec<char>)
    ensures
        r@ == clean_path_spec(s@),
{
    let parts = components(s);
    let joined = join_parts(&parts);
    if s.len() > 0 && s[0] == '/' {
        let mut r = vec!['/'];
        push_all(&mut r, joined.as_slice());
        r
    } else {
        joined
    }
}

/// Lexical path cleaning, as `clean_path_spec` states.
pub fn clean_path(path: &str) -> (r: String)
    ensures
        r@ == clean_path_spec(path@),
{
    let v = chars_of(path);
    string_of(clean_path_chars(v.as_slice()).as_slice())
}

pub fn pretty_path_chars(s: &[char]) -> (r: Vec<char>)
    ensures
        r@ == pretty_path_spec(s@),
{
    let c = clean_path_chars(s);
    replaced(c.as_slice(), '\\', '/')
}

/// A cleaned path with forward slashes.
pub fn pretty_path(path: &str) -> (r: String)
    ensures
        r@ == pretty_path_spec(path@),
{
    let v = chars_of(path);
    string_of(pretty_path_chars(v.as_slice()).as_slice())
}

// ---------------------------------------------------------------------------
// Relative paths
// ---------------------------------------------------------------------------
/// Index of the last occurrence of `c`, if any.
pub open spec fn last_index_of(s: Seq<char>, c: char) -> Option<int>
    decreases s.len(),
{
    if s.len() == 0 {
        None
    } else if s.last() == c {
        Some(s.len() - 1)
    } else {
        last_index_of(s.drop_last(), c)
    }
}

pub proof fn lemma_last_index_of(s: Seq<char>, c: char)
    ensures
        last_index_of(s, c) matches Some(k) ==> 0 <= k < s.len() && s[k] == c && forall|j: int|
            k < j < s.len() ==> s[j] != c,
        last_index_of(s, c) is None ==> forall|j: int| 0 <= j < s.len() ==> s[j] != c,
    decreases s.len(),
{
    if s.len() > 0 && s.last() != c {
        lemma_last_index_of(s.drop_last(), c);
        assert forall|j: int| 0 <= j < s.len() - 1 implies s.drop_last()[j] == s[j] by {}
    }
}

pub fn rfind_char(s: &[char], c: char) -> (r: Option<usize>)
    ensures
        r matches Some(k) ==> last_index_of(s@, c) == Some(k as int),
        r is None ==> last_index_of(s@, c) is None,
{
    let mut n: usize = s.len();
    assert(s@.take(n as int) =~= s@);
    while n > 0
        invariant
            n <= s@.len(),
            last_index_of(s@, c) == last_index_of(s@.take(n as int), c),
        decreases n,
    {
        if s[n - 1] == c {
            return Some(n - 1);
        }
        assert(s@.take(n as int).drop_last() =~= s@.take(n - 1));
        n = n - 1;
    }
    None
}

/// A path without its trailing separators.
pub open spec fn trim_slashes(s: Seq<char>) -> Seq<char>
    decreases s.len(),
{
    if s.len() > 0 && s.last() == '/' {
        trim_slashes(s.drop_last())
    } else {
        s
    }
}

/// The directory part of a slug-like path, as `Path::parent` takes it:
/// trailing separators are ignored, then everything before the last `/`
/// with its own trailing separators dropped (`/` itself when only the root
/// is left), or nothing when there is no `/`.
pub open spec fn parent_text(s: Seq<char>) -> Seq<char> {
    let t = trim_slashes(s);
    match last_index_of(t, '/') {
        Some(k) => {
            let q = trim_slashes(t.take(k));
            if q.len() == 0 {
                seq!['/']
            } else {
                q
            }
        },
        None => seq![],
    }
}

/// `s` without its trailing separators.
pub fn trimmed_slashes(s: &[char]) -> (r: Vec<char>)
    ensures
        r@ == trim_slashes(s@),
{
    let mut n: usize = s.len();
    assert(s@.take(n as int) =~= s@);
    while n > 0 && s[n - 1] == '/'
        invariant
            n <= s@.len(),
            trim_slashes(s@) == trim_slashes(s@.take(n as int)),
        decreases n,
    {
        assert(s@.take(n as int).drop_last() =~= s@.take(n - 1));
        n = n - 1;
    }
    slice_to_vec(s, 0, n)
}

/// The directory part of `s`, as `parent_text` says.
pub fn parent_chars(s: &[char]) -> (r: Vec<char>)
    ensures
        r@ == parent_text(s@),
{
    let t = trimmed_slashes(s);
    proof {
        lemma_last_index_of(t@, '/');
    }
    match rfind_char(t.as_slice(), '/') {
        Some(k) => {
            let head = slice_to_vec(t.as_slice(), 0, k);
            assert(head@ =~= t@.take(k as int));
            let q = trimmed_slashes(head.as_slice());
            if q.len() == 0 {
                vec!['/']
            } else {
                q
            }
        },
        None => Vec::new(),
    }
}

/// `target` resolved against the directory of `current`.
pub open spec fn relative_spec(current: Seq<char>, target: Seq<char>) -> Seq<char> {
    let p = parent_text(current);
    if target.len() > 0 && target[0] == '/' {
        target
    } else if p.len() == 0 {
        target
    } else if p.last() == '/' {
        p + target
    } else {
        p + seq!['/'] + target
    }
}

pub fn relative_chars(current: &[char], target: &[char]) -> (r: Vec<char>)
    ensures
        r@ == relative_spec(current@, target@),
{
    if target.len() > 0 && target[0] == '/' {
        return slice_to_vec(target, 0, target.len());
    }
    let p = parent_chars(current);
    let mut r = p;
    if r.len() > 0 && r[r.len() - 1] != '/' {
        r.push('/');
    }
    push_all(&mut r, target);
    r
}

/// `target` taken relative to the directory that holds `current`; an
/// absolute target is kept as it is.
pub fn relative_to_current(current: &str, target: &str) -> (r: String)
    ensures
        r@ == relative_spec(current@, target@),
{
    let c = chars_of(current);
    let t = chars_of(target);
    string_of(relative_chars(c.as_slice(), t.as_slice()).as_slice())
}

// ---------------------------------------------------------------------------
// Slugs from paths
// ---------------------------------------------------------------------------
/// A leading `/`, or else a leading `./`, removed.
pub open spec fn strip_lead(s: Seq<char>) -> Seq<char> {
    if starts_with(s, seq!['/']) {
        s.skip(1)
    } else if starts_with(s, seq!['.', '/']) {
        s.skip(2)
    } else {
        s
    }
}

/// The slug and the known extension of a source path: a final `.md` or
/// `.typst` is split off, any other suffix stays part of the slug.
pub open spec fn slug_ext_spec(fullname: Seq<char>) -> (Seq<char>, Option<Ext>) {
    let s = strip_lead(fullname);
    match last_index_of(s, '.') {
        Some(k) => match parse_ext(s.skip(k + 1)) {
            Some(e) => (pretty_path_spec(s.take(k)), Some(e)),
            None => (pretty_path_spec(s), None),
        },
        None => (pretty_path_spec(s), None),
    }
}

pub fn slug_ext_chars(fullname: &[char]) -> (r: (Vec<char>, Option<Ext>))
    ensures
        r.0@ == slug_ext_spec(fullname@).0,
        r.1 == slug_ext_spec(fullname@).1,
{
    let slash = vec!['/'];
    let dot_slash = vec!['.', '/'];
    assert(slash@ =~= seq!['/']);
    assert(dot_slash@ =~= seq!['.', '/']);
    let s: Vec<char> = if has_prefix(fullname, slash.as_slice()) {
        let v = slice_to_vec(fullname, 1, fullname.len());
        assert(v@ =~= fullname@.skip(1));
        v
    } else if has_prefix(fullname, dot_slash.as_slice()) {
        let v = slice_to_vec(fullname, 2, fullname.len());
        assert(v@ =~= fullname@.skip(2));
        v
    } else {
        let v = slice_to_vec(fullname, 0, fullname.len());
        assert(v@ =~= fullname@);
        v
    };
    assert(s@ =~= strip_lead(fullname@));
    match rfind_char(s.as_slice(), '.') {
        Some(k) => {
            proof {
                lemma_last_index_of(s@, '.');
            }
            let ext_text = slice_to_vec(s.as_slice(), k + 1, s.len());
            match ext_of(ext_text.as_slice()) {
                Ok(e) => {
                    let base = slice_to_vec(s.as_slice(), 0, k);
                    assert(ext_text@ =~= s@.skip(k + 1));
                    assert(base@ =~= s@.take(k as int));
                    (pretty_path_chars(base.as_slice()), Some(e))
                },
                Err(_) => {
                    assert(ext_text@ =~= s@.skip(k + 1));
                    (pretty_path_chars(s.as_slice()), None)
                },
            }
        },
        None => (pretty_path_chars(s.as_slice()), None),
    }
}

/// Source path to slug and extension.
pub fn to_slug_ext(fullname: &str) -> (r: (String, Option<Ext>))
    ensures
        r.0@ == slug_ext_spec(fullname@).0,
        r.1 == slug_ext_spec(fullname@).1,
{
    let v = chars_of(fullname);
    let (s, e) = slug_ext_chars(v.as_slice());
    (string_of(s.as_slice()), e)
}

/// Source path to slug.
pub fn to_slug(fullname: &str) -> (r: String)
    ensures
        r@ == slug_ext_spec(fullname@).0,
{
    to_slug_ext(fullname).0
}

/// The slug of a section that `url` references from the section `current`:
/// an absolute url starts at the root of the tree, a relative one at the
/// directory of `current`.
pub open spec fn subsection_slug_spec(current: Seq<char>, url: Seq<char>) -> Seq<char> {
    slug_ext_spec(relative_spec(current, url)).0
}

pub fn subsection_slug(current: &Slug, url: &str) -> (r: Slug)
    ensures
        r@ == subsection_slug_spec(current@, url@),
{
    let c = current.chars();
    let u = chars_of(url);
    let rel = relative_chars(c.as_slice(), u.as_slice());
    let (s, _) = slug_ext_chars(rel.as_slice());
    Slug::from_chars(s.as_slice())
}

/// `path` with a trailing `expect` replaced by `target` (appended when
/// `path` does not end with `expect`).
pub open spec fn adjust_name_spec(path: Seq<char>, expect: Seq<char>, target: Seq<char>) -> Seq<
    char,
> {
    if ends_with(path, expect) {
        path.take(path.len() - expect.len()) + target
    } else {
        path + target
    }
}

pub fn adjust_name(path: &str, expect: &str, target: &str) -> (r: String)
    ensures
        r@ == adjust_name_spec(path@, expect@, target@),
{
    let p = chars_of(path);
    let e = chars_of(expect);
    let mut r: Vec<char> = if has_suffix(p.as_slice(), e.as_slice()) {
        slice_to_vec(p.as_slice(), 0, p.len() - e.len())
    } else {
        slice_to_vec(p.as_slice(), 0, p.len())
    };
    push_str(&mut r, target);
    string_of(r.as_slice())
}

} // verus!

verus! {

/// A component of a cleaned path: not empty, not `.` or `..`, and without
/// separators.
pub open spec fn clean_component(c: Seq<char>) -> bool {
    &&& c.len() > 0
    &&& c != seq!['.']
    &&& c != seq!['.', '.']
    &&& !c.contains('/')
    &&& !c.contains('\\')
}

proof fn lemma_scan_clean(s: Seq<char>)
    requires
        !s.contains('\\'),
    ensures
        forall|i: int| 0 <= i < scan_path(s).0.len() ==> clean_component(#[trigger] scan_path(s).0[i]),
        !scan_path(s).1.contains('/'),
        !scan_path(s).1.contains('\\'),
    decreases s.len(),
{
    if s.len() > 0 {
        let d = s.drop_last();
        assert(!d.contains('\\')) by {
            if d.contains('\\') {
                let k = choose|k: int| 0 <= k < d.len() && d[k] == '\\';
                assert(s[k] == '\\');
            }
        }
        lemma_scan_clean(d);
        let (stack, cur) = scan_path(d);
        assert(s.last() != '\\') by {
            assert(s[s.len() - 1] == s.last());
        }
        if s.last() != '/' {
            assert(!cur.push(s.last()).contains('/')) by {
                if cur.push(s.last()).contains('/') {
                    let k = choose|k: int| 0 <= k < cur.push(s.last()).len() && cur.push(s.last())[k] == '/';
                    if k < cur.len() {
                        assert(cur[k] == '/');
                    }
                }
            }
            assert(!cur.push(s.last()).contains('\\')) by {
                if cur.push(s.last()).contains('\\') {
                    let k = choose|k: int| 0 <= k < cur.push(s.last()).len() && cur.push(s.last())[k] == '\\';
                    if k < cur.len() {
                        assert(cur[k] == '\\');
                    }
                }
            }
        }
    }
}

proof fn lemma_scan_append_piece(p: Seq<char>, c: Seq<char>)
    requires
        !c.contains('/'),
    ensures
        scan_path(p + c) == (scan_path(p).0, scan_path(p).1 + c),
    decreases c.len(),
{
    if c.len() == 0 {
        assert(p + c =~= p);
        assert(scan_path(p).1 + c =~= scan_path(p).1);
    } else {
        let c1 = c.drop_last();
        assert(!c1.contains('/')) by {
            if c1.contains('/') {
                let k = choose|k: int| 0 <= k < c1.len() && c1[k] == '/';
                assert(c[k] == '/');
            }
        }
        lemma_scan_append_piece(p, c1);
        assert((p + c).drop_last() =~= p + c1);
        assert((p + c).last() == c.last());
        assert(c.last() != '/') by {
            assert(c[c.len() - 1] == c.last());
        }
        assert((scan_path(p).1 + c1).push(c.last()) =~= scan_path(p).1 + c);
    }
}

proof fn lemma_scan_join(p: Seq<char>, cs: Seq<Seq<char>>)
    requires
        scan_path(p).1.len() == 0,
        cs.len() > 0,
        forall|i: int| 0 <= i < cs.len() ==> clean_component(#[trigger] cs[i]),
    ensures
        scan_path(p + join_slash(cs)) == (scan_path(p).0 + cs.drop_last(), cs.last()),
    decreases cs.len(),
{
    let st = scan_path(p).0;
    if cs.len() == 1 {
        assert(clean_component(cs[0]));
        lemma_scan_append_piece(p, cs[0]);
        assert(scan_path(p).1 + cs[0] =~= cs[0]);
        assert(st + cs.drop_last() =~= st);
    } else {
        let ds = cs.drop_last();
        let c = cs.last();
        assert forall|i: int| 0 <= i < ds.len() implies clean_component(#[trigger] ds[i]) by {
            assert(ds[i] == cs[i]);
        }
        lemma_scan_join(p, ds);
        let q = p + join_slash(ds);
        let q1 = q + seq!['/'];
        assert(q1.drop_last() =~= q);
        assert(q1.last() == '/');
        assert(clean_component(ds.last())) by {
            assert(ds.last() == cs[cs.len() - 2]);
        }
        assert(scan_path(q1) == (st + ds.drop_last().push(ds.last()), Seq::<char>::empty()));
        assert(st + ds.drop_last().push(ds.last()) =~= st + ds);
        assert(clean_component(c)) by {
            assert(c == cs[cs.len() - 1]);
        }
        lemma_scan_append_piece(q1, c);
        assert(p + join_slash(cs) =~= q1 + c);
        assert(Seq::<char>::empty() + c =~= c);
    }
}

/// Reading `p` and then the clean components `cs` joined by `/` gives the
/// components of `p` followed by `cs`, when `p` ends at a separator.
proof fn lemma_components_join(p: Seq<char>, cs: Seq<Seq<char>>)
    requires
        scan_path(p).1.len() == 0,
        forall|i: int| 0 <= i < cs.len() ==> clean_component(#[trigger] cs[i]),
    ensures
        path_components(p + join_slash(cs)) == scan_path(p).0 + cs,
{
    if cs.len() == 0 {
        assert(p + join_slash(cs) =~= p);
        assert(scan_path(p).0 + cs =~= scan_path(p).0);
    } else {
        lemma_scan_join(p, cs);
        assert(clean_component(cs.last())) by {
            assert(cs.last() == cs[cs.len() - 1]);
        }
        assert((scan_path(p).0 + cs.drop_last()).push(cs.last()) =~= scan_path(p).0 + cs);
    }
}

proof fn lemma_join_no_char(cs: Seq<Seq<char>>, x: char)
    requires
        x != '/',
        forall|i: int| 0 <= i < cs.len() ==> !(#[trigger] cs[i]).contains(x),
    ensures
        !join_slash(cs).contains(x),
    decreases cs.len(),
{
    if cs.len() > 1 {
        let ds = cs.drop_last();
        assert forall|i: int| 0 <= i < ds.len() implies !(#[trigger] ds[i]).contains(x) by {
            assert(ds[i] == cs[i]);
        }
        lemma_join_no_char(ds, x);
        let j = join_slash(ds) + seq!['/'] + cs.last();
        assert(!cs.last().contains(x)) by {
            assert(cs.last() == cs[cs.len() - 1]);
        }
        if j.contains(x) {
            let k = choose|k: int| 0 <= k < j.len() && j[k] == x;
            if k < join_slash(ds).len() {
                assert(join_slash(ds)[k] == x);
            } else if k > join_slash(ds).len() {
                assert(cs.last()[k - join_slash(ds).len() - 1] == x);
            }
        }
    } else if cs.len() == 1 {
        assert(!cs[0].contains(x));
    }
}

/// Cleaning is idempotent and leaves no `.` or `..` behind: on a path
/// without `\`, the cleaned path has no `\`, its components are all
/// proper names (none empty, `.` or `..`), it is the `/`-join of those
/// components (after a `/` when the path is absolute), and cleaning it again
/// changes nothing.
pub proof fn law_pretty_path(s: Seq<char>)
    requires
        !s.contains('\\'),
    ensures
        !pretty_path_spec(s).contains('\\'),
        forall|i: int|
            0 <= i < path_components(s).len() ==> clean_component(#[trigger] path_components(s)[i]),
        path_components(pretty_path_spec(s)) == path_components(s),
        pretty_path_spec(pretty_path_spec(s)) == pretty_path_spec(s),
{
    lemma_scan_clean(s);
    let (stack, cur) = scan_path(s);
    let cs = path_components(s);
    assert forall|i: int| 0 <= i < cs.len() implies clean_component(#[trigger] cs[i]) by {
        if i < stack.len() {
            assert(clean_component(stack[i]));
        } else {
            assert(cs == stack.push(cur));
            assert(cs[i] == cur);
        }
    }
    assert forall|i: int| 0 <= i < cs.len() implies !(#[trigger] cs[i]).contains('\\') by {
        assert(clean_component(cs[i]));
    }
    lemma_join_no_char(cs, '\\');
    let j = join_slash(cs);
    let abs = s.len() > 0 && s[0] == '/';
    let c = clean_path_spec(s);
    assert(!c.contains('\\')) by {
        if abs {
            if c.contains('\\') {
                let k = choose|k: int| 0 <= k < c.len() && c[k] == '\\';
                assert(k > 0);
                assert(j[k - 1] == '\\');
            }
        }
    }
    assert(replace_char(c, '\\', '/') =~= c);
    // The cleaned path reads back to the same components.
    assert(scan_path(Seq::<char>::empty()) == (Seq::<Seq<char>>::empty(), Seq::<char>::empty()));
    if abs {
        let sl = seq!['/'];
        assert(sl.drop_last() =~= Seq::<char>::empty());
        assert(scan_path(sl) == (Seq::<Seq<char>>::empty(), Seq::<char>::empty()));
        lemma_components_join(sl, cs);
        assert(Seq::<Seq<char>>::empty() + cs =~= cs);
        assert(c[0] == '/');
    } else {
        lemma_components_join(Seq::<char>::empty(), cs);
        assert(Seq::<char>::empty() + j =~= j);
        assert(Seq::<Seq<char>>::empty() + cs =~= cs);
        if c.len() > 0 && c[0] == '/' {
            assert(cs.len() > 0);
            lemma_join_first(cs);
            assert(clean_component(cs[0]));
            assert(cs[0][0] == '/');
        }
    }
    assert(path_components(c) == cs);
    assert(clean_path_spec(c) == c);
}

proof fn lemma_join_first(cs: Seq<Seq<char>>)
    requires
        cs.len() > 0,
        cs[0].len() > 0,
    ensures
        join_slash(cs).len() > 0,
        join_slash(cs)[0] == cs[0][0],
    decreases cs.len(),
{
    if cs.len() > 1 {
        lemma_join_first(cs.drop_last());
    }
}

proof fn lemma_scan_same_prefix(a1: Seq<char>, a2: Seq<char>, b: Seq<char>)
    requires
        scan_path(a1) == scan_path(a2),
    ensures
        scan_path(a1 + b) == scan_path(a2 + b),
    decreases b.len(),
{
    if b.len() == 0 {
        assert(a1 + b =~= a1);
        assert(a2 + b =~= a2);
    } else {
        lemma_scan_same_prefix(a1, a2, b.drop_last());
        assert((a1 + b).drop_last() =~= a1 + b.drop_last());
        assert((a2 + b).drop_last() =~= a2 + b.drop_last());
        assert((a1 + b).last() == b.last());
        assert((a2 + b).last() == b.last());
    }
}

/// A `./` segment after a separator (or at the start) changes no cleaned
/// path: `p` + `./` + `u` cleans as `p` + `u`, where `p` is empty or ends
/// with `/`, and `u` does not start with `/` when `p` is empty.
pub proof fn lemma_dot_segment(p: Seq<char>, u: Seq<char>)
    requires
        p.len() == 0 || p.last() == '/',
        p.len() == 0 ==> (u.len() == 0 || u[0] != '/'),
    ensures
        pretty_path_spec(p + seq!['.', '/'] + u) == pretty_path_spec(p + u),
{
    assert(scan_path(p).1.len() == 0) by {
        if p.len() > 0 {
            assert(p.last() == '/');
        }
    }
    lemma_scan_append_piece(p, seq!['.']);
    let pd = p + seq!['.'];
    let pds = p + seq!['.', '/'];
    assert(pds.drop_last() =~= pd);
    assert(pds.last() == '/');
    assert(scan_path(p).1 + seq!['.'] =~= seq!['.']);
    assert(scan_path(pds) == scan_path(p));
    lemma_scan_same_prefix(pds, p, u);
    assert(p + seq!['.', '/'] + u =~= pds + u);
    let x1 = p + seq!['.', '/'] + u;
    let x2 = p + u;
    assert(path_components(x1) == path_components(x2));
    if p.len() > 0 {
        assert(x1[0] == p[0] && x2[0] == p[0]);
    } else {
        assert(x1[0] == '.');
        assert(x2 =~= u);
    }
    assert(clean_path_spec(x1) == clean_path_spec(x2));
}

} // verus!
