//! Link classification and url resolution for links written in sections.
use vstd::prelude::*;

use crate::section::SectionOption;
use crate::slug::{
    pretty_path_chars, pretty_path_spec, relative_chars, relative_spec, replace_char, replaced,
    Slug,
};
use crate::text::{
    chars_of, ends_with, eq_str, find_char, find_from, has_prefix, has_prefix_str, has_suffix,
    lowercase, ascii_lowercase, push_all, slice_to_vec, starts_with, string_of, trim, trimmed,
    is_ascii_alnum, ascii_alnum,
};

verus! {

// ---------------------------------------------------------------------------
// Schemes
// ---------------------------------------------------------------------------
/// Index of the first `/`, `?` or `#` at or after `i`, or the length.
pub open spec fn first_delim(s: Seq<char>, i: int) -> int
    decreases s.len() - i,
{
    if i < 0 || i >= s.len() {
        s.len() as int
    } else if s[i] == '/' || s[i] == '?' || s[i] == '#' {
        i
    } else {
        first_delim(s, i + 1)
    }
}

pub open spec fn is_scheme_char(c: char) -> bool {
    is_ascii_alnum(c) || c == '+' || c == '-' || c == '.'
}

/// The lower-cased scheme of a url: the text before its first `:` when that
/// is not empty, comes before any `/`, `?` or `#`, and holds only ASCII
/// letters, digits, `+`, `-` and `.`.
pub open spec fn scheme_spec(u: Seq<char>) -> Option<Seq<char>> {
    match find_from(u, seq![':'], 0) {
        None => None,
        Some(e) => if e == 0 || e > first_delim(u, 0) {
            None
        } else if forall|j: int| 0 <= j < e ==> is_scheme_char(#[trigger] u[j]) {
            Some(lowercase(u.take(e)))
        } else {
            None
        },
    }
}

fn first_delim_exec(s: &[char]) -> (r: usize)
    ensures
        r == first_delim(s@, 0),
{
    let mut i: usize = 0;
    while i < s.len()
        invariant
            i <= s@.len(),
            first_delim(s@, 0) == first_delim(s@, i as int),
        decreases s.len() - i,
    {
        if s[i] == '/' || s[i] == '?' || s[i] == '#' {
            return i;
        }
        i = i + 1;
    }
    i
}

fn scheme_of(u: &[char]) -> (r: Option<Vec<char>>)
    ensures
        match scheme_spec(u@) {
            Some(s) => r matches Some(v) && v@ == s,
            None => r is None,
        },
{
    let e = match find_char(u, ':', 0) {
        Some(e) => e,
        None => return None,
    };
    if e == 0 {
        return None;
    }
    let d = first_delim_exec(u);
    assert(find_from(u@, seq![':'], 0) == Some(e as int));
    if e > d {
        assert(scheme_spec(u@) is None);
        return None;
    }
    let mut j: usize = 0;
    while j < e
        invariant
            0 < e <= u@.len(),
            e <= first_delim(u@, 0),
            find_from(u@, seq![':'], 0) == Some(e as int),
            j <= e,
            forall|k: int| 0 <= k < j ==> is_scheme_char(#[trigger] u@[k]),
        decreases e - j,
    {
        let c = u[j];
        if !(ascii_alnum(c) || c == '+' || c == '-' || c == '.') {
            assert(!is_scheme_char(u@[j as int]));
            return None;
        }
        j = j + 1;
    }
    let head = slice_to_vec(u, 0, e);
    assert(head@ =~= u@.take(e as int));
    Some(ascii_lowercase(head.as_slice()))
}

/// The lower-cased scheme of a url, if it has one.
pub fn scheme_name(url: &str) -> (r: Option<String>)
    ensures
        match scheme_spec(url@) {
            Some(s) => r matches Some(v) && v@ == s,
            None => r is None,
        },
{
    let u = chars_of(url);
    match scheme_of(u.as_slice()) {
        Some(v) => Some(string_of(v.as_slice())),
        None => None,
    }
}

pub open spec fn allowed_scheme(s: Seq<char>) -> bool {
    s == "http"@ || s == "https"@ || s == "ftp"@ || s == "mailto"@
}

pub open spec fn unsafe_scheme(s: Seq<char>) -> bool {
    s == "javascript"@ || s == "vbscript"@ || s == "data"@ || s == "file"@
}

/// `http`, `https`, `ftp` or `mailto`.
pub fn is_allowed_scheme(scheme: &str) -> (r: bool)
    ensures
        r == allowed_scheme(scheme@),
{
    let s = chars_of(scheme);
    is_allowed_scheme_chars(s.as_slice())
}

fn is_allowed_scheme_chars(s: &[char]) -> (r: bool)
    ensures
        r == allowed_scheme(s@),
{
    eq_str(s, "http") || eq_str(s, "https") || eq_str(s, "ftp") || eq_str(s, "mailto")
}

/// `javascript`, `vbscript`, `data` or `file`.
pub fn is_unsafe_scheme(scheme: &str) -> (r: bool)
    ensures
        r == unsafe_scheme(scheme@),
{
    let s = chars_of(scheme);
    is_unsafe_scheme_chars(s.as_slice())
}

fn is_unsafe_scheme_chars(s: &[char]) -> (r: bool)
    ensures
        r == unsafe_scheme(s@),
{
    eq_str(s, "javascript") || eq_str(s, "vbscript") || eq_str(s, "data") || eq_str(s, "file")
}

/// A link target may be followed: empty, a fragment, scheme-less, or with a
/// scheme that is allowed and not unsafe.
pub open spec fn safe_target_spec(url: Seq<char>) -> bool {
    let t = trim(url);
    if t.len() == 0 || t[0] == '#' {
        true
    } else {
        match scheme_spec(t) {
            None => true,
            Some(s) => !unsafe_scheme(s) && allowed_scheme(s),
        }
    }
}

pub fn is_safe_link_target(url: &str) -> (r: bool)
    ensures
        r == safe_target_spec(url@),
{
    let u = chars_of(url);
    let t = trimmed(u.as_slice());
    if t.len() == 0 || t[0] == '#' {
        return true;
    }
    match scheme_of(t.as_slice()) {
        None => true,
        Some(s) => !is_unsafe_scheme_chars(s.as_slice()) && is_allowed_scheme_chars(s.as_slice()),
    }
}

/// A link leaves the site: it starts with `www.` or has an allowed scheme.
pub open spec fn external_spec(url: Seq<char>) -> bool {
    let t = trim(url);
    starts_with(t, "www."@) || match scheme_spec(t) {
        Some(s) => allowed_scheme(s),
        None => false,
    }
}

fn is_external_chars(u: &[char]) -> (r: bool)
    ensures
        r == external_spec(u@),
{
    let t = trimmed(u);
    if has_prefix_str(t.as_slice(), "www.") {
        return true;
    }
    match scheme_of(t.as_slice()) {
        Some(s) => is_allowed_scheme_chars(s.as_slice()),
        None => false,
    }
}

pub fn is_external_link(url: &str) -> (r: bool)
    ensures
        r == external_spec(url@),
{
    let u = chars_of(url);
    is_external_chars(u.as_slice())
}

// ---------------------------------------------------------------------------
// Local, asset and inline-typst links
// ---------------------------------------------------------------------------
/// `inline` or a url starting with `inline-`.
pub open spec fn inline_typst_spec(url: Seq<char>) -> bool {
    url == "inline"@ || starts_with(url, "inline-"@)
}

fn is_inline_typst_chars(u: &[char]) -> (r: bool)
    ensures
        r == inline_typst_spec(u@),
{
    eq_str(u, "inline") || has_prefix_str(u, "inline-")
}

/// Whether a link destination asks for inline typst rendering.
pub fn is_inline_typst(dest_url: &str) -> (r: bool)
    ensures
        r == inline_typst_spec(dest_url@),
{
    let u = chars_of(dest_url);
    is_inline_typst_chars(u.as_slice())
}

/// Number of leading `./` pairs.
pub open spec fn dot_slash_prefixes(s: Seq<char>) -> nat
    decreases s.len(),
{
    if s.len() >= 2 && s[0] == '.' && s[1] == '/' {
        1 + dot_slash_prefixes(s.skip(2))
    } else {
        0
    }
}

/// Number of leading `/`.
pub open spec fn lead_slashes(s: Seq<char>) -> nat
    decreases s.len(),
{
    if s.len() > 0 && s[0] == '/' {
        1 + lead_slashes(s.drop_first())
    } else {
        0
    }
}

/// Number of trailing `/`.
pub open spec fn trail_slashes(s: Seq<char>) -> nat
    decreases s.len(),
{
    if s.len() > 0 && s.last() == '/' {
        1 + trail_slashes(s.drop_last())
    } else {
        0
    }
}

/// `str::trim_matches('/')`.
pub open spec fn trim_slashes(s: Seq<char>) -> Seq<char> {
    let a = s.skip(lead_slashes(s) as int);
    a.take(a.len() - trail_slashes(a))
}

/// Backslashes turned into slashes, leading `./` removed, surrounding `/`
/// trimmed.
pub open spec fn normalize_prefix_spec(path: Seq<char>) -> Seq<char> {
    let n = replace_char(path, '\\', '/');
    let m = n.skip((2 * dot_slash_prefixes(n)) as int);
    trim_slashes(m)
}

proof fn lemma_dot_slash_bound(s: Seq<char>)
    ensures
        2 * dot_slash_prefixes(s) <= s.len(),
    decreases s.len(),
{
    if s.len() >= 2 && s[0] == '.' && s[1] == '/' {
        lemma_dot_slash_bound(s.skip(2));
    }
}

proof fn lemma_lead_slashes_bound(s: Seq<char>)
    ensures
        lead_slashes(s) <= s.len(),
    decreases s.len(),
{
    if s.len() > 0 && s[0] == '/' {
        lemma_lead_slashes_bound(s.drop_first());
    }
}

proof fn lemma_trail_slashes_bound(s: Seq<char>)
    ensures
        trail_slashes(s) <= s.len(),
    decreases s.len(),
{
    if s.len() > 0 && s.last() == '/' {
        lemma_trail_slashes_bound(s.drop_last());
    }
}

fn trim_slashes_exec(s: &[char]) -> (r: Vec<char>)
    ensures
        r@ == trim_slashes(s@),
{
    let mut i: usize = 0;
    assert(s@.skip(0) =~= s@);
    while i < s.len() && s[i] == '/'
        invariant
            i <= s@.len(),
            lead_slashes(s@) == i + lead_slashes(s@.skip(i as int)),
        decreases s.len() - i,
    {
        assert(s@.skip(i as int).drop_first() =~= s@.skip(i + 1));
        i = i + 1;
    }
    let a = slice_to_vec(s, i, s.len());
    assert(a@ =~= s@.skip(i as int));
    let mut n: usize = a.len();
    assert(a@.take(n as int) =~= a@);
    while n > 0 && a[n - 1] == '/'
        invariant
            n <= a@.len(),
            trail_slashes(a@) == (a@.len() - n) + trail_slashes(a@.take(n as int)),
        decreases n,
    {
        assert(a@.take(n as int).drop_last() =~= a@.take(n - 1));
        n = n - 1;
    }
    slice_to_vec(a.as_slice(), 0, n)
}

fn dot_slash_len(n: &[char]) -> (i: usize)
    ensures
        i == 2 * dot_slash_prefixes(n@),
        i <= n@.len(),
{
    let mut i: usize = 0;
    proof {
        assert(n@.skip(0) =~= n@);
        lemma_dot_slash_bound(n@);
    }
    loop
        invariant
            i <= n@.len(),
            2 * dot_slash_prefixes(n@) == i + 2 * dot_slash_prefixes(n@.skip(i as int)),
        decreases n.len() - i,
    {
        let ghost rest = n@.skip(i as int);
        if i + 1 < n.len() && n[i] == '.' && n[i + 1] == '/' {
            proof {
                assert(rest[0] == '.' && rest[1] == '/');
                assert(rest.skip(2) =~= n@.skip(i + 2));
            }
            i = i + 2;
        } else {
            proof {
                if rest.len() >= 2 {
                    assert(rest[0] == n@[i as int]);
                    assert(rest[1] == n@[i + 1]);
                }
            }
            return i;
        }
    }
}

fn normalize_prefix_chars(path: &[char]) -> (r: Vec<char>)
    ensures
        r@ == normalize_prefix_spec(path@),
{
    let n = replaced(path, '\\', '/');
    let i = dot_slash_len(n.as_slice());
    let m = slice_to_vec(n.as_slice(), i, n.len());
    assert(m@ =~= n@.skip((2 * dot_slash_prefixes(n@)) as int));
    trim_slashes_exec(m.as_slice())
}

/// Backslashes turned into slashes, leading `./` removed, surrounding `/`
/// trimmed.
pub fn normalize_path_prefix(path: &str) -> (r: String)
    ensures
        r@ == normalize_prefix_spec(path@),
{
    let p = chars_of(path);
    string_of(normalize_prefix_chars(p.as_slice()).as_slice())
}

/// The url names the assets directory or a file below it.
pub open spec fn assets_file_spec(url: Seq<char>, assets: Seq<char>) -> bool {
    let root = normalize_prefix_spec(assets);
    let u = normalize_prefix_spec(url);
    root.len() > 0 && (u == root || starts_with(u, root.push('/')))
}

fn assets_file_chars(url: &[char], assets: &[char]) -> (r: bool)
    ensures
        r == assets_file_spec(url@, assets@),
{
    let root = normalize_prefix_chars(assets);
    if root.len() == 0 {
        return false;
    }
    let u = normalize_prefix_chars(url);
    let mut root_slash = slice_to_vec(root.as_slice(), 0, root.len());
    root_slash.push('/');
    assert(root@.subrange(0, root@.len() as int) =~= root@);
    crate::text::seq_eq(u.as_slice(), root.as_slice()) || has_prefix(
        u.as_slice(),
        root_slash.as_slice(),
    )
}

/// Whether the url points into the assets directory `assets_dir_without_root`.
pub fn is_assets_file_with_assets_root(url: &str, assets_dir_without_root: &str) -> (r: bool)
    ensures
        r == assets_file_spec(url@, assets_dir_without_root@),
{
    let u = chars_of(url);
    let a = chars_of(assets_dir_without_root);
    assets_file_chars(u.as_slice(), a.as_slice())
}

/// A link to another section: not a directory, not inline typst, not
/// external, not an asset, and without any `:`.
pub open spec fn local_link_spec(url: Seq<char>, assets: Seq<char>) -> bool {
    &&& !ends_with(url, seq!['/'])
    &&& !inline_typst_spec(url)
    &&& !external_spec(url)
    &&& !assets_file_spec(url, assets)
    &&& !url.contains(':')
}

pub fn is_local_link_with_assets(url: &str, assets_dir_without_root: &str) -> (r: bool)
    ensures
        r == local_link_spec(url@, assets_dir_without_root@),
{
    let u = chars_of(url);
    let a = chars_of(assets_dir_without_root);
    let slash = vec!['/'];
    assert(slash@ =~= seq!['/']);
    if has_suffix(u.as_slice(), slash.as_slice()) {
        return false;
    }
    if is_inline_typst_chars(u.as_slice()) || is_external_chars(u.as_slice()) || assets_file_chars(
        u.as_slice(),
        a.as_slice(),
    ) {
        return false;
    }
    let colon = find_char(u.as_slice(), ':', 0);
    proof {
        if colon is None {
            assert forall|j: int| 0 <= j < u@.len() implies u@[j] != ':' by {}
        } else {
            let k = colon->0;
            assert(u@[k as int] == ':');
        }
    }
    colon.is_none()
}

// ---------------------------------------------------------------------------
// Url resolution
// ---------------------------------------------------------------------------
/// An absolute url is taken from the tree root, a relative one from the
/// directory of `current`; the result is cleaned and starts with `/`.
pub open spec fn section_url_spec(raw: Seq<char>, current: Seq<char>) -> Seq<char> {
    let path = if raw.len() > 0 && raw[0] == '/' {
        raw.skip(lead_slashes(raw) as int)
    } else {
        relative_spec(current, raw)
    };
    seq!['/'] + pretty_path_spec(path)
}

/// `s` without its leading slashes.
pub(crate) fn skip_lead_slashes(s: &[char]) -> (r: Vec<char>)
    ensures
        r@ == s@.skip(lead_slashes(s@) as int),
{
    let mut i: usize = 0;
    assert(s@.skip(0) =~= s@);
    while i < s.len() && s[i] == '/'
        invariant
            i <= s@.len(),
            lead_slashes(s@) == i + lead_slashes(s@.skip(i as int)),
        decreases s.len() - i,
    {
        assert(s@.skip(i as int).drop_first() =~= s@.skip(i + 1));
        i = i + 1;
    }
    let p = slice_to_vec(s, i, s.len());
    assert(p@ =~= s@.skip(i as int));
    p
}

fn section_url_chars(raw: &[char], current: &[char]) -> (r: Vec<char>)
    ensures
        r@ == section_url_spec(raw@, current@),
{
    let path = if raw.len() > 0 && raw[0] == '/' {
        skip_lead_slashes(raw)
    } else {
        relative_chars(current, raw)
    };
    let pretty = pretty_path_chars(path.as_slice());
    let mut r = vec!['/'];
    push_all(&mut r, pretty.as_slice());
    r
}

/// The url of a section referenced by `raw_url` from `current_slug`.
pub fn resolve_section_url(raw_url: &str, current_slug: &Slug) -> (r: String)
    ensures
        r@ == section_url_spec(raw_url@, current_slug@),
{
    let raw = chars_of(raw_url);
    let cur = current_slug.chars();
    string_of(section_url_chars(raw.as_slice(), cur.as_slice()).as_slice())
}

/// `/<trees>/path` becomes `/path`; other paths are kept.
pub open spec fn relocate_spec(path: Seq<char>, trees: Seq<char>) -> Seq<char> {
    let t = trim_slashes(trees);
    if t.len() == 0 {
        path
    } else if starts_with(path, seq!['/'] + t) {
        path.skip((t.len() + 1) as int)
    } else {
        path
    }
}

fn relocate_chars(path: &[char], trees: &[char]) -> (r: Vec<char>)
    ensures
        r@ == relocate_spec(path@, trees@),
{
    let t = trim_slashes_exec(trees);
    if t.len() == 0 {
        return slice_to_vec(path, 0, path.len());
    }
    let mut prefix = vec!['/'];
    assert(prefix@ =~= seq!['/']);
    push_all(&mut prefix, t.as_slice());
    assert(path@.subrange(0, path@.len() as int) =~= path@);
    if has_prefix(path, prefix.as_slice()) {
        let r = slice_to_vec(path, prefix.len(), path.len());
        assert(r@ =~= path@.skip((t@.len() + 1) as int));
        r
    } else {
        slice_to_vec(path, 0, path.len())
    }
}

/// Relocates `/<trees>/path` to `/path`.
pub fn relocate_trees_path_with_trees_root(path: &str, trees_dir_without_root: &str) -> (r:
    String)
    ensures
        r@ == relocate_spec(path@, trees_dir_without_root@),
{
    let p = chars_of(path);
    let t = chars_of(trees_dir_without_root);
    let r = relocate_chars(p.as_slice(), t.as_slice());
    assert(p@.subrange(0, p@.len() as int) =~= p@);
    string_of(r.as_slice())
}

/// The url of an embedded section.
pub open spec fn embed_url_spec(raw: Seq<char>, current: Seq<char>, trees: Seq<char>) -> Seq<char> {
    relocate_spec(section_url_spec(raw, current), trees)
}

pub fn resolve_embed_url_with_trees_root(
    raw_url: &str,
    current_slug: &Slug,
    trees_dir_without_root: &str,
) -> (r: String)
    ensures
        r@ == embed_url_spec(raw_url@, current_slug@, trees_dir_without_root@),
{
    let raw = chars_of(raw_url);
    let cur = current_slug.chars();
    let t = chars_of(trees_dir_without_root);
    let s = section_url_chars(raw.as_slice(), cur.as_slice());
    string_of(relocate_chars(s.as_slice(), t.as_slice()).as_slice())
}

/// Leading `/` removed, then a final `.md` extension of the last component
/// dropped, the path cleaned, and `/` put in front.
pub open spec fn strip_md_spec(url: Seq<char>) -> Seq<char> {
    let p = url.skip(lead_slashes(url) as int);
    let c = crate::slug::clean_path_spec(p);
    let stripped = if ends_with(c, ".md"@) && c.len() >= 4 && c[c.len() - 4] != '/' {
        c.take(c.len() - 3)
    } else {
        c
    };
    seq!['/'] + pretty_path_spec(stripped)
}

fn strip_md_chars(url: &[char]) -> (r: Vec<char>)
    ensures
        r@ == strip_md_spec(url@),
{
    let mut i: usize = 0;
    assert(url@.skip(0) =~= url@);
    while i < url.len() && url[i] == '/'
        invariant
            i <= url@.len(),
            lead_slashes(url@) == i + lead_slashes(url@.skip(i as int)),
        decreases url.len() - i,
    {
        assert(url@.skip(i as int).drop_first() =~= url@.skip(i + 1));
        i = i + 1;
    }
    let p = slice_to_vec(url, i, url.len());
    assert(p@ =~= url@.skip(i as int));
    let c = crate::slug::clean_path_chars(p.as_slice());
    let md = chars_of(".md");
    let stripped = if crate::text::has_suffix(c.as_slice(), md.as_slice()) && c.len() >= 4 && c[c.len()
        - 4] != '/' {
        slice_to_vec(c.as_slice(), 0, c.len() - 3)
    } else {
        slice_to_vec(c.as_slice(), 0, c.len())
    };
    proof {
        reveal_strlit(".md");
        assert(c@.subrange(0, c@.len() as int) =~= c@);
    }
    let pretty = pretty_path_chars(stripped.as_slice());
    let mut r = vec!['/'];
    push_all(&mut r, pretty.as_slice());
    r
}

/// The url of a local link: resolved, without a `.md` extension, relocated.
pub open spec fn local_url_spec(raw: Seq<char>, current: Seq<char>, trees: Seq<char>) -> Seq<char> {
    relocate_spec(strip_md_spec(section_url_spec(raw, current)), trees)
}

pub fn resolve_local_link_url_with_trees_root(
    raw_url: &str,
    current_slug: &Slug,
    trees_dir_without_root: &str,
) -> (r: String)
    ensures
        r@ == local_url_spec(raw_url@, current_slug@, trees_dir_without_root@),
{
    let raw = chars_of(raw_url);
    let cur = current_slug.chars();
    let t = chars_of(trees_dir_without_root);
    let s = section_url_chars(raw.as_slice(), cur.as_slice());
    let s = strip_md_chars(s.as_slice());
    string_of(relocate_chars(s.as_slice(), t.as_slice()).as_slice())
}

/// Drops the `.md` extension of a url.
pub fn strip_markdown_extension(url: &str) -> (r: String)
    ensures
        r@ == strip_md_spec(url@),
{
    let u = chars_of(url);
    string_of(strip_md_chars(u.as_slice()).as_slice())
}

/// The path of an included file, relative to the site root.
pub open spec fn include_url_spec(raw: Seq<char>, current: Seq<char>) -> Seq<char> {
    if raw.len() > 0 && raw[0] == '/' {
        pretty_path_spec(raw.skip(lead_slashes(raw) as int))
    } else {
        pretty_path_spec(relative_spec(current, raw))
    }
}

pub fn resolve_include_url(raw_url: &str, current_slug: &Slug) -> (r: String)
    ensures
        r@ == include_url_spec(raw_url@, current_slug@),
{
    let raw = chars_of(raw_url);
    if raw.len() > 0 && raw[0] == '/' {
        let p = skip_lead_slashes(raw.as_slice());
        string_of(pretty_path_chars(p.as_slice()).as_slice())
    } else {
        let cur = current_slug.chars();
        let rel = relative_chars(cur.as_slice(), raw.as_slice());
        string_of(pretty_path_chars(rel.as_slice()).as_slice())
    }
}

// ---------------------------------------------------------------------------
// Link destinations and embed options
// ---------------------------------------------------------------------------
/// `url#:action` split into the url and the action.
pub open spec fn url_action_spec(dest: Seq<char>) -> (Seq<char>, Seq<char>) {
    match find_from(dest, seq!['#', ':'], 0) {
        Some(p) => (dest.take(p), dest.skip(p + 2)),
        None => (dest, seq![]),
    }
}

pub fn url_action(dest_url: &str) -> (r: (String, String))
    ensures
        r.0@ == url_action_spec(dest_url@).0,
        r.1@ == url_action_spec(dest_url@).1,
{
    let d = chars_of(dest_url);
    let pat = vec!['#', ':'];
    assert(pat@ =~= seq!['#', ':']);
    match crate::text::find_seq(d.as_slice(), pat.as_slice(), 0) {
        Some(p) => {
            proof {
                crate::text::lemma_find_from_props(d@, pat@, 0);
                assert(crate::text::occurs_at(d@, pat@, p as int));
                assert(p + 2 <= d@.len());
                assert(p + 2 <= d.len());
            }
            let a = slice_to_vec(d.as_slice(), 0, p);
            let b = slice_to_vec(d.as_slice(), p + 2, d.len());
            assert(a@ =~= d@.take(p as int));
            assert(b@ =~= d@.skip(p + 2));
            (string_of(a.as_slice()), string_of(b.as_slice()))
        },
        None => (string_of(d.as_slice()), String::new()),
    }
}

/// Number of leading option characters `+`, `-`, `.`.
pub open spec fn option_prefix_len(s: Seq<char>) -> nat
    decreases s.len(),
{
    if s.len() > 0 && (s[0] == '+' || s[0] == '-' || s[0] == '.') {
        1 + option_prefix_len(s.drop_first())
    } else {
        0
    }
}

/// The options an embed title starts with: `+` numbers the section, `-`
/// closes it, `.` keeps it out of the catalog.
pub open spec fn embed_option_spec(s: Seq<char>) -> SectionOption {
    let p = s.take(option_prefix_len(s) as int);
    SectionOption {
        numbering: p.contains('+'),
        details_open: !p.contains('-'),
        catalog: !p.contains('.'),
    }
}

/// Splits the leading option characters off an embed title.
pub fn parse_embed_text(embed_text: &str) -> (r: (SectionOption, String))
    ensures
        r.0 == embed_option_spec(embed_text@),
        r.1@ == embed_text@.skip(option_prefix_len(embed_text@) as int),
{
    let s = chars_of(embed_text);
    let mut numbering = false;
    let mut details_open = true;
    let mut catalog = true;
    let mut i: usize = 0;
    assert(s@.skip(0) =~= s@);
    while i < s.len() && (s[i] == '+' || s[i] == '-' || s[i] == '.')
        invariant
            i <= s@.len(),
            option_prefix_len(s@) == i + option_prefix_len(s@.skip(i as int)),
            numbering == s@.take(i as int).contains('+'),
            details_open == !s@.take(i as int).contains('-'),
            catalog == !s@.take(i as int).contains('.'),
        decreases s.len() - i,
    {
        let c = s[i];
        if c == '+' {
            numbering = true;
        } else if c == '-' {
            details_open = false;
        } else {
            catalog = false;
        }
        proof {
            assert(s@.skip(i as int).drop_first() =~= s@.skip(i + 1));
            let t = s@.take(i + 1);
            assert(t =~= s@.take(i as int).push(c));
            assert(t[i as int] == c);
            assert forall|x: char| t.contains(x) <==> (s@.take(i as int).contains(x) || x == c) by {
                if t.contains(x) {
                    let k = choose|k: int| 0 <= k < t.len() && t[k] == x;
                    if k < i {
                        assert(s@.take(i as int)[k] == x);
                    }
                }
                if s@.take(i as int).contains(x) {
                    let k = choose|k: int| 0 <= k < i && s@.take(i as int)[k] == x;
                    assert(t[k] == x);
                }
            }
        }
        i = i + 1;
    }
    proof {
        if i < s@.len() {
            assert(s@.skip(i as int)[0] == s@[i as int]);
        }
        assert(option_prefix_len(s@.skip(i as int)) == 0);
    }
    let rest = slice_to_vec(s.as_slice(), i, s.len());
    assert(rest@ =~= s@.skip(i as int));
    (SectionOption { numbering, details_open, catalog }, string_of(rest.as_slice()))
}

/// A local link that is not absolute is resolved from the directory of the
/// current section: it resolves as the same link written `./` + link.
pub proof fn law_relative_link_from_current_directory(
    u: Seq<char>,
    current: Seq<char>,
    trees: Seq<char>,
)
    requires
        !(u.len() > 0 && u[0] == '/'),
    ensures
        local_url_spec(u, current, trees) == local_url_spec(seq!['.', '/'] + u, current, trees),
{
    let d = seq!['.', '/'] + u;
    assert(d[0] == '.');
    let p = crate::slug::parent_text(current);
    if p.len() == 0 {
        assert(relative_spec(current, d) == d);
        assert(relative_spec(current, u) == u);
        crate::slug::lemma_dot_segment(Seq::empty(), u);
        assert(Seq::<char>::empty() + seq!['.', '/'] + u =~= d);
        assert(Seq::<char>::empty() + u =~= u);
    } else if p.last() == '/' {
        crate::slug::lemma_dot_segment(p, u);
        assert(p + seq!['.', '/'] + u =~= p + d);
    } else {
        let q = p + seq!['/'];
        crate::slug::lemma_dot_segment(q, u);
        assert(q + seq!['.', '/'] + u =~= p + seq!['/'] + d);
        assert(q + u =~= p + seq!['/'] + u);
    }
}

/// A link that is not absolute is joined to the directory of the current
/// section: when that directory is `d` (not the root), the link resolves
/// as the absolute link `/d/link`.
pub proof fn law_relative_link_joins_parent(u: Seq<char>, current: Seq<char>, trees: Seq<char>)
    requires
        !(u.len() > 0 && u[0] == '/'),
        crate::slug::parent_text(current).len() > 0,
        crate::slug::parent_text(current).last() != '/',
    ensures
        local_url_spec(u, current, trees) == relocate_spec(
            strip_md_spec(
                seq!['/'] + crate::slug::pretty_path_spec(
                    crate::slug::parent_text(current) + seq!['/'] + u,
                ),
            ),
            trees,
        ),
{
}

} // verus!
