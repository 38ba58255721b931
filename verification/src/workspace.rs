//! The sources of a site: which files under the tree directory are
//! sections, and the slug each one gets.
use vstd::prelude::*;

use crate::cli::{extension_dot, file_name_start};
use crate::ordered_map::{insert_spec, lookup, OrderedMap};
use crate::slug::{last_index_of, ext_of, ext_text, parse_ext, pretty_path_chars, pretty_path_spec, rfind_char, Ext, Slug};
use crate::text::{chars_of, eq_str, push_all, push_str, slice_to_vec, starts_with, string_of};

verus! {

/// The last component of a `/`-separated path.
pub open spec fn file_name(p: Seq<char>) -> Seq<char> {
    p.skip(file_name_start(p))
}

/// Top-level `README.md` files are not sections.
pub open spec fn ignore_file_spec(p: Seq<char>) -> bool {
    file_name(p) == "README.md"@
}

/// Directories whose name starts with `.` or `_` are skipped.
pub open spec fn ignore_dir_spec(p: Seq<char>) -> bool {
    let n = file_name(p);
    n.len() > 0 && (n[0] == '.' || n[0] == '_')
}

fn file_name_exec(p: &[char]) -> (r: Vec<char>)
    ensures
        r@ == file_name(p@),
{
    proof {
        crate::slug::lemma_last_index_of(p@, '/');
    }
    let n = p.len();
    let start: usize = match rfind_char(p, '/') {
        Some(k) => {
            assert(k < p@.len());
            k + 1
        },
        None => 0,
    };
    let r = slice_to_vec(p, start, n);
    assert(r@ =~= p@.skip(start as int));
    r
}

pub fn should_ignore_file(path: &str) -> (r: bool)
    ensures
        r == ignore_file_spec(path@),
{
    let p = chars_of(path);
    let n = file_name_exec(p.as_slice());
    eq_str(n.as_slice(), "README.md")
}

pub fn should_ignore_dir(path: &str) -> (r: bool)
    ensures
        r == ignore_dir_spec(path@),
{
    let p = chars_of(path);
    let n = file_name_exec(p.as_slice());
    n.len() > 0 && (n[0] == '.' || n[0] == '_')
}

/// Whether some directory above `p` is one that scans skip.
pub open spec fn under_ignored_spec(p: Seq<char>) -> bool
    decreases p.len(),
{
    match last_index_of(p, '/') {
        None => false,
        Some(k) => if 0 <= k < p.len() {
            ignore_dir_spec(p.take(k)) || under_ignored_spec(p.take(k))
        } else {
            false
        },
    }
}

pub fn is_under_ignored_dir(path: &str) -> (r: bool)
    ensures
        r == under_ignored_spec(path@),
{
    let p = chars_of(path);
    let mut cur = p;
    loop
        invariant
            under_ignored_spec(path@) == under_ignored_spec(cur@),
        decreases cur@.len(),
    {
        proof {
            crate::slug::lemma_last_index_of(cur@, '/');
        }
        match rfind_char(cur.as_slice(), '/') {
            None => {
                return false;
            },
            Some(k) => {
                let parent = slice_to_vec(cur.as_slice(), 0, k);
                assert(parent@ =~= cur@.take(k as int));
                let s = string_of(parent.as_slice());
                if should_ignore_dir(s.as_str()) {
                    return true;
                }
                cur = parent;
            },
        }
    }
}

/// `p` relative to `dir` when it lies inside it.
pub open spec fn strip_dir(dir: Seq<char>, p: Seq<char>) -> Seq<char> {
    if dir.len() > 0 && starts_with(p, dir) && dir.last() == '/' {
        p.skip(dir.len() as int)
    } else if starts_with(p, dir + seq!['/']) {
        p.skip((dir.len() + 1) as int)
    } else {
        p
    }
}

/// The slug and kind of a source file: its path inside `dir` without the
/// extension, cleaned; only `.md` and `.typst` files are sources.
pub open spec fn slug_ext_of(dir: Seq<char>, p: Seq<char>) -> Option<(Seq<char>, Ext)> {
    let q = strip_dir(dir, p);
    match extension_dot(q) {
        None => None,
        Some(d) => match parse_ext(q.skip(d + 1)) {
            None => None,
            Some(e) => Some((pretty_path_spec(q.take(d)), e)),
        },
    }
}

fn strip_dir_exec(dir: &[char], p: &[char]) -> (r: Vec<char>)
    ensures
        r@ == strip_dir(dir@, p@),
{
    if dir.len() > 0 && crate::text::has_prefix(p, dir) && dir[dir.len() - 1] == '/' {
        let r = slice_to_vec(p, dir.len(), p.len());
        assert(r@ =~= p@.skip(dir@.len() as int));
        return r;
    }
    let mut d: Vec<char> = Vec::new();
    push_all(&mut d, dir);
    d.push('/');
    assert(d@ =~= dir@ + seq!['/']);
    if crate::text::has_prefix(p, d.as_slice()) {
        let r = slice_to_vec(p, d.len(), p.len());
        assert(r@ =~= p@.skip((dir@.len() + 1) as int));
        r
    } else {
        slice_to_vec(p, 0, p.len())
    }
}

fn slug_ext_exec(dir: &[char], p: &[char]) -> (r: Option<(Vec<char>, Ext)>)
    ensures
        match slug_ext_of(dir@, p@) {
            Some((sl, e)) => r matches Some((v, x)) && v@ == sl && x == e,
            None => r is None,
        },
{
    let q = strip_dir_exec(dir, p);
    assert(q@.subrange(0, q@.len() as int) =~= q@);
    proof {
        crate::slug::lemma_last_index_of(q@, '/');
    }
    let n = q.len();
    let start: usize = match rfind_char(q.as_slice(), '/') {
        Some(k) => {
            assert(k < q@.len());
            k + 1
        },
        None => 0,
    };
    let name = slice_to_vec(q.as_slice(), start, n);
    assert(name@ =~= q@.skip(start as int));
    proof {
        crate::slug::lemma_last_index_of(name@, '.');
    }
    let d = match rfind_char(name.as_slice(), '.') {
        Some(d) => {
            if d == 0 {
                return None;
            }
            start + d
        },
        None => {
            return None;
        },
    };
    let ext_text_v = slice_to_vec(q.as_slice(), d + 1, n);
    assert(ext_text_v@ =~= q@.skip(d + 1));
    match ext_of(ext_text_v.as_slice()) {
        Ok(e) => {
            let base = slice_to_vec(q.as_slice(), 0, d);
            assert(base@ =~= q@.take(d as int));
            Some((pretty_path_chars(base.as_slice()), e))
        },
        Err(_) => None,
    }
}

/// The slug and kind of a source file.
pub fn to_slug_ext(source_dir: &str, path: &str) -> (r: Option<(Slug, Ext)>)
    ensures
        match slug_ext_of(source_dir@, path@) {
            Some((sl, e)) => r matches Some((s, x)) && s@ == sl && x == e,
            None => r is None,
        },
{
    let d = chars_of(source_dir);
    let p = chars_of(path);
    match slug_ext_exec(d.as_slice(), p.as_slice()) {
        Some((v, e)) => Some((Slug::from_chars(v.as_slice()), e)),
        None => None,
    }
}

/// The sources of a site: each slug with its kind.
#[derive(Debug)]
pub struct Workspace {
    pub slug_exts: OrderedMap<Ext>,
}

/// Two files that would give the same slug.
pub struct CollisionModel {
    pub path: Seq<char>,
    pub other_ext: Ext,
}

#[derive(Debug)]
pub struct SourceCollision {
    /// The file found second.
    pub path: String,
    /// The kind of the file found first.
    pub other_ext: Ext,
}

impl SourceCollision {
    /// `` `a/b.md` collides with `a/b.typst` ``.
    pub fn message(&self) -> (r: String)
        ensures
            r@ == "`"@ + self.path@ + "` collides with `"@ + crate::cli::with_extension(
                self.path@,
                ext_text(self.other_ext),
            ) + "`"@,
    {
        let p = chars_of(self.path.as_str());
        let mut v: Vec<char> = Vec::new();
        push_str(&mut v, "`");
        push_all(&mut v, p.as_slice());
        push_str(&mut v, "` collides with `");
        let other = crate::cli::with_ext_exec(p.as_slice(), self.other_ext.as_str());
        push_all(&mut v, other.as_slice());
        push_str(&mut v, "`");
        assert(v@ =~= "`"@ + self.path@ + "` collides with `"@ + crate::cli::with_extension(
            self.path@,
            ext_text(self.other_ext),
        ) + "`"@);
        string_of(v.as_slice())
    }
}

/// A file found while walking the tree: its path, and whether it lies
/// directly in the tree directory.
pub type FoundFile = (Seq<char>, bool);

/// The sources collected from the files, in the order found, or the first
/// collision.
pub open spec fn collect_spec(dir: Seq<char>, files: Seq<FoundFile>) -> Result<
    Seq<(Seq<char>, Ext)>,
    (Seq<char>, Ext),
>
    decreases files.len(),
{
    if files.len() == 0 {
        Ok(Seq::empty())
    } else {
        match collect_spec(dir, files.drop_last()) {
            Err(e) => Err(e),
            Ok(m) => {
                let (p, top) = files.last();
                if top && ignore_file_spec(p) {
                    Ok(m)
                } else {
                    match slug_ext_of(dir, p) {
                        None => Ok(m),
                        Some((sl, e)) => match lookup(m, sl) {
                            Some(prev) => Err((p, prev)),
                            None => Ok(insert_spec(m, sl, e)),
                        },
                    }
                }
            },
        }
    }
}

pub open spec fn found_views(v: Seq<(String, bool)>) -> Seq<FoundFile> {
    v.map_values(|f: (String, bool)| (f.0@, f.1))
}

/// The workspace made of the files found under `trees_dir` (directories
/// that `should_ignore_dir` rejects already left out).
pub fn collect_sources(trees_dir: &str, files: &Vec<(String, bool)>) -> (r: Result<
    Workspace,
    SourceCollision,
>)
    ensures
        match collect_spec(trees_dir@, found_views(files@)) {
            Ok(m) => r matches Ok(w) && w.slug_exts@ == m,
            Err((p, e)) => r matches Err(c) && c.path@ == p && c.other_ext == e,
        },
{
    let ghost fs = found_views(files@);
    let mut m: OrderedMap<Ext> = OrderedMap::new();
    let mut i: usize = 0;
    while i < files.len()
        invariant
            i <= files@.len(),
            fs == found_views(files@),
            collect_spec(trees_dir@, fs.take(i as int)) == Ok::<
                Seq<(Seq<char>, Ext)>,
                (Seq<char>, Ext),
            >(m@),
        decreases files.len() - i,
    {
        assert(fs.take(i + 1).drop_last() =~= fs.take(i as int));
        assert(fs.take(i + 1).last() == (files@[i as int].0@, files@[i as int].1));
        let path = &files[i].0;
        let top = files[i].1;
        if top && should_ignore_file(path.as_str()) {
            i = i + 1;
            continue;
        }
        match to_slug_ext(trees_dir, path.as_str()) {
            None => {},
            Some((slug, ext)) => {
                match m.get(slug.as_str()) {
                    Some(prev) => {
                        let other = *prev;
                        assert(collect_spec(trees_dir@, fs.take(i + 1)) == Err::<
                            Seq<(Seq<char>, Ext)>,
                            (Seq<char>, Ext),
                        >((path@, other)));
                        proof {
                            lemma_collect_err_stays(trees_dir@, fs, i + 1);
                        }
                        assert(fs.take(fs.len() as int) =~= fs);
                        return Err(SourceCollision { path: crate::text::owned(path.as_str()), other_ext: other });
                    },
                    None => {
                        let _ = m.insert(string_of(slug.chars().as_slice()), ext);
                    },
                }
            },
        }
        i = i + 1;
    }
    assert(fs.take(i as int) =~= fs);
    Ok(Workspace { slug_exts: m })
}

/// Once a collision is found, later files do not change the result.
proof fn lemma_collect_err_stays(dir: Seq<char>, fs: Seq<FoundFile>, k: int)
    requires
        0 <= k <= fs.len(),
        collect_spec(dir, fs.take(k)) is Err,
    ensures
        collect_spec(dir, fs.take(fs.len() as int)) == collect_spec(dir, fs.take(k)),
    decreases fs.len() - k,
{
    if k < fs.len() {
        assert(fs.take(k + 1).drop_last() =~= fs.take(k));
        lemma_collect_err_stays(dir, fs, k + 1);
    }
}

} // verus!
