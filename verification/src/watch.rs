//! What the file watcher of `kodama serve` decides: which paths matter,
//! how changes are reported, and when a batch of changes is ready.
use vstd::prelude::*;

use crate::cli::file_name_start;
use crate::slug::{replace_char, replaced};
use crate::text::{
    ascii_lowercase, chars_of, decimal, ends_with, eq_str, lowercase, owned, push_all,
    push_decimal, push_str, starts_with, str_eq, string_of,
};
use crate::workspace::file_name;

verus! {

/// A path as shown to the user: with forward slashes.
pub fn display_watch_path(path: &str) -> (r: String)
    ensures
        r@ == replace_char(path@, '\\', '/'),
{
    let v = chars_of(path);
    string_of(replaced(v.as_slice(), '\\', '/').as_slice())
}

pub open spec fn is_import_name(n: Seq<char>) -> bool {
    n == "import-meta.html"@ || n == "import-style.html"@ || n == "import-font.html"@ || n
        == "import-math.html"@
}

fn file_name_of(path: &str) -> (r: Vec<char>)
    ensures
        r@ == file_name(path@),
{
    let p = chars_of(path);
    proof {
        crate::slug::lemma_last_index_of(p@, '/');
    }
    let n = p.len();
    let start: usize = match crate::slug::rfind_char(p.as_slice(), '/') {
        Some(k) => {
            assert(k < p@.len());
            k + 1
        },
        None => 0,
    };
    let r = crate::text::slice_to_vec(p.as_slice(), start, n);
    assert(r@ =~= p@.skip(start as int));
    r
}

/// The optional HTML snippets a site may provide next to its config.
pub fn is_optional_import_watch_path(path: &str) -> (r: bool)
    ensures
        r == is_import_name(file_name(path@)),
{
    let n = file_name_of(path);
    eq_str(n.as_slice(), "import-meta.html") || eq_str(n.as_slice(), "import-style.html")
        || eq_str(n.as_slice(), "import-font.html") || eq_str(n.as_slice(), "import-math.html")
}

/// Paths whose absence is normal: the import snippets and the assets
/// directory.
pub fn is_optional_missing_watch_path(path: &str, assets_dir: &str) -> (r: bool)
    ensures
        r == (is_import_name(file_name(path@)) || path@ == assets_dir@),
{
    is_optional_import_watch_path(path) || str_eq(path, assets_dir)
}

#[derive(Debug, Clone, Copy, PartialEq, Eq, Structural)]
pub enum MissingPathLevel {
    Hint,
    Warning,
}

/// How loudly a missing watched path is reported.
pub fn default_missing_path_level(path: &str, assets_dir: &str) -> (r: MissingPathLevel)
    ensures
        r == (if is_import_name(file_name(path@)) || path@ == assets_dir@ {
            MissingPathLevel::Hint
        } else {
            MissingPathLevel::Warning
        }),
{
    if is_optional_missing_watch_path(path, assets_dir) {
        MissingPathLevel::Hint
    } else {
        MissingPathLevel::Warning
    }
}

/// Extensions of files that are sections.
pub fn is_source_extension(ext: Option<&str>) -> (r: bool)
    ensures
        r == match ext {
            Some(e) => e@ == "md"@ || e@ == "typst"@ || e@ == "typ"@,
            None => false,
        },
{
    match ext {
        Some(e) => str_eq(e, "md") || str_eq(e, "typst") || str_eq(e, "typ"),
        None => false,
    }
}

pub open spec fn contains_seq(s: Seq<char>, p: Seq<char>) -> bool {
    exists|i: int| crate::text::occurs_at(s, p, i)
}

/// Files that editors and tools write while working: swap files, backups,
/// lock files and the like.
pub open spec fn temp_like(name: Seq<char>) -> bool {
    let lower = lowercase(name);
    ||| lower == ".ds_store"@
    ||| starts_with(name, ".#"@)
    ||| (starts_with(name, "#"@) && ends_with(name, "#"@))
    ||| ends_with(name, "~"@)
    ||| ends_with(lower, ".tmp"@)
    ||| ends_with(lower, ".temp"@)
    ||| ends_with(lower, ".swp"@)
    ||| ends_with(lower, ".swx"@)
    ||| ends_with(lower, ".bak"@)
    ||| ends_with(lower, ".crdownload"@)
    ||| contains_seq(lower, "__jb_tmp__"@)
    ||| contains_seq(lower, "__jb_old__"@)
}

fn contains_exec(s: &[char], p: &str) -> (r: bool)
    ensures
        r == contains_seq(s@, p@),
{
    let pv = chars_of(p);
    let n = s.len();
    let found = crate::text::find_seq(s, pv.as_slice(), 0);
    proof {
        crate::text::lemma_find_from_props(s@, pv@, 0);
        if contains_seq(s@, pv@) {
            let i = choose|i: int| crate::text::occurs_at(s@, pv@, i);
            assert(0 <= i);
        }
    }
    found.is_some()
}

/// Whether the file at `path` is a temporary file; a path without a file
/// name is not.
pub fn is_temp_like_path(path: &str) -> (r: bool)
    ensures
        r == (file_name(path@).len() > 0 && temp_like(file_name(path@))),
{
    let name = file_name_of(path);
    if name.len() == 0 {
        return false;
    }
    let lower = ascii_lowercase(name.as_slice());
    let n = name.as_slice();
    let l = lower.as_slice();
    eq_str(l, ".ds_store") || crate::text::has_prefix_str(n, ".#") || (
    crate::text::has_prefix_str(n, "#") && crate::text::has_suffix_str(n, "#"))
        || crate::text::has_suffix_str(n, "~") || crate::text::has_suffix_str(l, ".tmp")
        || crate::text::has_suffix_str(l, ".temp") || crate::text::has_suffix_str(l, ".swp")
        || crate::text::has_suffix_str(l, ".swx") || crate::text::has_suffix_str(l, ".bak")
        || crate::text::has_suffix_str(l, ".crdownload") || contains_exec(l, "__jb_tmp__")
        || contains_exec(l, "__jb_old__")
}

// ---------------------------------------------------------------------------
// Reporting changes
// ---------------------------------------------------------------------------
/// The paths with runs of the same path merged, each with its run length.
pub open spec fn group_runs(ps: Seq<Seq<char>>) -> Seq<(Seq<char>, nat)>
    decreases ps.len(),
{
    if ps.len() == 0 {
        Seq::empty()
    } else {
        let g = group_runs(ps.drop_last());
        if g.len() > 0 && g.last().0 == ps.last() {
            g.drop_last().push((ps.last(), g.last().1 + 1))
        } else {
            g.push((ps.last(), 1))
        }
    }
}

/// The number of paths the groups stand for.
pub open spec fn count_sum(gs: Seq<(Seq<char>, nat)>) -> nat
    decreases gs.len(),
{
    if gs.len() == 0 {
        0
    } else {
        count_sum(gs.drop_last()) + gs.last().1
    }
}

proof fn lemma_group_count(ps: Seq<Seq<char>>)
    ensures
        count_sum(group_runs(ps)) == ps.len(),
    decreases ps.len(),
{
    if ps.len() > 0 {
        lemma_group_count(ps.drop_last());
        let g = group_runs(ps.drop_last());
        if g.len() > 0 && g.last().0 == ps.last() {
            let h = g.drop_last().push((ps.last(), g.last().1 + 1));
            assert(h.drop_last() =~= g.drop_last());
        } else {
            assert(g.push((ps.last(), 1)).drop_last() =~= g);
        }
    }
}

proof fn lemma_prefix_count(gs: Seq<(Seq<char>, nat)>, i: int)
    requires
        0 <= i <= gs.len(),
    ensures
        count_sum(gs.take(i)) <= count_sum(gs),
    decreases gs.len() - i,
{
    if i < gs.len() {
        lemma_prefix_count(gs, i + 1);
        assert(gs.take(i + 1).drop_last() =~= gs.take(i));
    } else {
        assert(gs.take(i) =~= gs);
    }
}

/// The line for a path changed `n` times in a row.
pub open spec fn change_line(p: Seq<char>, n: nat) -> Seq<char> {
    "[watch] Change: \""@ + p + "\""@ + if n > 1 {
        " (x"@ + decimal(n) + ")"@
    } else {
        Seq::empty()
    }
}

/// The last path reported and how often it changed in a row.
pub type FoldModel = (Option<Seq<char>>, nat);

/// Reporting the groups: each group continues the previous run when it is
/// the same path, else starts a new run.
pub open spec fn fold_groups(st: FoldModel, gs: Seq<(Seq<char>, nat)>) -> (FoldModel, Seq<
    Seq<char>,
>)
    decreases gs.len(),
{
    if gs.len() == 0 {
        (st, Seq::empty())
    } else {
        let (st1, lines) = fold_groups(st, gs.drop_last());
        let (p, c) = gs.last();
        let st2: FoldModel = if st1.0 == Some(p) {
            (st1.0, st1.1 + c)
        } else {
            (Some(p), c)
        };
        (st2, lines.push(change_line(p, st2.1)))
    }
}

/// What has been reported so far.
#[derive(Debug, Default)]
pub struct WatchChangeFoldState {
    pub last_path: Option<String>,
    pub last_count: usize,
}

impl WatchChangeFoldState {
    pub open spec fn model(&self) -> FoldModel {
        (
            match self.last_path {
                Some(p) => Some(p@),
                None => None,
            },
            self.last_count as nat,
        )
    }
}

pub open spec fn display_all(ps: Seq<String>) -> Seq<Seq<char>> {
    ps.map_values(|p: String| replace_char(p@, '\\', '/'))
}

pub open spec fn string_views(v: Seq<String>) -> Seq<Seq<char>> {
    v.map_values(|s: String| s@)
}

fn group_exec(paths: &Vec<String>) -> (r: Vec<(String, usize)>)
    ensures
        r@.len() <= paths@.len(),
        r@.map_values(|g: (String, usize)| (g.0@, g.1 as nat)) == group_runs(display_all(paths@)),
        forall|i: int| 0 <= i < r@.len() ==> r@[i].1 <= paths@.len(),
{
    let ghost ds = display_all(paths@);
    let mut g: Vec<(String, usize)> = Vec::new();
    let mut i: usize = 0;
    while i < paths.len()
        invariant
            i <= paths@.len(),
            ds == display_all(paths@),
            g@.len() <= i,
            forall|k: int| 0 <= k < g@.len() ==> g@[k].1 <= i,
            g@.map_values(|e: (String, usize)| (e.0@, e.1 as nat)) == group_runs(ds.take(i as int)),
        decreases paths.len() - i,
    {
        let p = display_watch_path(paths[i].as_str());
        assert(ds.take(i + 1).drop_last() =~= ds.take(i as int));
        assert(ds.take(i + 1).last() == p@);
        let ghost g0 = g@.map_values(|e: (String, usize)| (e.0@, e.1 as nat));
        let n = g.len();
        if n > 0 && str_eq(g[n - 1].0.as_str(), p.as_str()) {
            let last = g.pop();
            match last {
                Some((s, c)) => {
                    g.push((s, c + 1));
                    assert(g@.map_values(|e: (String, usize)| (e.0@, e.1 as nat)) =~= g0.drop_last().push(
                        (p@, g0.last().1 + 1),
                    ));
                },
                None => {},
            }
        } else {
            g.push((p, 1));
            assert(g@.map_values(|e: (String, usize)| (e.0@, e.1 as nat)) =~= g0.push((ds[i as int], 1)));
        }
        i = i + 1;
    }
    assert(ds.take(i as int) =~= ds);
    g
}

/// The lines that report a batch of changed paths, continuing the count of
/// the previous batch when it ended with the same path.
pub fn fold_watch_change_lines(state: &mut WatchChangeFoldState, changed_paths: &Vec<String>) -> (r:
    Vec<String>)
    requires
        old(state).last_count + changed_paths@.len() <= usize::MAX,
    ensures
        (final(state).model(), string_views(r@)) == fold_groups(
            old(state).model(),
            group_runs(display_all(changed_paths@)),
        ),
{
    let groups = group_exec(changed_paths);
    let ghost gs = groups@.map_values(|e: (String, usize)| (e.0@, e.1 as nat));
    let ghost st0 = state.model();
    let ghost total0 = state.last_count as nat;
    proof {
        lemma_group_count(display_all(changed_paths@));
        assert(display_all(changed_paths@).len() == changed_paths@.len());
    }
    let mut lines: Vec<String> = Vec::new();
    let mut i: usize = 0;
    assert(gs.take(0) =~= Seq::<(Seq<char>, nat)>::empty());
    assert(string_views(lines@) =~= Seq::<Seq<char>>::empty());
    while i < groups.len()
        invariant
            i <= groups@.len(),
            groups@.len() <= changed_paths@.len(),
            gs == groups@.map_values(|e: (String, usize)| (e.0@, e.1 as nat)),
            forall|k: int| 0 <= k < groups@.len() ==> groups@[k].1 <= changed_paths@.len(),
            total0 + changed_paths@.len() <= usize::MAX,
            count_sum(gs) == changed_paths@.len(),
            state.last_count <= total0 + count_sum(gs.take(i as int)),
            (state.model(), string_views(lines@)) == fold_groups(st0, gs.take(i as int)),
        decreases groups.len() - i,
    {
        assert(gs.take(i + 1).drop_last() =~= gs.take(i as int));
        let path = &groups[i].0;
        let count = groups[i].1;
        assert(gs.take(i + 1).last() == (path@, count as nat));
        let same = match &state.last_path {
            Some(last) => str_eq(last.as_str(), path.as_str()),
            None => false,
        };
        proof {
            lemma_prefix_count(gs, i + 1);
        }
        if same {
            state.last_count = state.last_count + count;
        } else {
            state.last_path = Some(owned(path.as_str()));
            state.last_count = count;
        }
        let mut line: Vec<char> = Vec::new();
        push_str(&mut line, "[watch] Change: \"");
        push_str(&mut line, path.as_str());
        push_str(&mut line, "\"");
        if state.last_count > 1 {
            push_str(&mut line, " (x");
            push_decimal(&mut line, state.last_count);
            push_str(&mut line, ")");
        }
        assert(line@ =~= change_line(path@, state.last_count as nat));
        let ghost l0 = string_views(lines@);
        lines.push(string_of(line.as_slice()));
        assert(string_views(lines@) =~= l0.push(change_line(path@, state.last_count as nat)));
        i = i + 1;
    }
    assert(gs.take(i as int) =~= gs);
    lines
}

// ---------------------------------------------------------------------------
// Debouncing
// ---------------------------------------------------------------------------
/// Collects changed paths until a quiet period has passed since the last
/// rebuild. Times are in milliseconds.
#[derive(Debug)]
pub struct WatchBatcher {
    pub debounce: u64,
    pub last_run: u64,
    pub pending_changes: Vec<String>,
}

impl WatchBatcher {
    /// A batcher whose first batch is ready at once.
    pub fn new(debounce: u64, now: u64) -> (r: WatchBatcher)
        ensures
            r.debounce == debounce,
            r.last_run == if now >= debounce {
                (now - debounce) as u64
            } else {
                now
            },
            r.pending_changes@.len() == 0,
    {
        let last_run = if now >= debounce {
            now - debounce
        } else {
            now
        };
        WatchBatcher { debounce, last_run, pending_changes: Vec::new() }
    }

    pub fn with_last_run(debounce: u64, last_run: u64) -> (r: WatchBatcher)
        ensures
            r.debounce == debounce,
            r.last_run == last_run,
            r.pending_changes@.len() == 0,
    {
        WatchBatcher { debounce, last_run, pending_changes: Vec::new() }
    }

    pub fn push_paths(&mut self, paths: Vec<String>)
        ensures
            final(self).pending_changes@ == old(self).pending_changes@ + paths@,
            final(self).debounce == old(self).debounce,
            final(self).last_run == old(self).last_run,
    {
        let mut paths = paths;
        self.pending_changes.append(&mut paths);
    }

    /// The pending paths, once `debounce` has passed since the last run.
    pub fn take_ready(&mut self, now: u64) -> (r: Option<Vec<String>>)
        ensures
            final(self).debounce == old(self).debounce,
            ({
                let waited = if now >= old(self).last_run {
                    now - old(self).last_run
                } else {
                    0
                };
                if old(self).pending_changes@.len() == 0 || waited < old(self).debounce {
                    r is None && final(self).pending_changes@ == old(self).pending_changes@
                        && final(self).last_run == old(self).last_run
                } else {
                    r matches Some(v) && v@ == old(self).pending_changes@
                        && final(self).pending_changes@.len() == 0 && final(self).last_run == now
                }
            }),
    {
        if self.pending_changes.len() == 0 {
            return None;
        }
        let waited = if now >= self.last_run {
            now - self.last_run
        } else {
            0
        };
        if waited < self.debounce {
            return None;
        }
        self.last_run = now;
        let mut taken: Vec<String> = Vec::new();
        std::mem::swap(&mut taken, &mut self.pending_changes);
        Some(taken)
    }
}


// ---------------------------------------------------------------------------
// Sorting changed paths
// ---------------------------------------------------------------------------
/// What `std::path::Path::strip_prefix` gives: the rest of `path` after the
/// whole components of `base`, when `base` is a prefix of it. By its
/// documentation `base` is a prefix exactly when `starts_with` holds.
/// Components follow the path syntax of the platform the crate is built for.
pub uninterp spec fn std_strip_prefix(path: Seq<char>, base: Seq<char>) -> Option<Seq<char>>;

/// `std::path::Path::strip_prefix`, the rest written as text (a path made
/// from text is text). Its result is named, not described.
#[verifier::external_body]
fn strip_path_prefix(path: &str, base: &str) -> (r: Option<String>)
    ensures
        match std_strip_prefix(path@, base@) {
            Some(rest) => r matches Some(x) && x@ == rest,
            None => r is None,
        },
{
    match std::path::Path::new(path).strip_prefix(base) {
        Ok(rest) => match rest.to_str() {
            Some(t) => Some(t.to_string()),
            None => None,
        },
        Err(_) => None,
    }
}

/// The extension of a path: after the last dot of its file name, unless
/// that dot starts the name.
pub open spec fn extension_spec(p: Seq<char>) -> Option<Seq<char>> {
    match crate::cli::extension_dot(p) {
        Some(d) => Some(p.skip(d + 1)),
        None => None,
    }
}

fn extension_of(p: &[char]) -> (r: Option<Vec<char>>)
    ensures
        match extension_spec(p@) {
            Some(e) => r matches Some(x) && x@ == e,
            None => r is None,
        },
{
    proof {
        crate::slug::lemma_last_index_of(p@, '/');
    }
    let n = p.len();
    let start: usize = match crate::slug::rfind_char(p, '/') {
        Some(k) => {
            assert(k < p@.len());
            k + 1
        },
        None => 0,
    };
    let name = crate::text::slice_to_vec(p, start, n);
    assert(name@ =~= p@.skip(start as int));
    proof {
        crate::slug::lemma_last_index_of(name@, '.');
    }
    match crate::slug::rfind_char(name.as_slice(), '.') {
        Some(d) => {
            if d > 0 {
                let e = crate::text::slice_to_vec(p, start + d + 1, p.len());
                assert(e@ =~= p@.skip(start + d + 1));
                Some(e)
            } else {
                None
            }
        },
        None => None,
    }
}

/// A changed path as the watcher saw it: as reported, as the file system
/// resolves it (itself when it cannot), and whether it is a directory.
#[derive(Debug)]
pub struct ChangedPath {
    pub path: String,
    pub canonical: String,
    pub is_dir: bool,
}

/// What a changed path is.
#[derive(Debug)]
pub enum PathClass {
    /// A temporary file of an editor or tool.
    Temp,
    Directory,
    /// A source file in the trees, by its path relative to the trees.
    TreeSource(String),
    /// Another file in the trees, by its path relative to the trees.
    TreeDependency(String),
    Asset,
    Global,
}

pub enum ClassModel {
    Temp,
    Directory,
    TreeSource(Seq<char>),
    TreeDependency(Seq<char>),
    Asset,
    Global,
}

impl PathClass {
    pub open spec fn model(&self) -> ClassModel {
        match self {
            PathClass::Temp => ClassModel::Temp,
            PathClass::Directory => ClassModel::Directory,
            PathClass::TreeSource(s) => ClassModel::TreeSource(s@),
            PathClass::TreeDependency(s) => ClassModel::TreeDependency(s@),
            PathClass::Asset => ClassModel::Asset,
            PathClass::Global => ClassModel::Global,
        }
    }
}

/// What `==` on `std::path::Path` gives: by its documentation paths are
/// compared by their components, in the path syntax of the platform the
/// crate is built for.
pub uninterp spec fn std_path_eq(a: Seq<char>, b: Seq<char>) -> bool;

/// `==` on two `std::path::Path`s. Its result is named, not described; `Path`
/// is `Eq`, so a path equals itself.
#[verifier::external_body]
fn path_eq(a: &str, b: &str) -> (r: bool)
    ensures
        r == std_path_eq(a@, b@),
        a@ == b@ ==> r,
{
    std::path::Path::new(a) == std::path::Path::new(b)
}

/// Whether a change of `changed_path` is a change of the configuration
/// file: the same path, or the same once both are made canonical (the
/// caller canonicalises, falling back to the path itself).
pub fn should_restart_for_config_change(
    changed_path: &str,
    changed_canonical: &str,
    config_file: &str,
    config_file_canonical: &str,
) -> (r: bool)
    ensures
        r == (std_path_eq(changed_path@, config_file@) || std_path_eq(
            changed_canonical@,
            config_file_canonical@,
        )),
{
    path_eq(changed_path, config_file) || path_eq(changed_canonical, config_file_canonical)
}

/// The path below `dir`, cleaned; none when `path` is not below `dir` or
/// is `dir` itself.
pub open spec fn strip_tree_spec(path: Seq<char>, dir: Seq<char>) -> Option<Seq<char>> {
    match std_strip_prefix(path, dir) {
        Some(rest) => {
            let p = crate::slug::pretty_path_spec(rest);
            if p.len() == 0 || p == "."@ {
                None
            } else {
                Some(p)
            }
        },
        None => None,
    }
}

/// The path relative to the trees: tried as reported and as resolved,
/// against the trees directory as configured and as resolved.
pub open spec fn relative_tree_spec(p: Seq<char>, canonical: Seq<char>, trees: Seq<char>, trees_c: Seq<char>) -> Option<Seq<char>> {
    match strip_tree_spec(p, trees) {
        Some(r) => Some(r),
        None => match strip_tree_spec(p, trees_c) {
            Some(r) => Some(r),
            None => match strip_tree_spec(canonical, trees) {
                Some(r) => Some(r),
                None => strip_tree_spec(canonical, trees_c),
            },
        },
    }
}

/// Whether the path is below a directory, as reported or as resolved.
pub open spec fn under_dir_spec(p: Seq<char>, canonical: Seq<char>, dir: Seq<char>, dir_c: Seq<char>) -> bool {
    std_strip_prefix(p, dir) is Some || std_strip_prefix(p, dir_c) is Some || std_strip_prefix(
        canonical,
        dir,
    ) is Some || std_strip_prefix(canonical, dir_c) is Some
}

pub open spec fn is_source_ext_spec(e: Option<Seq<char>>) -> bool {
    match e {
        Some(x) => x == "md"@ || x == "typst"@ || x == "typ"@,
        None => false,
    }
}

/// What a changed path is: temporary files and directories are noise; a
/// file in the trees is a source or a dependency; then assets; the rest
/// is global.
pub open spec fn classify_spec(
    p: Seq<char>,
    canonical: Seq<char>,
    is_dir: bool,
    trees: Seq<char>,
    trees_c: Seq<char>,
    assets: Seq<char>,
    assets_c: Seq<char>,
) -> ClassModel {
    if file_name(p).len() > 0 && temp_like(file_name(p)) {
        ClassModel::Temp
    } else if is_dir {
        ClassModel::Directory
    } else {
        match relative_tree_spec(p, canonical, trees, trees_c) {
            Some(r) => if is_source_ext_spec(extension_spec(r)) {
                ClassModel::TreeSource(r)
            } else {
                ClassModel::TreeDependency(r)
            },
            None => if under_dir_spec(p, canonical, assets, assets_c) {
                ClassModel::Asset
            } else {
                ClassModel::Global
            },
        }
    }
}

fn strip_tree(path: &str, dir: &str) -> (r: Option<String>)
    ensures
        match strip_tree_spec(path@, dir@) {
            Some(x) => r matches Some(y) && y@ == x,
            None => r is None,
        },
{
    match strip_path_prefix(path, dir) {
        Some(rest) => {
            let p = crate::slug::pretty_path(rest.as_str());
            proof {
                reveal_strlit(".");
            }
            if p.as_str().is_empty() || str_eq(p.as_str(), ".") {
                None
            } else {
                Some(p)
            }
        },
        None => None,
    }
}

/// What a changed path is.
pub fn classify_changed_path(
    c: &ChangedPath,
    trees_dir: &str,
    trees_dir_canonical: &str,
    assets_dir: &str,
    assets_dir_canonical: &str,
) -> (r: PathClass)
    ensures
        r.model() == classify_spec(
            c.path@,
            c.canonical@,
            c.is_dir,
            trees_dir@,
            trees_dir_canonical@,
            assets_dir@,
            assets_dir_canonical@,
        ),
{
    if is_temp_like_path(c.path.as_str()) {
        return PathClass::Temp;
    }
    if c.is_dir {
        return PathClass::Directory;
    }
    let rel = match strip_tree(c.path.as_str(), trees_dir) {
        Some(r) => Some(r),
        None => match strip_tree(c.path.as_str(), trees_dir_canonical) {
            Some(r) => Some(r),
            None => match strip_tree(c.canonical.as_str(), trees_dir) {
                Some(r) => Some(r),
                None => strip_tree(c.canonical.as_str(), trees_dir_canonical),
            },
        },
    };
    match rel {
        Some(r) => {
            let rv = chars_of(r.as_str());
            let source = match extension_of(rv.as_slice()) {
                Some(e) => {
                    let es = string_of(e.as_slice());
                    is_source_extension(Some(es.as_str()))
                },
                None => false,
            };
            if source {
                PathClass::TreeSource(r)
            } else {
                PathClass::TreeDependency(r)
            }
        },
        None => {
            let under = strip_path_prefix(c.path.as_str(), assets_dir).is_some()
                || strip_path_prefix(c.path.as_str(), assets_dir_canonical).is_some()
                || strip_path_prefix(c.canonical.as_str(), assets_dir).is_some()
                || strip_path_prefix(c.canonical.as_str(), assets_dir_canonical).is_some();
            if under {
                PathClass::Asset
            } else {
                PathClass::Global
            }
        },
    }
}

/// How many of the classes are of the kind `k` (in the order of
/// [`ClassModel`]'s variants).
pub open spec fn kind_of(c: ClassModel) -> nat {
    match c {
        ClassModel::Temp => 0,
        ClassModel::Directory => 1,
        ClassModel::TreeSource(_) => 2,
        ClassModel::TreeDependency(_) => 3,
        ClassModel::Asset => 4,
        ClassModel::Global => 5,
    }
}

pub open spec fn count_kind(cs: Seq<ClassModel>, k: nat) -> nat
    decreases cs.len(),
{
    if cs.len() == 0 {
        0
    } else {
        count_kind(cs.drop_last(), k) + if kind_of(cs.last()) == k {
            1nat
        } else {
            0nat
        }
    }
}

pub proof fn lemma_count_kind_bound(cs: Seq<ClassModel>, k: nat)
    ensures
        count_kind(cs, k) <= cs.len(),
    decreases cs.len(),
{
    if cs.len() > 0 {
        lemma_count_kind_bound(cs.drop_last(), k);
    }
}

/// The tree paths among the classes.
pub open spec fn dirty_of(cs: Seq<ClassModel>) -> Set<Seq<char>> {
    Set::new(
        |x: Seq<char>|
            exists|i: int|
                0 <= i < cs.len() && (#[trigger] cs[i] == ClassModel::TreeSource(x) || cs[i]
                    == ClassModel::TreeDependency(x)),
    )
}

/// The class of each changed path.
pub open spec fn classes(
    v: Seq<ChangedPath>,
    trees: Seq<char>,
    trees_c: Seq<char>,
    assets: Seq<char>,
    assets_c: Seq<char>,
) -> Seq<ClassModel> {
    v.map_values(
        |c: ChangedPath| classify_spec(c.path@, c.canonical@, c.is_dir, trees, trees_c, assets, assets_c),
    )
}

/// The tree paths that changed, and how many paths of each kind.
#[derive(Debug)]
pub struct WatchChangeAnalysis {
    /// Paths relative to the trees; each occurs once.
    pub dirty_paths: Vec<String>,
    pub stats: crate::cli::WatchChangeStats,
}

/// Adding a class adds its tree path, if it has one.
pub proof fn lemma_dirty_push(cs: Seq<ClassModel>, c: ClassModel)
    ensures
        dirty_of(cs.push(c)) == match c {
            ClassModel::TreeSource(x) => dirty_of(cs).insert(x),
            ClassModel::TreeDependency(x) => dirty_of(cs).insert(x),
            _ => dirty_of(cs),
        },
{
    let t = cs.push(c);
    assert forall|x: Seq<char>| #[trigger] dirty_of(t).contains(x) <==> (dirty_of(cs).contains(x) || c == ClassModel::TreeSource(x) || c == ClassModel::TreeDependency(x)) by {
        if dirty_of(t).contains(x) {
            let w = choose|w: int| 0 <= w < t.len() && (#[trigger] t[w] == ClassModel::TreeSource(x) || t[w] == ClassModel::TreeDependency(x));
            if w < cs.len() {
                assert(cs[w] == t[w]);
            }
        }
        if dirty_of(cs).contains(x) {
            let w = choose|w: int| 0 <= w < cs.len() && (#[trigger] cs[w] == ClassModel::TreeSource(x) || cs[w] == ClassModel::TreeDependency(x));
            assert(t[w] == cs[w]);
        }
        if c == ClassModel::TreeSource(x) || c == ClassModel::TreeDependency(x) {
            assert(t[cs.len() as int] == c);
        }
    }
    match c {
        ClassModel::TreeSource(x) => assert(dirty_of(t) =~= dirty_of(cs).insert(x)),
        ClassModel::TreeDependency(x) => assert(dirty_of(t) =~= dirty_of(cs).insert(x)),
        _ => assert(dirty_of(t) =~= dirty_of(cs)),
    }
}

/// Adds `r` to a list of distinct paths unless it is there.
fn add_distinct(dirty: &mut Vec<String>, r: String)
    requires
        string_views(old(dirty)@).no_duplicates(),
    ensures
        string_views(final(dirty)@).no_duplicates(),
        string_views(final(dirty)@).to_set() == string_views(old(dirty)@).to_set().insert(r@),
{
    let ghost d0 = string_views(dirty@);
    let mut seen = false;
    let mut k: usize = 0;
    while k < dirty.len()
        invariant
            k <= dirty@.len(),
            d0 == string_views(dirty@),
            seen == d0.take(k as int).contains(r@),
        decreases dirty.len() - k,
    {
        assert(d0[k as int] == dirty@[k as int]@);
        proof {
            let a = d0.take(k + 1);
            let b = d0.take(k as int);
            assert(a.contains(r@) == (b.contains(r@) || d0[k as int] == r@)) by {
                if a.contains(r@) {
                    let w = choose|w: int| 0 <= w < a.len() && a[w] == r@;
                    if w < k {
                        assert(b[w] == a[w]);
                    }
                }
                if b.contains(r@) {
                    let w = choose|w: int| 0 <= w < b.len() && b[w] == r@;
                    assert(a[w] == b[w]);
                }
                if d0[k as int] == r@ {
                    assert(a[k as int] == r@);
                }
            }
        }
        if str_eq(dirty[k].as_str(), r.as_str()) {
            seen = true;
        }
        k = k + 1;
    }
    assert(d0.take(k as int) =~= d0);
    if !seen {
        dirty.push(r);
        proof {
            let n = string_views(dirty@);
            assert(n =~= d0.push(r@));
            assert forall|a: int, b: int| 0 <= a < b < n.len() implies n[a] != n[b] by {
                if b == d0.len() {
                    assert(d0[a] == n[a]);
                    assert(d0.contains(d0[a]));
                }
            }
            assert forall|x: Seq<char>| n.contains(x) <==> (d0.contains(x) || x == r@) by {
                if n.contains(x) {
                    let w = choose|w: int| 0 <= w < n.len() && n[w] == x;
                    if w < d0.len() {
                        assert(d0[w] == n[w]);
                    }
                }
                if d0.contains(x) {
                    let w = choose|w: int| 0 <= w < d0.len() && d0[w] == x;
                    assert(n[w] == d0[w]);
                }
                if x == r@ {
                    assert(n[d0.len() as int] == r@);
                }
            }
            assert(n.to_set() =~= d0.to_set().insert(r@));
        }
    } else {
        assert(d0.to_set() =~= d0.to_set().insert(r@));
    }
}

/// Counts one class.
fn count_class(stats: &mut crate::cli::WatchChangeStats, class: &PathClass)
    requires
        old(stats).total_paths < usize::MAX,
        old(stats).ignored_temp_paths < usize::MAX,
        old(stats).ignored_directory_paths < usize::MAX,
        old(stats).tree_source_paths < usize::MAX,
        old(stats).tree_dependency_paths < usize::MAX,
        old(stats).asset_paths < usize::MAX,
        old(stats).global_paths < usize::MAX,
    ensures
        final(stats).total_paths == old(stats).total_paths + 1,
        final(stats).ignored_temp_paths == old(stats).ignored_temp_paths + if kind_of(class.model()) == 0 { 1int } else { 0int },
        final(stats).ignored_directory_paths == old(stats).ignored_directory_paths + if kind_of(class.model()) == 1 { 1int } else { 0int },
        final(stats).tree_source_paths == old(stats).tree_source_paths + if kind_of(class.model()) == 2 { 1int } else { 0int },
        final(stats).tree_dependency_paths == old(stats).tree_dependency_paths + if kind_of(class.model()) == 3 { 1int } else { 0int },
        final(stats).asset_paths == old(stats).asset_paths + if kind_of(class.model()) == 4 { 1int } else { 0int },
        final(stats).global_paths == old(stats).global_paths + if kind_of(class.model()) == 5 { 1int } else { 0int },
{
    stats.total_paths = stats.total_paths + 1;
    match class {
        PathClass::Temp => stats.ignored_temp_paths = stats.ignored_temp_paths + 1,
        PathClass::Directory => stats.ignored_directory_paths = stats.ignored_directory_paths + 1,
        PathClass::TreeSource(_) => stats.tree_source_paths = stats.tree_source_paths + 1,
        PathClass::TreeDependency(_) => stats.tree_dependency_paths = stats.tree_dependency_paths + 1,
        PathClass::Asset => stats.asset_paths = stats.asset_paths + 1,
        PathClass::Global => stats.global_paths = stats.global_paths + 1,
    }
}

/// Sorts a batch of changed paths.
pub fn analyze_watch_changes(
    changed_paths: &Vec<ChangedPath>,
    trees_dir: &str,
    trees_dir_canonical: &str,
    assets_dir: &str,
    assets_dir_canonical: &str,
) -> (r: WatchChangeAnalysis)
    ensures
        ({
            let cs = classes(
                changed_paths@,
                trees_dir@,
                trees_dir_canonical@,
                assets_dir@,
                assets_dir_canonical@,
            );
            &&& r.stats.total_paths == changed_paths@.len()
            &&& r.stats.ignored_temp_paths == count_kind(cs, 0)
            &&& r.stats.ignored_directory_paths == count_kind(cs, 1)
            &&& r.stats.tree_source_paths == count_kind(cs, 2)
            &&& r.stats.tree_dependency_paths == count_kind(cs, 3)
            &&& r.stats.asset_paths == count_kind(cs, 4)
            &&& r.stats.global_paths == count_kind(cs, 5)
            &&& string_views(r.dirty_paths@).no_duplicates()
            &&& string_views(r.dirty_paths@).to_set() == dirty_of(cs)
        }),
{
    let ghost cs = classes(
        changed_paths@,
        trees_dir@,
        trees_dir_canonical@,
        assets_dir@,
        assets_dir_canonical@,
    );
    let mut dirty: Vec<String> = Vec::new();
    let mut stats = crate::cli::WatchChangeStats {
        total_paths: 0,
        tree_source_paths: 0,
        tree_dependency_paths: 0,
        asset_paths: 0,
        global_paths: 0,
        ignored_temp_paths: 0,
        ignored_directory_paths: 0,
    };
    assert(cs.take(0) =~= Seq::<ClassModel>::empty());
    assert(string_views(dirty@).to_set() =~= dirty_of(cs.take(0)));
    let mut i: usize = 0;
    while i < changed_paths.len()
        invariant
            i <= changed_paths@.len(),
            cs == classes(
                changed_paths@,
                trees_dir@,
                trees_dir_canonical@,
                assets_dir@,
                assets_dir_canonical@,
            ),
            stats.total_paths == i,
            stats.ignored_temp_paths == count_kind(cs.take(i as int), 0),
            stats.ignored_directory_paths == count_kind(cs.take(i as int), 1),
            stats.tree_source_paths == count_kind(cs.take(i as int), 2),
            stats.tree_dependency_paths == count_kind(cs.take(i as int), 3),
            stats.asset_paths == count_kind(cs.take(i as int), 4),
            stats.global_paths == count_kind(cs.take(i as int), 5),
            string_views(dirty@).no_duplicates(),
            string_views(dirty@).to_set() == dirty_of(cs.take(i as int)),
        decreases changed_paths.len() - i,
    {
        let ghost t0 = cs.take(i as int);
        let ghost t1 = cs.take(i + 1);
        proof {
            assert(t1 =~= t0.push(cs[i as int]));
            lemma_count_kind_bound(t0, 0);
            lemma_count_kind_bound(t0, 1);
            lemma_count_kind_bound(t0, 2);
            lemma_count_kind_bound(t0, 3);
            lemma_count_kind_bound(t0, 4);
            lemma_count_kind_bound(t0, 5);
        }
        let class = classify_changed_path(
            &changed_paths[i],
            trees_dir,
            trees_dir_canonical,
            assets_dir,
            assets_dir_canonical,
        );
        assert(cs[i as int] == class.model());
        count_class(&mut stats, &class);
        proof {
            assert(t1.drop_last() =~= t0);
            lemma_dirty_push(t0, class.model());
        }
        match class {
            PathClass::TreeSource(r) => add_distinct(&mut dirty, r),
            PathClass::TreeDependency(r) => add_distinct(&mut dirty, r),
            _ => {},
        }
        i = i + 1;
    }
    assert(cs.take(i as int) =~= cs);
    WatchChangeAnalysis { dirty_paths: dirty, stats }
}


// ---------------------------------------------------------------------------
// Watched paths
// ---------------------------------------------------------------------------
/// `name` joined onto the directory `root`: a `/` between them unless
/// `root` is empty or ends with one.
pub open spec fn join_spec(root: Seq<char>, name: Seq<char>) -> Seq<char> {
    if root.len() == 0 || root.last() == '/' {
        root + name
    } else {
        root + "/"@ + name
    }
}

pub fn join_path(root: &str, name: &str) -> (r: String)
    ensures
        r@ == join_spec(root@, name@),
{
    let mut v = chars_of(root);
    if v.len() > 0 && v[v.len() - 1] != '/' {
        v.push('/');
    }
    push_str(&mut v, name);
    proof {
        reveal_strlit("/");
    }
    string_of(v.as_slice())
}

/// What the server watches: the trees, the assets, the configuration, the
/// optional import files of the site root, and the theme files.
pub open spec fn watched_spec(
    root: Seq<char>,
    trees: Seq<char>,
    assets: Seq<char>,
    config: Seq<char>,
    themes: Seq<Seq<char>>,
) -> Seq<Seq<char>> {
    seq![
        trees,
        assets,
        config,
        join_spec(root, "import-meta.html"@),
        join_spec(root, "import-style.html"@),
        join_spec(root, "import-font.html"@),
        join_spec(root, "import-math.html"@),
    ] + themes
}

pub fn compose_watched_paths(
    root_dir: &str,
    trees_dir: String,
    assets_dir: String,
    config_file: String,
    theme_paths: Vec<String>,
) -> (r: Vec<String>)
    ensures
        string_views(r@) == watched_spec(
            root_dir@,
            trees_dir@,
            assets_dir@,
            config_file@,
            string_views(theme_paths@),
        ),
{
    let mut watched: Vec<String> = Vec::new();
    watched.push(trees_dir);
    watched.push(assets_dir);
    watched.push(config_file);
    watched.push(join_path(root_dir, "import-meta.html"));
    watched.push(join_path(root_dir, "import-style.html"));
    watched.push(join_path(root_dir, "import-font.html"));
    watched.push(join_path(root_dir, "import-math.html"));
    let ghost head = string_views(watched@);
    let mut i: usize = 0;
    while i < theme_paths.len()
        invariant
            i <= theme_paths@.len(),
            string_views(watched@) == head + string_views(theme_paths@).take(i as int),
        decreases theme_paths.len() - i,
    {
        let ghost w0 = string_views(watched@);
        watched.push(owned(theme_paths[i].as_str()));
        assert(string_views(theme_paths@).take(i + 1) =~= string_views(theme_paths@).take(i as int).push(theme_paths@[i as int]@));
        assert(string_views(watched@) =~= w0.push(theme_paths@[i as int]@));
        i = i + 1;
    }
    assert(string_views(theme_paths@).take(i as int) =~= string_views(theme_paths@));
    watched
}
} // verus!
