//! The commands of the command line and the decisions they make before any
//! file is touched.
use vstd::prelude::*;

use crate::slug::last_index_of;
use crate::text::{chars_of, decimal, push_all, push_decimal, push_str, slice_to_vec, string_of};

verus! {

/// `kodama new <site|config|section>`.
#[derive(Debug)]
pub struct NewCommandCli {
    pub command: NewCommand,
}

#[derive(Debug)]
pub enum NewCommand {
    /// Create a new kodama site.
    Site(NewSiteCommand),
    /// Create a new config file.
    Config(NewConfigCommand),
    /// Create a new section.
    Section(NewSectionCommand),
}

#[derive(Debug)]
pub struct NewSiteCommand {
    /// Path to the new site.
    pub path: String,
}

#[derive(Debug)]
pub struct NewConfigCommand {
    /// Path to the new configuration file.
    pub path: String,
}

#[derive(Debug)]
pub struct NewSectionCommand {
    /// Path to the new section.
    pub path: String,
    /// Path to the template file to use for the new section.
    pub template: String,
}

/// `kodama remove`: the sections to remove and the output directory.
#[derive(Debug)]
pub struct RemoveCommand {
    pub path: Vec<String>,
    pub output: String,
}

/// `kodama snip`.
#[derive(Debug)]
pub struct SnipCommand {
    pub config: String,
}

/// `kodama upgrade`.
#[derive(Debug)]
pub struct UpgradeCommand {
    pub config: String,
    pub output: Option<String>,
}

/// `kodama watch`.
#[derive(Debug)]
pub struct WatchCommand {
    pub output: String,
    pub dirs: Vec<String>,
    pub script: String,
}

/// Which optional outputs a compilation writes.
#[derive(Debug, Clone, Copy, PartialEq, Eq, Structural)]
pub struct CompileOutputs {
    /// `kodama.json`.
    pub indexes: bool,
    /// `kodama.graph.json`.
    pub graph: bool,
}

impl Default for CompileOutputs {
    /// Both outputs are written.
    fn default() -> (r: CompileOutputs)
        ensures
            r == (CompileOutputs { indexes: true, graph: true }),
    {
        CompileOutputs { indexes: true, graph: true }
    }
}

/// The flags that switch the optional outputs on or off.
#[derive(Debug, Clone, Copy, PartialEq, Eq, Structural, Default)]
pub struct OutputControlArgs {
    pub indexes: bool,
    pub no_indexes: bool,
    pub graph: bool,
    pub no_graph: bool,
}

/// An output is on when asked for, off when refused, else as by default.
pub open spec fn resolve_flag(on: bool, off: bool, default: bool) -> bool {
    if on {
        true
    } else if off {
        false
    } else {
        default
    }
}

impl OutputControlArgs {
    pub fn resolve(&self, defaults: CompileOutputs) -> (r: CompileOutputs)
        ensures
            r.indexes == resolve_flag(self.indexes, self.no_indexes, defaults.indexes),
            r.graph == resolve_flag(self.graph, self.no_graph, defaults.graph),
    {
        let indexes = if self.indexes {
            true
        } else if self.no_indexes {
            false
        } else {
            defaults.indexes
        };
        let graph = if self.graph {
            true
        } else if self.no_graph {
            false
        } else {
            defaults.graph
        };
        CompileOutputs { indexes, graph }
    }
}

/// `kodama serve`.
#[derive(Debug)]
pub struct ServeCommand {
    /// Path to the configuration file.
    pub config: String,
    pub verbose: bool,
    pub verbose_skip: bool,
    pub disable_reload: bool,
    /// Print watch dirty-path stats for each debounce batch.
    pub watch_stats: bool,
    pub output: OutputControlArgs,
}

/// While serving, the optional outputs are off unless asked for.
pub fn compile_outputs(command: &ServeCommand) -> (r: CompileOutputs)
    ensures
        r.indexes == resolve_flag(command.output.indexes, command.output.no_indexes, false),
        r.graph == resolve_flag(command.output.graph, command.output.no_graph, false),
{
    command.output.resolve(CompileOutputs { indexes: false, graph: false })
}

/// Whether pages reload themselves: as set when serving started, and on when
/// nothing was set.
pub fn live_reload(setting: Option<bool>) -> (r: bool)
    ensures
        r == match setting {
            Some(b) => b,
            None => true,
        },
{
    match setting {
        Some(b) => b,
        None => true,
    }
}

/// How the paths of one batch of file events were classified.
#[derive(Debug, Clone, Copy, PartialEq, Eq, Structural, Default)]
pub struct WatchChangeStats {
    pub total_paths: usize,
    pub tree_source_paths: usize,
    pub tree_dependency_paths: usize,
    pub asset_paths: usize,
    pub global_paths: usize,
    pub ignored_temp_paths: usize,
    pub ignored_directory_paths: usize,
}

impl WatchChangeStats {
    /// Whether anything that affects the output changed.
    pub fn has_effective_changes(self) -> (r: bool)
        ensures
            r == (self.tree_source_paths > 0 || self.tree_dependency_paths > 0 || self.asset_paths
                > 0 || self.global_paths > 0),
    {
        self.tree_source_paths > 0 || self.tree_dependency_paths > 0 || self.asset_paths > 0
            || self.global_paths > 0
    }
}

pub open spec fn watch_stats_spec(s: WatchChangeStats) -> Seq<char> {
    "[watch] Stats: total="@ + decimal(s.total_paths as nat) + ", tree_source="@ + decimal(
        s.tree_source_paths as nat,
    ) + ", tree_dependency="@ + decimal(s.tree_dependency_paths as nat) + ", assets="@
        + decimal(s.asset_paths as nat) + ", global="@ + decimal(s.global_paths as nat)
        + ", ignored_temp="@ + decimal(s.ignored_temp_paths as nat) + ", ignored_dir="@
        + decimal(s.ignored_directory_paths as nat)
}

/// One line that reports every counter.
pub fn format_watch_change_stats(stats: WatchChangeStats) -> (r: String)
    ensures
        r@ == watch_stats_spec(stats),
{
    let mut r: Vec<char> = Vec::new();
    push_str(&mut r, "[watch] Stats: total=");
    push_decimal(&mut r, stats.total_paths);
    push_str(&mut r, ", tree_source=");
    push_decimal(&mut r, stats.tree_source_paths);
    push_str(&mut r, ", tree_dependency=");
    push_decimal(&mut r, stats.tree_dependency_paths);
    push_str(&mut r, ", assets=");
    push_decimal(&mut r, stats.asset_paths);
    push_str(&mut r, ", global=");
    push_decimal(&mut r, stats.global_paths);
    push_str(&mut r, ", ignored_temp=");
    push_decimal(&mut r, stats.ignored_temp_paths);
    push_str(&mut r, ", ignored_dir=");
    push_decimal(&mut r, stats.ignored_directory_paths);
    assert(r@ =~= watch_stats_spec(stats));
    string_of(r.as_slice())
}

// ---------------------------------------------------------------------------
// Removing sections
// ---------------------------------------------------------------------------
/// Where the file name of a `/`-separated path starts.
pub open spec fn file_name_start(p: Seq<char>) -> int {
    match last_index_of(p, '/') {
        Some(k) => k + 1,
        None => 0,
    }
}

/// The position of the dot that starts the extension: the last dot of the
/// file name, unless that is its first character.
pub open spec fn extension_dot(p: Seq<char>) -> Option<int> {
    let s = file_name_start(p);
    match last_index_of(p.skip(s), '.') {
        Some(d) => if d > 0 {
            Some(s + d)
        } else {
            None
        },
        None => None,
    }
}

/// `p` with its extension replaced by (or extended with) `.ext`.
pub open spec fn with_extension(p: Seq<char>, ext: Seq<char>) -> Seq<char> {
    match extension_dot(p) {
        Some(d) => p.take(d) + "."@ + ext,
        None => p + "."@ + ext,
    }
}

/// The files that belong to one section: its source, its hash and entry
/// caches, and its page in the output directory.
pub open spec fn section_files(output: Seq<char>, p: Seq<char>) -> Seq<Seq<char>> {
    seq![
        p,
        ".cache/hash/"@ + p + ".hash"@,
        ".cache/entry/"@ + p + ".entry"@,
        output + "/"@ + with_extension(p, "html"@),
    ]
}

/// The files of every section, section after section.
pub open spec fn removal_plan(output: Seq<char>, paths: Seq<Seq<char>>) -> Seq<Seq<char>>
    decreases paths.len(),
{
    if paths.len() == 0 {
        Seq::empty()
    } else {
        removal_plan(output, paths.drop_last()) + section_files(output, paths.last())
    }
}

pub open spec fn views(v: Seq<String>) -> Seq<Seq<char>> {
    v.map_values(|s: String| s@)
}

fn with_html_extension(p: &[char]) -> (r: Vec<char>)
    ensures
        r@ == with_extension(p@, "html"@),
{
    with_ext_exec(p, "html")
}

/// `p` with its extension replaced by (or extended with) `.ext`.
pub fn with_ext_exec(p: &[char], ext: &str) -> (r: Vec<char>)
    ensures
        r@ == with_extension(p@, ext@),
{
    proof {
        crate::slug::lemma_last_index_of(p@, '/');
    }
    let n = p.len();
    let start: usize = match crate::slug::rfind_char(p, '/') {
        Some(k) => {
            assert(k < p@.len());
            k + 1
        },
        None => 0,
    };
    let name = slice_to_vec(p, start, p.len());
    assert(name@ =~= p@.skip(start as int));
    let dot = crate::slug::rfind_char(name.as_slice(), '.');
    proof {
        crate::slug::lemma_last_index_of(name@, '.');
    }
    let mut r = match dot {
        Some(d) => {
            if d > 0 {
                slice_to_vec(p, 0, start + d)
            } else {
                slice_to_vec(p, 0, p.len())
            }
        },
        None => slice_to_vec(p, 0, p.len()),
    };
    push_str(&mut r, ".");
    push_str(&mut r, ext);
    assert(p@.subrange(0, p@.len() as int) =~= p@);
    proof {
        match dot {
            Some(d) => {
                if d > 0 {
                    assert(p@.subrange(0, start + d) =~= p@.take(start + d));
                }
            },
            None => {},
        }
    }
    r
}

/// The files that removing the given sections deletes, in the order in
/// which they are deleted.
pub fn remove(command: &RemoveCommand) -> (r: Vec<String>)
    ensures
        views(r@) == removal_plan(command.output@, views(command.path@)),
{
    let ghost ps = views(command.path@);
    let mut r: Vec<String> = Vec::new();
    let mut i: usize = 0;
    while i < command.path.len()
        invariant
            i <= command.path@.len(),
            ps == views(command.path@),
            views(r@) == removal_plan(command.output@, ps.take(i as int)),
        decreases command.path.len() - i,
    {
        let p = chars_of(command.path[i].as_str());
        assert(ps.take(i + 1).drop_last() =~= ps.take(i as int));
        assert(ps.take(i + 1).last() == p@);
        let ghost r0 = views(r@);
        let source = string_of(p.as_slice());
        let mut hash: Vec<char> = Vec::new();
        push_str(&mut hash, ".cache/hash/");
        push_all(&mut hash, p.as_slice());
        push_str(&mut hash, ".hash");
        let mut entry: Vec<char> = Vec::new();
        push_str(&mut entry, ".cache/entry/");
        push_all(&mut entry, p.as_slice());
        push_str(&mut entry, ".entry");
        let mut html = chars_of(command.output.as_str());
        push_str(&mut html, "/");
        let page = with_html_extension(p.as_slice());
        push_all(&mut html, page.as_slice());
        r.push(source);
        r.push(string_of(hash.as_slice()));
        r.push(string_of(entry.as_slice()));
        r.push(string_of(html.as_slice()));
        assert(views(r@) =~= r0 + section_files(command.output@, p@));
        i = i + 1;
    }
    assert(ps.take(i as int) =~= ps);
    r
}


// ---------------------------------------------------------------------------
// New sections, snippets and the typst library
// ---------------------------------------------------------------------------
/// `s` with every occurrence of `pat` (left to right, not overlapping)
/// replaced by `rep`.
pub open spec fn replace_all(s: Seq<char>, pat: Seq<char>, rep: Seq<char>) -> Seq<char>
    decreases s.len(),
{
    if pat.len() == 0 {
        s
    } else {
        match crate::text::find_from(s, pat, 0) {
            None => s,
            Some(p) => if 0 <= p && p + pat.len() <= s.len() {
                s.take(p) + rep + replace_all(s.skip(p + pat.len()), pat, rep)
            } else {
                s
            },
        }
    }
}

/// The text of a new section: the template with `<FILE_NAME>` replaced by
/// the section's file name without extension.
pub fn fill_template(template: &str, name: &str) -> (r: String)
    ensures
        r@ == replace_all(template@, "<FILE_NAME>"@, name@),
{
    let pat = chars_of("<FILE_NAME>");
    proof {
        reveal_strlit("<FILE_NAME>");
    }
    let t = chars_of(template);
    let mut out: Vec<char> = Vec::new();
    let mut i: usize = 0;
    let mut done = false;
    assert(t@.skip(0) =~= t@);
    assert(out@ + replace_all(t@, pat@, name@) =~= replace_all(t@, pat@, name@));
    while !done
        invariant
            i <= t@.len(),
            t@ == template@,
            pat@ == "<FILE_NAME>"@,
            !done ==> out@ + replace_all(t@.skip(i as int), pat@, name@) == replace_all(t@, pat@, name@),
            done ==> out@ == replace_all(t@, pat@, name@),
        decreases t.len() - i, if done { 0int } else { 1int },
    {
        proof {
            reveal_strlit("<FILE_NAME>");
        }
        let rest = slice_to_vec(t.as_slice(), i, t.len());
        assert(rest@ =~= t@.skip(i as int));
        match crate::text::find_seq(rest.as_slice(), pat.as_slice(), 0) {
            None => {
                push_all(&mut out, rest.as_slice());
                done = true;
            },
            Some(p) => {
                proof {
                    crate::text::lemma_find_from_props(rest@, pat@, 0);
                }
                assert(p + 11 <= rest@.len());
                let before = slice_to_vec(rest.as_slice(), 0, p);
                let ghost o0 = out@;
                push_all(&mut out, before.as_slice());
                push_str(&mut out, name);
                proof {
                    assert(before@ =~= rest@.take(p as int));
                    assert(rest@.skip(p + 11) =~= t@.skip(i + p + 11));
                    assert(replace_all(rest@, pat@, name@) == rest@.take(p as int) + name@ + replace_all(rest@.skip(p + 11), pat@, name@));
                    assert(out@ =~= o0 + rest@.take(p as int) + name@);
                    assert(out@ + replace_all(t@.skip(i + p + 11), pat@, name@) =~= o0 + replace_all(rest@, pat@, name@));
                }
                i = i + p + 11;
            },
        }
    }
    string_of(out.as_slice())
}

/// The typst library file of a site: `_lib/kodama.typ` in the trees
/// directory next to the configuration file.
pub open spec fn kodama_typ_spec(config_path: Seq<char>, trees: Seq<char>) -> Seq<char> {
    let root = if config_path.len() == 0 {
        "."@
    } else {
        match last_index_of(config_path, '/') {
            Some(k) => config_path.take(k),
            None => Seq::empty(),
        }
    };
    crate::watch::join_spec(crate::watch::join_spec(crate::watch::join_spec(root, trees), "_lib"@), "kodama.typ"@)
}

pub fn trees_lib_kodama_typ_path(config_path: &str, trees: &str) -> (r: String)
    ensures
        r@ == kodama_typ_spec(config_path@, trees@),
{
    let c = chars_of(config_path);
    proof {
        crate::slug::lemma_last_index_of(c@, '/');
    }
    let root = if c.len() == 0 {
        crate::text::owned(".")
    } else {
        match crate::slug::rfind_char(c.as_slice(), '/') {
            Some(k) => {
                let v = slice_to_vec(c.as_slice(), 0, k);
                assert(v@ =~= c@.take(k as int));
                string_of(v.as_slice())
            },
            None => String::new(),
        }
    };
    let a = crate::watch::join_path(root.as_str(), trees);
    let b = crate::watch::join_path(a.as_str(), "_lib");
    crate::watch::join_path(b.as_str(), "kodama.typ")
}

/// What `str::to_lowercase` gives: the Unicode `Lowercase` mapping.
pub uninterp spec fn unicode_lowercase(s: Seq<char>) -> Seq<char>;

/// Calls `str::to_lowercase`. Its documentation defines the result by the
/// Unicode `Lowercase` mapping; the contract names that result and states
/// only what the mapping is on ASCII text: each letter `A`–`Z` becomes
/// `a`–`z` and every other ASCII character is kept. What it does to other
/// characters is left unsaid.
#[verifier::external_body]
fn str_to_lowercase(s: &str) -> (r: String)
    ensures
        r@ == unicode_lowercase(s@),
        (forall|i: int| 0 <= i < s@.len() ==> (s@[i] as u32) < 128) ==> r@ == s@.map_values(
            |c: char| crate::text::lower(c),
        ),
{
    s.to_lowercase()
}

/// An editor snippet for a section: its prefix (the title) and its body,
/// a reference definition `[label]: /<trees>/<slug>.<ext>` whose label is
/// the title in lower case with spaces as dashes. None without a plain
/// title or extension.
pub open spec fn snippet_spec(trees: Seq<char>, slug: Seq<char>, title: Option<Seq<char>>, ext: Option<Seq<char>>) -> Option<(Seq<char>, Seq<char>)> {
    match (title, ext) {
        (Some(t), Some(e)) => Some(
            (
                t,
                "["@ + crate::slug::replace_char(unicode_lowercase(t), ' ', '-') + "]: /"@ + trees
                    + "/"@ + slug + "."@ + e,
            ),
        ),
        _ => None,
    }
}

pub fn snippet(env: &crate::environment::Environment, slug: &crate::slug::Slug, metadata: &crate::entry::HTMLMetaData) -> (r: Option<(String, String)>)
    ensures
        match snippet_spec(env.config.kodama.trees@, slug@, metadata.text("title"@), metadata.text("ext"@)) {
            Some((p, b)) => r matches Some(x) && x.0@ == p && x.1@ == b,
            None => r is None,
        },
{
    let title = match metadata.get_str("title") {
        Some(t) => t,
        None => {
            return None;
        },
    };
    let ext = match metadata.get_str("ext") {
        Some(e) => e,
        None => {
            return None;
        },
    };
    let lower = str_to_lowercase(title);
    let lv = chars_of(lower.as_str());
    let label = crate::slug::replaced(lv.as_slice(), ' ', '-');
    let trees = crate::environment::trees_dir_without_root(env);
    let mut body: Vec<char> = Vec::new();
    push_str(&mut body, "[");
    push_all(&mut body, label.as_slice());
    push_str(&mut body, "]: /");
    push_str(&mut body, trees.as_str());
    push_str(&mut body, "/");
    push_str(&mut body, slug.as_str());
    push_str(&mut body, ".");
    push_str(&mut body, ext);
    Some((crate::text::owned(title), string_of(body.as_slice())))
}
} // verus!
