//! The build environment: where the site lives, its configuration, and
//! whether it is built for publishing or served locally. Every query takes
//! the environment it reads.
use vstd::prelude::*;

use crate::config::{Config, FooterMode, TocPlacement};
use crate::slug::{pretty_path_chars, pretty_path_spec, Slug};
use crate::text::{chars_of, has_prefix_str, owned, push_all, push_str, slice_to_vec, starts_with, string_of};

verus! {

#[derive(Debug, Clone, Copy, PartialEq, Eq, Structural)]
pub enum BuildMode {
    /// Build mode for the `kodama build` command.
    Build,
    /// Serve mode for the `kodama serve` command.
    Serve,
}

#[derive(Debug)]
pub struct Environment {
    /// The project root: the directory of the configuration file.
    pub root: String,
    pub config_file: String,
    pub config: Config,
    pub build_mode: BuildMode,
}

pub open spec fn string_opt_view(o: Option<String>) -> Option<Seq<char>> {
    match o {
        Some(s) => Some(s@),
        None => None,
    }
}

/// Root `./`, configuration `./Kodama.toml`, default configuration, build
/// mode.
pub fn default_environment() -> (r: Environment)
    ensures
        r.root@ == "./"@,
        r.config_file@ == "./Kodama.toml"@,
        r.build_mode == BuildMode::Build,
        crate::config::config_default_spec(r.config),
{
    Environment {
        root: owned("./"),
        config_file: owned("./Kodama.toml"),
        config: Config::default_config(),
        build_mode: BuildMode::Build,
    }
}

/// The environment tests run in: the default one.
pub fn mock_environment() -> (r: Environment)
    ensures
        r.root@ == "./"@,
        r.config_file@ == "./Kodama.toml"@,
        r.build_mode == BuildMode::Build,
        crate::config::config_default_spec(r.config),
{
    default_environment()
}

/// `.html` unless urls are pretty.
pub fn to_page_suffix(pretty_urls: bool) -> (r: String)
    ensures
        r@ == (if pretty_urls {
            ""@
        } else {
            ".html"@
        }),
{
    if pretty_urls {
        owned("")
    } else {
        owned(".html")
    }
}

pub fn is_serve(env: &Environment) -> (r: bool)
    ensures
        r == (env.build_mode == BuildMode::Serve),
{
    matches!(env.build_mode, BuildMode::Serve)
}

pub fn is_build(env: &Environment) -> (r: bool)
    ensures
        r == (env.build_mode == BuildMode::Build),
{
    matches!(env.build_mode, BuildMode::Build)
}

pub fn is_short_slug(env: &Environment) -> (r: bool)
    ensures
        r == env.config.build.short_slug,
{
    env.config.build.short_slug
}

pub fn trees_dir_without_root(env: &Environment) -> (r: String)
    ensures
        r@ == env.config.kodama.trees@,
{
    env.config.kodama.trees.clone()
}

pub fn assets_dir_without_root(env: &Environment) -> (r: String)
    ensures
        r@ == env.config.kodama.assets@,
{
    env.config.kodama.assets.clone()
}

pub fn build_dir(env: &Environment) -> (r: String)
    ensures
        r@ == env.config.build.output@,
{
    env.config.build.output.clone()
}

pub fn serve_dir(env: &Environment) -> (r: String)
    ensures
        r@ == env.config.serve.output@,
{
    env.config.serve.output.clone()
}

/// The configured base url.
pub fn base_url_raw(env: &Environment) -> (r: String)
    ensures
        r@ == env.config.kodama.base_url@,
{
    env.config.kodama.base_url.clone()
}

/// The base url pages link with: the configured one when building, `/`
/// when serving.
pub open spec fn base_url_spec(env: Environment) -> Seq<char> {
    match env.build_mode {
        BuildMode::Build => env.config.kodama.base_url@,
        BuildMode::Serve => "/"@,
    }
}

pub fn base_url(env: &Environment) -> (r: String)
    ensures
        r@ == base_url_spec(*env),
{
    match env.build_mode {
        BuildMode::Build => env.config.kodama.base_url.clone(),
        BuildMode::Serve => owned("/"),
    }
}

pub fn is_toc_left(env: &Environment) -> (r: bool)
    ensures
        r == (env.config.toc.placement == TocPlacement::Left),
{
    match env.config.toc.placement {
        TocPlacement::Left => true,
        TocPlacement::Right => false,
    }
}

pub fn is_toc_sticky(env: &Environment) -> (r: bool)
    ensures
        r == env.config.toc.sticky,
{
    env.config.toc.sticky
}

pub fn is_toc_mobile_sticky(env: &Environment) -> (r: bool)
    ensures
        r == env.config.toc.mobile_sticky,
{
    env.config.toc.mobile_sticky
}

pub fn toc_max_width(env: &Environment) -> (r: String)
    ensures
        r@ == env.config.toc.max_width@,
{
    env.config.toc.max_width.clone()
}

pub fn get_edit_text(env: &Environment) -> (r: String)
    ensures
        r@ == env.config.text.edit@,
{
    env.config.text.edit.clone()
}

pub fn get_toc_text(env: &Environment) -> (r: String)
    ensures
        r@ == env.config.text.toc@,
{
    env.config.text.toc.clone()
}

pub fn get_footer_references_text(env: &Environment) -> (r: String)
    ensures
        r@ == env.config.text.references@,
{
    env.config.text.references.clone()
}

pub fn get_footer_backlinks_text(env: &Environment) -> (r: String)
    ensures
        r@ == env.config.text.backlinks@,
{
    env.config.text.backlinks.clone()
}

pub fn footer_mode(env: &Environment) -> (r: FooterMode)
    ensures
        r == env.config.build.footer_mode,
{
    env.config.build.footer_mode
}

pub fn inline_css(env: &Environment) -> (r: bool)
    ensures
        r == env.config.build.inline_css,
{
    env.config.build.inline_css
}

pub fn asref(env: &Environment) -> (r: bool)
    ensures
        r == env.config.build.asref,
{
    env.config.build.asref
}

fn clone_opt(o: &Option<String>) -> (r: Option<String>)
    ensures
        string_opt_view(r) == string_opt_view(*o),
{
    match o {
        Some(s) => Some(s.clone()),
        None => None,
    }
}

pub fn deploy_edit_url(env: &Environment) -> (r: Option<String>)
    ensures
        string_opt_view(r) == string_opt_view(env.config.build.edit),
{
    clone_opt(&env.config.build.edit)
}

pub fn editor_url(env: &Environment) -> (r: Option<String>)
    ensures
        string_opt_view(r) == string_opt_view(env.config.serve.edit),
{
    clone_opt(&env.config.serve.edit)
}

pub open spec fn string_views(v: Seq<String>) -> Seq<Seq<char>> {
    v.map_values(|s: String| s@)
}

pub fn serve_command(env: &Environment) -> (r: Vec<String>)
    ensures
        string_views(r@) == string_views(env.config.serve.command@),
{
    let c = &env.config.serve.command;
    let mut r: Vec<String> = Vec::new();
    let mut i: usize = 0;
    while i < c.len()
        invariant
            i <= c@.len(),
            string_views(r@) == string_views(c@.take(i as int)),
        decreases c.len() - i,
    {
        let ghost before = string_views(r@);
        r.push(c[i].clone());
        assert(string_views(r@) =~= before.push(c@[i as int]@));
        assert(string_views(c@.take(i + 1)) =~= string_views(c@.take(i as int)).push(c@[i as int]@));
        i = i + 1;
    }
    assert(c@.take(i as int) =~= c@);
    r
}

/// The base url followed by the cleaned path without its leading `/` or
/// `./`.
pub open spec fn full_url_spec(env: Environment, path: Seq<char>) -> Seq<char> {
    let p = pretty_path_spec(path);
    if starts_with(p, "/"@) {
        base_url_spec(env) + p.skip(1)
    } else if starts_with(p, "./"@) {
        base_url_spec(env) + p.skip(2)
    } else {
        base_url_spec(env) + p
    }
}

pub fn full_url(env: &Environment, path: &str) -> (r: String)
    ensures
        r@ == full_url_spec(*env, path@),
{
    let pv = chars_of(path);
    let p = pretty_path_chars(pv.as_slice());
    let base = base_url(env);
    let mut r = chars_of(base.as_str());
    let rest = if has_prefix_str(p.as_slice(), "/") {
        proof {
            reveal_strlit("/");
        }
        slice_to_vec(p.as_slice(), 1, p.len())
    } else if has_prefix_str(p.as_slice(), "./") {
        proof {
            reveal_strlit("./");
        }
        slice_to_vec(p.as_slice(), 2, p.len())
    } else {
        slice_to_vec(p.as_slice(), 0, p.len())
    };
    push_all(&mut r, rest.as_slice());
    assert(p@.subrange(0, p@.len() as int) =~= p@);
    assert(p@.len() >= 1 ==> p@.subrange(1, p@.len() as int) =~= p@.skip(1));
    assert(p@.len() >= 2 ==> p@.subrange(2, p@.len() as int) =~= p@.skip(2));
    string_of(r.as_slice())
}

/// The page url of a section.
pub open spec fn full_html_url_spec(env: Environment, slug: Seq<char>) -> Seq<char> {
    full_url_spec(
        env,
        slug + if env.config.build.pretty_urls {
            ""@
        } else {
            ".html"@
        },
    )
}

pub fn full_html_url(env: &Environment, slug: &Slug) -> (r: String)
    ensures
        r@ == full_html_url_spec(*env, slug@),
{
    let suffix = to_page_suffix(env.config.build.pretty_urls);
    let mut v = slug.chars();
    push_str(&mut v, suffix.as_str());
    let s = string_of(v.as_slice());
    full_url(env, s.as_str())
}

} // verus!
