//! Site configuration (`Kodama.toml`) and its defaults.
use vstd::prelude::*;

use crate::text::{chars_of, eq_str, owned};

verus! {

#[derive(Debug)]
pub struct Config {
    pub kodama: Kodama,
    pub toc: Toc,
    pub text: Text,
    pub build: Build,
    pub serve: Serve,
}

#[derive(Debug)]
pub struct Kodama {
    pub trees: String,
    pub assets: String,
    pub base_url: String,
    pub themes: Vec<String>,
}

#[derive(Debug, Clone, Copy, PartialEq, Eq, Structural)]
pub enum TocPlacement {
    Left,
    Right,
}

#[derive(Debug)]
pub struct Toc {
    pub placement: TocPlacement,
    pub sticky: bool,
    pub mobile_sticky: bool,
    pub max_width: String,
}

/// Words shown on generated pages.
#[derive(Debug)]
pub struct Text {
    pub edit: String,
    pub toc: String,
    pub references: String,
    pub backlinks: String,
}

#[derive(Debug)]
pub struct Build {
    pub typst_root: String,
    pub short_slug: bool,
    pub pretty_urls: bool,
    pub footer_mode: FooterMode,
    pub inline_css: bool,
    pub asref: bool,
    pub output: String,
    pub edit: Option<String>,
}

#[derive(Debug)]
pub struct Serve {
    pub edit: Option<String>,
    pub output: String,
    pub command: Vec<String>,
}

#[derive(Debug, Clone, Copy, PartialEq, Eq, Structural)]
pub enum FooterMode {
    Link,
    Embed,
}

#[derive(Debug, Clone, Copy, PartialEq, Eq, Structural)]
pub struct ParseTocPlacementError;

#[derive(Debug, Clone, Copy, PartialEq, Eq, Structural)]
pub struct ParseFooterModeError;

pub open spec fn default_config_path() -> Seq<char> {
    "./Kodama.toml"@
}

/// The default trees directory, assets directory and base url.
pub open spec fn kodama_default_spec(k: Kodama) -> bool {
    k.trees@ == "trees"@ && k.assets@ == "assets"@ && k.base_url@ == "/"@ && k.themes@.len() == 0
}

/// The default table of contents: on the right, sticky on every screen, at
/// most `45ex` wide.
pub open spec fn toc_default_spec(t: Toc) -> bool {
    &&& t.placement == TocPlacement::Right
    &&& t.sticky
    &&& t.mobile_sticky
    &&& t.max_width@ == "45ex"@
}

/// The default texts of the page.
pub open spec fn text_default_spec(t: Text) -> bool {
    &&& t.edit@ == "[edit]"@
    &&& t.toc@ == "Table of Contents"@
    &&& t.references@ == "References"@
    &&& t.backlinks@ == "Backlinks"@
}

/// The default build settings.
pub open spec fn build_default_spec(b: Build) -> bool {
    &&& b.typst_root@ == "trees"@
    &&& !b.short_slug
    &&& !b.pretty_urls
    &&& b.footer_mode == FooterMode::Link
    &&& !b.inline_css
    &&& !b.asref
    &&& b.output@ == "./publish"@
    &&& b.edit is None
}

/// The default serve settings.
pub open spec fn serve_default_spec(s: Serve) -> bool {
    &&& s.edit matches Some(e) && e@ == "vscode://file/"@
    &&& s.output@ == "./.cache/publish"@
    &&& s.command@.len() == 5
    &&& s.command@[0]@ == "miniserve"@
    &&& s.command@[1]@ == "<output>"@
    &&& s.command@[2]@ == "--index"@
    &&& s.command@[3]@ == "index.html"@
    &&& s.command@[4]@ == "--pretty-urls"@
}

/// Every section of the configuration at its default.
pub open spec fn config_default_spec(c: Config) -> bool {
    &&& kodama_default_spec(c.kodama)
    &&& toc_default_spec(c.toc)
    &&& text_default_spec(c.text)
    &&& build_default_spec(c.build)
    &&& serve_default_spec(c.serve)
}

impl Kodama {
    pub fn default_kodama() -> (r: Kodama)
        ensures
            kodama_default_spec(r),
    {
        Kodama {
            trees: owned("trees"),
            assets: owned("assets"),
            base_url: owned("/"),
            themes: Vec::new(),
        }
    }
}

impl Toc {
    /// On the right, sticky on every screen, at most `45ex` wide.
    pub fn default_toc() -> (r: Toc)
        ensures
            r.placement == TocPlacement::Right,
            r.sticky,
            r.mobile_sticky,
            r.max_width@ == "45ex"@,
    {
        Toc {
            placement: TocPlacement::Right,
            sticky: true,
            mobile_sticky: true,
            max_width: owned("45ex"),
        }
    }
}

impl Text {
    pub fn default_text() -> (r: Text)
        ensures
            r.edit@ == "[edit]"@,
            r.toc@ == "Table of Contents"@,
            r.references@ == "References"@,
            r.backlinks@ == "Backlinks"@,
    {
        Text {
            edit: owned("[edit]"),
            toc: owned("Table of Contents"),
            references: owned("References"),
            backlinks: owned("Backlinks"),
        }
    }
}

impl Build {
    /// Typst root `trees`, long slugs, `.html` urls, linked footers, external
    /// CSS, output to `./publish`, no edit link.
    pub fn default_build() -> (r: Build)
        ensures
            r.typst_root@ == "trees"@,
            !r.short_slug,
            !r.pretty_urls,
            r.footer_mode == FooterMode::Link,
            !r.inline_css,
            !r.asref,
            r.output@ == "./publish"@,
            r.edit is None,
    {
        Build {
            typst_root: owned("trees"),
            short_slug: false,
            pretty_urls: false,
            footer_mode: FooterMode::Link,
            inline_css: false,
            asref: false,
            output: owned("./publish"),
            edit: None,
        }
    }
}

impl Serve {
    /// Edit links open VS Code, output to `./.cache/publish`, served by
    /// `miniserve <output> --index index.html --pretty-urls`.
    pub fn default_serve() -> (r: Serve)
        ensures
            r.edit matches Some(e) && e@ == "vscode://file/"@,
            r.output@ == "./.cache/publish"@,
            r.command@.len() == 5,
            r.command@[0]@ == "miniserve"@,
            r.command@[1]@ == "<output>"@,
            r.command@[2]@ == "--index"@,
            r.command@[3]@ == "index.html"@,
            r.command@[4]@ == "--pretty-urls"@,
    {
        let mut command: Vec<String> = Vec::new();
        command.push(owned("miniserve"));
        command.push(owned("<output>"));
        command.push(owned("--index"));
        command.push(owned("index.html"));
        command.push(owned("--pretty-urls"));
        Serve {
            edit: Some(owned("vscode://file/")),
            output: owned("./.cache/publish"),
            command,
        }
    }
}

impl Config {
    /// Every section at its default.
    pub fn default_config() -> (r: Config)
        ensures
            config_default_spec(r),
    {
        Config {
            kodama: Kodama::default_kodama(),
            toc: Toc::default_toc(),
            text: Text::default_text(),
            build: Build::default_build(),
            serve: Serve::default_serve(),
        }
    }
}

impl TocPlacement {
    /// `left` or `right`.
    pub fn parse(s: &str) -> (r: Result<TocPlacement, ParseTocPlacementError>)
        ensures
            s@ == "left"@ ==> r == Ok::<TocPlacement, ParseTocPlacementError>(TocPlacement::Left),
            s@ == "right"@ ==> r == Ok::<TocPlacement, ParseTocPlacementError>(
                TocPlacement::Right,
            ),
            s@ != "left"@ && s@ != "right"@ ==> r is Err,
    {
        let c = chars_of(s);
        proof {
            reveal_strlit("left");
            reveal_strlit("right");
            assert("left"@.len() == 4);
            assert("right"@.len() == 5);
        }
        if eq_str(c.as_slice(), "left") {
            Ok(TocPlacement::Left)
        } else if eq_str(c.as_slice(), "right") {
            Ok(TocPlacement::Right)
        } else {
            Err(ParseTocPlacementError)
        }
    }

    /// The name `parse` reads.
    pub fn as_str(&self) -> (r: &'static str)
        ensures
            *self == TocPlacement::Left ==> r@ == "left"@,
            *self == TocPlacement::Right ==> r@ == "right"@,
    {
        match self {
            TocPlacement::Left => "left",
            TocPlacement::Right => "right",
        }
    }
}

impl FooterMode {
    /// `link` or `embed`.
    pub fn parse(s: &str) -> (r: Result<FooterMode, ParseFooterModeError>)
        ensures
            s@ == "link"@ ==> r == Ok::<FooterMode, ParseFooterModeError>(FooterMode::Link),
            s@ == "embed"@ ==> r == Ok::<FooterMode, ParseFooterModeError>(FooterMode::Embed),
            s@ != "link"@ && s@ != "embed"@ ==> r is Err,
    {
        let c = chars_of(s);
        proof {
            reveal_strlit("link");
            reveal_strlit("embed");
            assert("link"@.len() == 4);
            assert("embed"@.len() == 5);
        }
        if eq_str(c.as_slice(), "link") {
            Ok(FooterMode::Link)
        } else if eq_str(c.as_slice(), "embed") {
            Ok(FooterMode::Embed)
        } else {
            Err(ParseFooterModeError)
        }
    }

    /// The name `parse` reads.
    pub fn as_str(&self) -> (r: &'static str)
        ensures
            *self == FooterMode::Link ==> r@ == "link"@,
            *self == FooterMode::Embed ==> r@ == "embed"@,
    {
        match self {
            FooterMode::Link => "link",
            FooterMode::Embed => "embed",
        }
    }
}

} // verus!
