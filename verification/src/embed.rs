//! Links in a page: embeds, includes, local, external and asset links, and
//! links whose target is refused.
//!
//! While a link is open its text is collected; when it closes, the link
//! becomes an embed, a local link, an included file, or finished HTML.
use vstd::prelude::*;

use crate::environment::{assets_dir_without_root, trees_dir_without_root, Environment};
use crate::html::{html_link, link_spec};
use crate::links::{
    assets_file_spec, embed_option_spec, embed_url_spec, external_spec, include_url_spec,
    is_assets_file_with_assets_root, is_external_link, is_local_link_with_assets,
    is_safe_link_target, local_link_spec, local_url_spec, option_prefix_len, parse_embed_text,
    resolve_embed_url_with_trees_root, resolve_include_url, resolve_local_link_url_with_trees_root,
    safe_target_spec, url_action, url_action_spec,
};
use crate::markdown::{
    inline_html, inline_models, render_inline, EventModel, Inline, InlineModel, MdEvent, Step,
    StepModel,
};
use crate::recorder::State;
use crate::section::{
    default_option_spec, remove_tags, remove_tags_spec, EmbedContent, LocalLink, SectionOption,
};
use crate::slug::Slug;
use crate::text::{chars_of, owned, push_str, str_eq, string_of};

verus! {

/// What a closed link becomes.
#[derive(Debug)]
pub enum EmbedOutput {
    /// Finished HTML.
    Html(String),
    /// Plain text.
    Text(String),
    /// A section embedded here.
    Embed(EmbedContent),
    /// A link to a section.
    Local(LocalLink),
    /// A file to show as a code block: its path from the site root, and the
    /// language the block is marked with.
    Include { url: String, language: String },
}

pub enum OutputModel {
    Html(Seq<char>),
    Text(Seq<char>),
    /// Url, title, options.
    Embed(Seq<char>, Option<Seq<char>>, SectionOption),
    /// Url, text.
    Local(Seq<char>, Option<Seq<char>>),
    /// Path, language.
    Include(Seq<char>, Seq<char>),
}

impl EmbedOutput {
    pub open spec fn model(&self) -> OutputModel {
        match self {
            EmbedOutput::Html(h) => OutputModel::Html(h@),
            EmbedOutput::Text(t) => OutputModel::Text(t@),
            EmbedOutput::Embed(e) => OutputModel::Embed(
                e.url@,
                crate::section::opt_str(e.title),
                e.option,
            ),
            EmbedOutput::Local(l) => OutputModel::Local(l.url@, crate::section::opt_str(l.text)),
            EmbedOutput::Include { url, language } => OutputModel::Include(url@, language@),
        }
    }
}

pub open spec fn step_model(s: Step<EmbedOutput>) -> StepModel<OutputModel> {
    match s {
        Step::Pass => StepModel::Pass,
        Step::Absorb => StepModel::Absorb,
        Step::Emit(o) => StepModel::Emit(o.model()),
    }
}

/// The link processor as values: the page, the asset and tree directories,
/// the open link's kind and url, and its text so far.
pub struct EmbedModel {
    pub slug: Seq<char>,
    pub assets: Seq<char>,
    pub trees: Seq<char>,
    pub state: State,
    pub url: Option<Seq<char>>,
    pub content: Seq<InlineModel>,
}

/// The states in which a link's text is collected.
pub open spec fn inline_allowed(s: State) -> bool {
    s == State::Embed || s == State::Include || s == State::LocalLink || s == State::ExternalLink
        || s == State::AssetFile || s == State::UnsafeLink
}

/// The kind and url a link opens with; `None` for a link left as it is.
/// A refused target keeps the url that was there.
pub open spec fn link_opening(m: EmbedModel, dest: Seq<char>) -> Option<(State, Option<Seq<char>>)> {
    let url = url_action_spec(dest).0;
    let action = url_action_spec(dest).1;
    if !safe_target_spec(url) {
        Some((State::UnsafeLink, m.url))
    } else if action == "embed"@ {
        Some((State::Embed, Some(embed_url_spec(url, m.slug, m.trees))))
    } else if action == "include"@ {
        Some((State::Include, Some(include_url_spec(url, m.slug))))
    } else if external_spec(url) {
        Some((State::ExternalLink, Some(url)))
    } else if local_link_spec(dest, m.assets) {
        Some((State::LocalLink, Some(local_url_spec(url, m.slug, m.trees))))
    } else if assets_file_spec(url, m.assets) {
        Some((State::AssetFile, Some(url)))
    } else {
        None
    }
}

pub open spec fn url_or_empty(u: Option<Seq<char>>) -> Seq<char> {
    match u {
        Some(s) => s,
        None => Seq::empty(),
    }
}

/// The options an embed's text starts with, and the text without them.
pub open spec fn embed_text_options(c: Seq<InlineModel>) -> (SectionOption, Seq<InlineModel>) {
    if c.len() > 0 && c[0] is Text {
        let t = c[0]->Text_0;
        (
            embed_option_spec(t),
            c.update(0, InlineModel::Text(t.skip(option_prefix_len(t) as int))),
        )
    } else {
        (default_option_spec(), c)
    }
}

/// What the open link becomes when it closes; `None` where no link is open.
pub open spec fn link_closing(m: EmbedModel) -> Option<OutputModel> {
    let url = url_or_empty(m.url);
    let c = m.content;
    match m.state {
        State::Embed => {
            let opts = embed_text_options(c);
            let title = if c.len() == 0 {
                None
            } else {
                let h = inline_html(opts.1);
                if h.len() == 0 {
                    None
                } else {
                    Some(h)
                }
            };
            Some(OutputModel::Embed(url, title, opts.0))
        },
        State::Include => Some(
            OutputModel::Include(
                url,
                if c.len() == 0 {
                    "plain"@
                } else {
                    inline_html(c)
                },
            ),
        ),
        State::LocalLink => Some(
            OutputModel::Local(
                url,
                if c.len() == 0 {
                    None
                } else {
                    Some(inline_html(c))
                },
            ),
        ),
        State::ExternalLink => {
            let text = inline_html(c);
            let title = if url == text {
                url
            } else {
                text + " ["@ + url + "]"@
            };
            Some(OutputModel::Html(link_spec(url, title, text, "external"@)))
        },
        State::AssetFile => {
            let text = inline_html(c);
            Some(OutputModel::Html(link_spec(url, text, text, "asset"@)))
        },
        State::UnsafeLink => Some(
            OutputModel::Text(
                if c.len() == 0 {
                    Seq::empty()
                } else {
                    remove_tags_spec(inline_html(c))
                },
            ),
        ),
        _ => None,
    }
}

pub open spec fn with_content(m: EmbedModel, c: Seq<InlineModel>) -> EmbedModel {
    EmbedModel { content: c, ..m }
}

/// One event through the link processor.
pub open spec fn embed_step(m: EmbedModel, e: EventModel) -> (EmbedModel, StepModel<OutputModel>) {
    match e {
        EventModel::LinkStart(dest) => match link_opening(m, dest) {
            Some((s, u)) => (EmbedModel { state: s, url: u, ..m }, StepModel::Absorb),
            None => (m, StepModel::Pass),
        },
        EventModel::LinkEnd => match link_closing(m) {
            Some(out) => (
                EmbedModel { state: State::Writable, url: None, content: Seq::empty(), ..m },
                StepModel::Emit(out),
            ),
            None => (m, StepModel::Pass),
        },
        EventModel::Text(t) => if inline_allowed(m.state) {
            (with_content(m, m.content.push(InlineModel::Text(t))), StepModel::Absorb)
        } else {
            (m, StepModel::Pass)
        },
        EventModel::InlineHtml(h) => if inline_allowed(m.state) {
            (with_content(m, m.content.push(InlineModel::InlineHtml(h))), StepModel::Absorb)
        } else {
            (m, StepModel::Pass)
        },
        EventModel::Code(c) => if inline_allowed(m.state) {
            (with_content(m, m.content.push(InlineModel::Code(c))), StepModel::Absorb)
        } else {
            (m, StepModel::Pass)
        },
        EventModel::InlineMath(x) => {
            let r = "$"@ + x + "$"@;
            if inline_allowed(m.state) {
                (with_content(m, m.content.push(InlineModel::Text(r))), StepModel::Absorb)
            } else {
                (m, StepModel::Emit(OutputModel::Text(r)))
            }
        },
        EventModel::DisplayMath(x) => (m, StepModel::Emit(OutputModel::Text("$$"@ + x + "$$"@))),
        _ => (m, StepModel::Pass),
    }
}

/// The link processor of one page.
#[derive(Debug)]
pub struct Embed {
    pub current_slug: Slug,
    pub assets_dir_name: String,
    pub trees_dir_name: String,
    pub state: State,
    pub url: Option<String>,
    pub content: Vec<Inline>,
}

impl Embed {
    pub open spec fn model(&self) -> EmbedModel {
        EmbedModel {
            slug: self.current_slug@,
            assets: self.assets_dir_name@,
            trees: self.trees_dir_name@,
            state: self.state,
            url: crate::section::opt_str(self.url),
            content: inline_models(self.content@),
        }
    }

    /// A processor for the page `current_slug`, with the directories of the
    /// environment.
    pub fn process(env: &Environment, current_slug: Slug) -> (r: Embed)
        ensures
            r.model() == (EmbedModel {
                slug: current_slug@,
                assets: env.config.kodama.assets@,
                trees: env.config.kodama.trees@,
                state: State::Writable,
                url: None,
                content: Seq::empty(),
            }),
    {
        Embed::process_with_roots(
            current_slug,
            assets_dir_without_root(env),
            trees_dir_without_root(env),
        )
    }

    /// A processor for the page `current_slug` with the given directories.
    pub fn process_with_roots(
        current_slug: Slug,
        assets_dir_name: String,
        trees_dir_name: String,
    ) -> (r: Embed)
        ensures
            r.model() == (EmbedModel {
                slug: current_slug@,
                assets: assets_dir_name@,
                trees: trees_dir_name@,
                state: State::Writable,
                url: None,
                content: Seq::empty(),
            }),
    {
        let r = Embed {
            current_slug,
            assets_dir_name,
            trees_dir_name,
            state: State::Writable,
            url: None,
            content: Vec::new(),
        };
        assert(inline_models(r.content@) =~= Seq::<InlineModel>::empty());
        r
    }

    /// Closes the open link: its url (empty when none) and its text.
    fn exit(&mut self) -> (r: (String, Vec<Inline>))
        ensures
            r.0@ == url_or_empty(old(self).model().url),
            inline_models(r.1@) == old(self).model().content,
            final(self).model() == (EmbedModel {
                state: State::Writable,
                url: None,
                content: Seq::empty(),
                ..old(self).model()
            }),
    {
        self.state = State::Writable;
        let url = match self.url.take() {
            Some(u) => u,
            None => String::new(),
        };
        let mut content: Vec<Inline> = Vec::new();
        std::mem::swap(&mut content, &mut self.content);
        assert(inline_models(self.content@) =~= Seq::<InlineModel>::empty());
        (url, content)
    }

    fn push_inline(&mut self, piece: Inline)
        ensures
            final(self).model() == with_content(
                old(self).model(),
                old(self).model().content.push(piece.model()),
            ),
    {
        let ghost c0 = inline_models(self.content@);
        self.content.push(piece);
        assert(inline_models(self.content@) =~= c0.push(piece.model()));
    }

    fn open_link(&mut self, dest_url: &str) -> (r: bool)
        ensures
            match link_opening(old(self).model(), dest_url@) {
                Some((s, u)) => r && final(self).model() == (EmbedModel {
                    state: s,
                    url: u,
                    ..old(self).model()
                }),
                None => !r && final(self).model() == old(self).model(),
            },
    {
        let (url, action) = url_action(dest_url);
        proof {
            reveal_strlit("embed");
            reveal_strlit("include");
        }
        if !is_safe_link_target(url.as_str()) {
            self.state = State::UnsafeLink;
        } else if str_eq(action.as_str(), "embed") {
            self.state = State::Embed;
            self.url = Some(
                resolve_embed_url_with_trees_root(
                    url.as_str(),
                    &self.current_slug,
                    self.trees_dir_name.as_str(),
                ),
            );
        } else if str_eq(action.as_str(), "include") {
            self.state = State::Include;
            self.url = Some(resolve_include_url(url.as_str(), &self.current_slug));
        } else if is_external_link(url.as_str()) {
            self.state = State::ExternalLink;
            self.url = Some(url);
        } else if is_local_link_with_assets(dest_url, self.assets_dir_name.as_str()) {
            self.state = State::LocalLink;
            self.url = Some(
                resolve_local_link_url_with_trees_root(
                    url.as_str(),
                    &self.current_slug,
                    self.trees_dir_name.as_str(),
                ),
            );
        } else if is_assets_file_with_assets_root(url.as_str(), self.assets_dir_name.as_str()) {
            self.state = State::AssetFile;
            self.url = Some(url);
        } else {
            return false;
        }
        true
    }

    /// The embed a closed link makes: options and title from its text.
    fn close_embed(url: String, content: Vec<Inline>) -> (r: EmbedContent)
        ensures
            OutputModel::Embed(r.url@, crate::section::opt_str(r.title), r.option) == ({
                let c = inline_models(content@);
                let opts = embed_text_options(c);
                OutputModel::Embed(
                    url@,
                    if c.len() == 0 {
                        None
                    } else if inline_html(opts.1).len() == 0 {
                        None
                    } else {
                        Some(inline_html(opts.1))
                    },
                    opts.0,
                )
            }),
    {
        let ghost c = inline_models(content@);
        let mut content = content;
        if content.len() == 0 {
            return EmbedContent { url, title: None, option: SectionOption::default_option() };
        }
        let mut option = SectionOption::default_option();
        let first_text = match &content[0] {
            Inline::Text(t) => Some(owned(t.as_str())),
            _ => None,
        };
        match first_text {
            Some(t) => {
                let (opt, rest) = parse_embed_text(t.as_str());
                option = opt;
                let ghost c0 = inline_models(content@);
                content.set(0, Inline::Text(rest));
                assert(inline_models(content@) =~= c0.update(
                    0,
                    InlineModel::Text(t@.skip(option_prefix_len(t@) as int)),
                ));
            },
            None => {},
        }
        let title = render_inline(&content);
        let title = if title.as_str().is_empty() {
            None
        } else {
            Some(title)
        };
        EmbedContent { url, title, option }
    }

    /// What the open link becomes when it closes; `None` when no link is
    /// open.
    fn close_link(&mut self) -> (r: Option<EmbedOutput>)
        ensures
            match link_closing(old(self).model()) {
                Some(out) => r matches Some(o) && o.model() == out && final(self).model() == (
                EmbedModel {
                    state: State::Writable,
                    url: None,
                    content: Seq::empty(),
                    ..old(self).model()
                }),
                None => r is None && final(self).model() == old(self).model(),
            },
    {
        proof {
            reveal_strlit("plain");
            reveal_strlit("external");
            reveal_strlit("asset");
            reveal_strlit(" [");
            reveal_strlit("]");
        }
        match self.state {
            State::Embed => {
                let (url, content) = self.exit();
                Some(EmbedOutput::Embed(Embed::close_embed(url, content)))
            },
            State::Include => {
                let (url, content) = self.exit();
                let language = if content.len() == 0 {
                    owned("plain")
                } else {
                    render_inline(&content)
                };
                Some(EmbedOutput::Include { url, language })
            },
            State::LocalLink => {
                let (url, content) = self.exit();
                let text = if content.len() == 0 {
                    None
                } else {
                    Some(render_inline(&content))
                };
                Some(EmbedOutput::Local(LocalLink { url, text }))
            },
            State::ExternalLink => {
                let (url, content) = self.exit();
                let text = render_inline(&content);
                let title = if str_eq(url.as_str(), text.as_str()) {
                    owned(url.as_str())
                } else {
                    let mut v = chars_of(text.as_str());
                    push_str(&mut v, " [");
                    push_str(&mut v, url.as_str());
                    push_str(&mut v, "]");
                    string_of(v.as_slice())
                };
                let html = html_link(url.as_str(), title.as_str(), text.as_str(), "external");
                Some(EmbedOutput::Html(html))
            },
            State::AssetFile => {
                let (url, content) = self.exit();
                let text = render_inline(&content);
                let html = html_link(url.as_str(), text.as_str(), text.as_str(), "asset");
                Some(EmbedOutput::Html(html))
            },
            State::UnsafeLink => {
                let (_, content) = self.exit();
                let text = if content.len() == 0 {
                    String::new()
                } else {
                    let h = render_inline(&content);
                    remove_tags(h.as_str())
                };
                Some(EmbedOutput::Text(text))
            },
            _ => None,
        }
    }

    fn allows_inline(&self) -> (r: bool)
        ensures
            r == inline_allowed(self.state),
    {
        match self.state {
            State::Embed | State::Include | State::LocalLink | State::ExternalLink
            | State::AssetFile | State::UnsafeLink => true,
            _ => false,
        }
    }

    /// Takes one event of the page.
    pub fn next(&mut self, e: &MdEvent) -> (r: Step<EmbedOutput>)
        ensures
            (final(self).model(), step_model(r)) == embed_step(old(self).model(), e.model()),
    {
        proof {
            reveal_strlit("$");
            reveal_strlit("$$");
        }
        match e {
            MdEvent::LinkStart(dest) => {
                if self.open_link(dest.as_str()) {
                    Step::Absorb
                } else {
                    Step::Pass
                }
            },
            MdEvent::LinkEnd => match self.close_link() {
                Some(out) => Step::Emit(out),
                None => Step::Pass,
            },
            MdEvent::Text(t) => {
                if self.allows_inline() {
                    self.push_inline(Inline::Text(owned(t.as_str())));
                    Step::Absorb
                } else {
                    Step::Pass
                }
            },
            MdEvent::InlineHtml(h) => {
                if self.allows_inline() {
                    self.push_inline(Inline::InlineHtml(owned(h.as_str())));
                    Step::Absorb
                } else {
                    Step::Pass
                }
            },
            MdEvent::Code(c) => {
                if self.allows_inline() {
                    self.push_inline(Inline::Code(owned(c.as_str())));
                    Step::Absorb
                } else {
                    Step::Pass
                }
            },
            MdEvent::InlineMath(x) => {
                let mut v: Vec<char> = Vec::new();
                push_str(&mut v, "$");
                push_str(&mut v, x.as_str());
                push_str(&mut v, "$");
                let r = string_of(v.as_slice());
                if self.allows_inline() {
                    self.push_inline(Inline::Text(r));
                    Step::Absorb
                } else {
                    Step::Emit(EmbedOutput::Text(r))
                }
            },
            MdEvent::DisplayMath(x) => {
                let mut v: Vec<char> = Vec::new();
                push_str(&mut v, "$$");
                push_str(&mut v, x.as_str());
                push_str(&mut v, "$$");
                Step::Emit(EmbedOutput::Text(string_of(v.as_slice())))
            },
            _ => Step::Pass,
        }
    }
}

} // verus!
