//! Typst links in a page: figures rendered from typst files, typst compiled
//! to HTML fragments, inline typst, and the imports shared by inline typst.
//!
//! A link `[caption](file.typ#:block)` becomes a figure; `#:span` an inline
//! image; `#:code` a figure with its source; `#:html` the file compiled to
//! HTML; `#:shared` records an import for the inline typst that follows;
//! `[text](inline)` renders its text with typst.
use vstd::prelude::*;

use crate::cli::{with_ext_exec, with_extension};
use crate::environment::{full_url, full_url_spec, trees_dir_without_root, Environment};
use crate::html::{figure_spec, html_figure};
use crate::links::{
    inline_typst_spec, is_inline_typst, lead_slashes, relocate_spec,
    relocate_trees_path_with_trees_root, resolve_section_url, section_url_spec, skip_lead_slashes,
    url_action, url_action_spec,
};
use crate::markdown::{EventModel, MdEvent, Step, StepModel};
use crate::recorder::State;
use crate::slug::Slug;
use crate::text::{chars_of, owned, push_all, push_str, str_eq, string_of};

verus! {

/// The path of a typst file named by a link from `slug`, relative to the
/// trees directory.
pub open spec fn typst_path_spec(env: Environment, slug: Seq<char>, url: Seq<char>) -> Seq<char> {
    let p = relocate_spec(section_url_spec(url, slug), env.config.kodama.trees@);
    p.skip(lead_slashes(p) as int)
}

pub fn typst_path(env: &Environment, current_slug: &Slug, url: &str) -> (r: String)
    ensures
        r@ == typst_path_spec(*env, current_slug@, url@),
{
    let resolved = resolve_section_url(url, current_slug);
    let trees = trees_dir_without_root(env);
    let relocated = relocate_trees_path_with_trees_root(resolved.as_str(), trees.as_str());
    let p = chars_of(relocated.as_str());
    string_of(skip_lead_slashes(p.as_slice()).as_slice())
}

/// The plain ASCII for a typographic character.
pub open spec fn plain_punctuation(c: char) -> Seq<char> {
    if c == '\u{201c}' || c == '\u{201d}' {
        seq!['"']
    } else if c == '\u{2018}' || c == '\u{2019}' {
        seq!['\'']
    } else if c == '\u{2013}' {
        seq!['-', '-']
    } else if c == '\u{2014}' {
        seq!['-', '-', '-']
    } else {
        seq![c]
    }
}

/// Curly quotes and dashes turned back into plain ASCII.
pub open spec fn unsmart(s: Seq<char>) -> Seq<char>
    decreases s.len(),
{
    if s.len() == 0 {
        Seq::empty()
    } else {
        unsmart(s.drop_last()) + plain_punctuation(s.last())
    }
}

/// Reverses smart punctuation to plain ASCII characters.
pub fn smart_punctuation_reverse(s: &str) -> (r: String)
    ensures
        r@ == unsmart(s@),
{
    let v = chars_of(s);
    let mut out: Vec<char> = Vec::new();
    let mut i: usize = 0;
    while i < v.len()
        invariant
            i <= v@.len(),
            v@ == s@,
            out@ == unsmart(v@.take(i as int)),
        decreases v.len() - i,
    {
        assert(v@.take(i + 1).drop_last() =~= v@.take(i as int));
        let c = v[i];
        let ghost o0 = out@;
        if c == '\u{201c}' || c == '\u{201d}' {
            out.push('"');
        } else if c == '\u{2018}' || c == '\u{2019}' {
            out.push('\'');
        } else if c == '\u{2013}' {
            out.push('-');
            out.push('-');
        } else if c == '\u{2014}' {
            out.push('-');
            out.push('-');
            out.push('-');
        } else {
            out.push(c);
        }
        assert(out@ =~= o0 + plain_punctuation(c));
        i = i + 1;
    }
    assert(v@.take(i as int) =~= v@);
    string_of(out.as_slice())
}

/// A segment `math` after the first `-` of an inline typst url.
pub open spec fn math_at(u: Seq<char>, i: int) -> bool {
    1 <= i && i + 4 <= u.len() && u[i - 1] == '-' && u.subrange(i, i + 4) == "math"@ && (i + 4
        == u.len() || u[i + 4] == '-')
}

pub open spec fn math_mode(u: Seq<char>) -> bool {
    exists|i: int| #[trigger] math_at(u, i)
}

fn is_math_mode(u: &[char]) -> (r: bool)
    ensures
        r == math_mode(u@),
{
    proof {
        reveal_strlit("math");
    }
    let n = u.len();
    if n < 5 {
        assert(!math_mode(u@));
        return false;
    }
    let mut i: usize = 1;
    while i <= n - 4
        invariant
            1 <= i,
            i <= n - 3,
            n >= 5,
            n == u@.len(),
            forall|j: int| 1 <= j < i ==> !math_at(u@, j),
        decreases n - i,
    {
        proof {
            reveal_strlit("math");
        }
        if u[i - 1] == '-' && u[i] == 'm' && u[i + 1] == 'a' && u[i + 2] == 't' && u[i + 3] == 'h'
            && (i + 4 == n || u[i + 4] == '-') {
            assert(u@.subrange(i as int, i + 4) =~= "math"@);
            assert(math_at(u@, i as int));
            return true;
        }
        assert(!math_at(u@, i as int)) by {
            if math_at(u@, i as int) {
                assert(u@.subrange(i as int, i + 4)[0] == 'm');
                assert(u@.subrange(i as int, i + 4)[1] == 'a');
                assert(u@.subrange(i as int, i + 4)[2] == 't');
                assert(u@.subrange(i as int, i + 4)[3] == 'h');
            }
        }
        i = i + 1;
    }
    assert forall|j: int| !math_at(u@, j) by {
        if 1 <= j < i {
        } else if j >= i {
            assert(!(j + 4 <= u@.len()));
        }
    }
    false
}

/// Lines joined with `\n`.
pub open spec fn join_lines(v: Seq<Seq<char>>) -> Seq<char>
    decreases v.len(),
{
    if v.len() == 0 {
        Seq::empty()
    } else if v.len() == 1 {
        v[0]
    } else {
        join_lines(v.drop_last()) + "\n"@ + v.last()
    }
}

/// What a closed typst link becomes.
#[derive(Debug)]
pub enum TypstOutput {
    /// Finished HTML.
    Html(String),
    /// A typst file to compile to an HTML fragment: its path under the
    /// trees directory, and the path of the fragment in the output.
    CompileHtml { source: String, html_path: String },
    /// Typst source to render as an inline SVG.
    InlineSvg(String),
    /// A figure shown with its source: the image url, the caption, and the
    /// path of the typst file under the trees directory.
    FigureCode { image_src: String, caption: String, path: String },
}

pub enum TypstOutModel {
    Html(Seq<char>),
    CompileHtml(Seq<char>, Seq<char>),
    InlineSvg(Seq<char>),
    FigureCode(Seq<char>, Seq<char>, Seq<char>),
}

impl TypstOutput {
    pub open spec fn model(&self) -> TypstOutModel {
        match self {
            TypstOutput::Html(h) => TypstOutModel::Html(h@),
            TypstOutput::CompileHtml { source, html_path } => TypstOutModel::CompileHtml(
                source@,
                html_path@,
            ),
            TypstOutput::InlineSvg(s) => TypstOutModel::InlineSvg(s@),
            TypstOutput::FigureCode { image_src, caption, path } => TypstOutModel::FigureCode(
                image_src@,
                caption@,
                path@,
            ),
        }
    }
}

pub open spec fn typst_step_model(s: Step<TypstOutput>) -> StepModel<TypstOutModel> {
    match s {
        Step::Pass => StepModel::Pass,
        Step::Absorb => StepModel::Absorb,
        Step::Emit(o) => StepModel::Emit(o.model()),
    }
}

/// The typst processor as values.
pub struct TypstModel {
    pub slug: Seq<char>,
    pub state: State,
    pub shareds: Seq<Seq<char>>,
    pub url: Option<Seq<char>>,
    pub content: Option<Seq<char>>,
}

/// The states in which a link's text is collected.
pub open spec fn typst_inline_allowed(s: State) -> bool {
    s == State::Shared || s == State::InlineTypst || s == State::Html || s == State::ImageSpan
        || s == State::ImageBlock || s == State::ImageCode
}

/// The kind and url a link opens with; `None` for a link left as it is.
pub open spec fn typst_opening(dest: Seq<char>) -> Option<(State, Seq<char>)> {
    let url = url_action_spec(dest).0;
    let action = url_action_spec(dest).1;
    if inline_typst_spec(dest) {
        Some((State::InlineTypst, dest))
    } else if action == "code"@ {
        Some((State::ImageCode, url))
    } else if action == "html"@ {
        Some((State::Html, url))
    } else if action == "shared"@ {
        Some((State::Shared, url))
    } else if action == "block"@ {
        Some((State::ImageBlock, url))
    } else if action == "span"@ {
        Some((State::ImageSpan, url))
    } else {
        None
    }
}

pub open spec fn text_or_empty(u: Option<Seq<char>>) -> Seq<char> {
    match u {
        Some(s) => s,
        None => Seq::empty(),
    }
}

pub open spec fn appended(m: TypstModel, t: Seq<char>) -> TypstModel {
    TypstModel { content: Some(text_or_empty(m.content) + t), ..m }
}

pub open spec fn exited(m: TypstModel) -> TypstModel {
    TypstModel { state: State::Writable, url: None, content: None, ..m }
}

/// The source of an inline typst link: the shared imports, then its text
/// (in math mode when the url asks for it).
pub open spec fn inline_source(shareds: Seq<Seq<char>>, url: Seq<char>, text: Seq<char>) -> Seq<
    char,
> {
    let body = unsmart(text);
    let body = if math_mode(url) {
        "$"@ + body + "$"@
    } else {
        body
    };
    join_lines(shareds) + "\n"@ + body
}

/// The import line a shared link records.
pub open spec fn import_line(url: Seq<char>, imported: Option<Seq<char>>) -> Seq<char> {
    "#import \""@ + url + "\": "@ + match imported {
        Some(i) => i,
        None => "*"@,
    }
}

/// What the open link becomes when it closes.
pub open spec fn typst_closing(env: Environment, m: TypstModel) -> (TypstModel, StepModel<
    TypstOutModel,
>) {
    let caption = text_or_empty(m.content);
    let p = typst_path_spec(env, m.slug, text_or_empty(m.url));
    let svg = full_url_spec(env, with_extension(p, "svg"@));
    match m.state {
        State::Html => (
            exited(m),
            StepModel::Emit(TypstOutModel::CompileHtml(p, with_extension(p, "html"@))),
        ),
        State::InlineTypst => match m.url {
            None => (TypstModel { state: State::Writable, content: None, ..m }, StepModel::Absorb),
            Some(u) => (
                exited(m),
                StepModel::Emit(TypstOutModel::InlineSvg(inline_source(m.shareds, u, caption))),
            ),
        },
        State::ImageSpan => (
            exited(m),
            StepModel::Emit(TypstOutModel::Html(figure_spec(svg, false, caption))),
        ),
        State::ImageBlock => (
            exited(m),
            StepModel::Emit(TypstOutModel::Html(figure_spec(svg, true, caption))),
        ),
        State::ImageCode => (
            exited(m),
            StepModel::Emit(TypstOutModel::FigureCode(svg, caption, p)),
        ),
        State::Shared => match m.url {
            None => (TypstModel { state: State::Writable, ..m }, StepModel::Absorb),
            Some(u) => (
                TypstModel {
                    shareds: m.shareds.push(import_line(u, m.content)),
                    ..exited(m)
                },
                StepModel::Absorb,
            ),
        },
        _ => (m, StepModel::Pass),
    }
}

/// One event through the typst processor.
pub open spec fn typst_step(env: Environment, m: TypstModel, e: EventModel) -> (TypstModel, StepModel<
    TypstOutModel,
>) {
    match e {
        EventModel::LinkStart(dest) => match typst_opening(dest) {
            Some((s, u)) => (TypstModel { state: s, url: Some(u), ..m }, StepModel::Absorb),
            None => (m, StepModel::Pass),
        },
        EventModel::Text(t) => if typst_inline_allowed(m.state) {
            (appended(m, t), StepModel::Absorb)
        } else {
            (m, StepModel::Pass)
        },
        EventModel::InlineMath(x) => if typst_inline_allowed(m.state) {
            (appended(m, "$"@ + x + "$"@), StepModel::Absorb)
        } else {
            (m, StepModel::Pass)
        },
        EventModel::Code(c) => if typst_inline_allowed(m.state) {
            (appended(m, "<code>"@ + c + "</code>"@), StepModel::Absorb)
        } else {
            (m, StepModel::Pass)
        },
        EventModel::LinkEnd => typst_closing(env, m),
        _ => (m, StepModel::Pass),
    }
}

/// The typst processor of one page.
#[derive(Debug)]
pub struct TypstImage {
    pub state: State,
    pub shareds: Vec<String>,
    pub url: Option<String>,
    pub content: Option<String>,
    pub current_slug: Slug,
}

pub open spec fn string_views(v: Seq<String>) -> Seq<Seq<char>> {
    v.map_values(|s: String| s@)
}

impl TypstImage {
    pub open spec fn model(&self) -> TypstModel {
        TypstModel {
            slug: self.current_slug@,
            state: self.state,
            shareds: string_views(self.shareds@),
            url: crate::section::opt_str(self.url),
            content: crate::section::opt_str(self.content),
        }
    }

    /// A processor for the page `current_slug`: no link open, nothing
    /// shared.
    pub fn process(current_slug: Slug) -> (r: TypstImage)
        ensures
            r.model() == (TypstModel {
                slug: current_slug@,
                state: State::Writable,
                shareds: Seq::empty(),
                url: None,
                content: None,
            }),
    {
        let r = TypstImage {
            state: State::Writable,
            shareds: Vec::new(),
            url: None,
            content: None,
            current_slug,
        };
        assert(string_views(r.shareds@) =~= Seq::<Seq<char>>::empty());
        r
    }

    fn exit(&mut self)
        ensures
            final(self).model() == exited(old(self).model()),
    {
        self.state = State::Writable;
        self.url = None;
        self.content = None;
    }

    fn append(&mut self, t: &str)
        ensures
            final(self).model() == appended(old(self).model(), t@),
    {
        let mut v = match &self.content {
            Some(c) => chars_of(c.as_str()),
            None => Vec::new(),
        };
        push_str(&mut v, t);
        self.content = Some(string_of(v.as_slice()));
    }

    fn allows_inline(&self) -> (r: bool)
        ensures
            r == typst_inline_allowed(self.state),
    {
        match self.state {
            State::Shared | State::InlineTypst | State::Html | State::ImageSpan
            | State::ImageBlock | State::ImageCode => true,
            _ => false,
        }
    }

    fn open_link(&mut self, dest_url: &str) -> (r: bool)
        ensures
            match typst_opening(dest_url@) {
                Some((s, u)) => r && final(self).model() == (TypstModel {
                    state: s,
                    url: Some(u),
                    ..old(self).model()
                }),
                None => !r && final(self).model() == old(self).model(),
            },
    {
        let (url, action) = url_action(dest_url);
        proof {
            reveal_strlit("code");
            reveal_strlit("html");
            reveal_strlit("shared");
            reveal_strlit("block");
            reveal_strlit("span");
        }
        if is_inline_typst(dest_url) {
            self.state = State::InlineTypst;
            self.url = Some(owned(dest_url));
        } else if str_eq(action.as_str(), "code") {
            self.state = State::ImageCode;
            self.url = Some(url);
        } else if str_eq(action.as_str(), "html") {
            self.state = State::Html;
            self.url = Some(url);
        } else if str_eq(action.as_str(), "shared") {
            self.state = State::Shared;
            self.url = Some(url);
        } else if str_eq(action.as_str(), "block") {
            self.state = State::ImageBlock;
            self.url = Some(url);
        } else if str_eq(action.as_str(), "span") {
            self.state = State::ImageSpan;
            self.url = Some(url);
        } else {
            return false;
        }
        true
    }

    fn joined_shareds(&self) -> (r: Vec<char>)
        ensures
            r@ == join_lines(string_views(self.shareds@)),
    {
        let ghost sv = string_views(self.shareds@);
        let mut out: Vec<char> = Vec::new();
        let mut i: usize = 0;
        while i < self.shareds.len()
            invariant
                i <= self.shareds@.len(),
                sv == string_views(self.shareds@),
                out@ == join_lines(sv.take(i as int)),
            decreases self.shareds.len() - i,
        {
            assert(sv.take(i + 1).drop_last() =~= sv.take(i as int));
            let ghost o0 = out@;
            if i > 0 {
                out.push('\n');
            }
            push_str(&mut out, self.shareds[i].as_str());
            proof {
                reveal_strlit("\n");
                if i == 0 {
                    assert(out@ =~= sv.take(1)[0]);
                } else {
                    assert(out@ =~= o0 + "\n"@ + sv[i as int]);
                }
            }
            i = i + 1;
        }
        assert(sv.take(i as int) =~= sv);
        out
    }

    fn close_link(&mut self, env: &Environment) -> (r: Step<TypstOutput>)
        ensures
            (final(self).model(), typst_step_model(r)) == typst_closing(*env, old(self).model()),
    {
        proof {
            reveal_strlit("svg");
            reveal_strlit("html");
            reveal_strlit("$");
            reveal_strlit("\n");
            reveal_strlit("#import \"");
            reveal_strlit("\": ");
            reveal_strlit("*");
        }
        let url_text = match &self.url {
            Some(u) => owned(u.as_str()),
            None => String::new(),
        };
        let caption = match &self.content {
            Some(c) => owned(c.as_str()),
            None => String::new(),
        };
        match self.state {
            State::Html => {
                let p = typst_path(env, &self.current_slug, url_text.as_str());
                let pv = chars_of(p.as_str());
                let html_path = string_of(with_ext_exec(pv.as_slice(), "html").as_slice());
                let ghost goal = typst_closing(*env, self.model());
                self.exit();
                let r = Step::Emit(TypstOutput::CompileHtml { source: p, html_path });
                assert(typst_step_model(r) == goal.1);
                r
            },
            State::InlineTypst => {
                match &self.url {
                    None => {
                        self.state = State::Writable;
                        self.content = None;
                        return Step::Absorb;
                    },
                    Some(_) => {},
                }
                let mut src = self.joined_shareds();
                let ghost j = src@;
                src.push('\n');
                let body = smart_punctuation_reverse(caption.as_str());
                let uv = chars_of(url_text.as_str());
                if is_math_mode(uv.as_slice()) {
                    src.push('$');
                    push_str(&mut src, body.as_str());
                    src.push('$');
                    assert(src@ =~= j + "\n"@ + ("$"@ + body@ + "$"@));
                } else {
                    push_str(&mut src, body.as_str());
                    assert(src@ =~= j + "\n"@ + body@);
                }
                assert(src@ == inline_source(string_views(self.shareds@), url_text@, caption@));
                let ghost goal = typst_closing(*env, self.model());
                self.exit();
                let r = Step::Emit(TypstOutput::InlineSvg(string_of(src.as_slice())));
                assert(typst_step_model(r) == goal.1);
                r
            },
            State::ImageSpan | State::ImageBlock | State::ImageCode => {
                let p = typst_path(env, &self.current_slug, url_text.as_str());
                let pv = chars_of(p.as_str());
                let svg_path = string_of(with_ext_exec(pv.as_slice(), "svg").as_slice());
                let src = full_url(env, svg_path.as_str());
                let st = self.state;
                let ghost goal = typst_closing(*env, self.model());
                self.exit();
                if st == State::ImageCode {
                    let r = Step::Emit(TypstOutput::FigureCode { image_src: src, caption, path: p });
                    assert(typst_step_model(r) == goal.1);
                    r
                } else {
                    let html = html_figure(src.as_str(), st == State::ImageBlock, caption);
                    let r = Step::Emit(TypstOutput::Html(html));
                    assert(typst_step_model(r) == goal.1);
                    r
                }
            },
            State::Shared => {
                match &self.url {
                    None => {
                        self.state = State::Writable;
                        return Step::Absorb;
                    },
                    Some(_) => {},
                }
                let mut line: Vec<char> = Vec::new();
                push_str(&mut line, "#import \"");
                push_str(&mut line, url_text.as_str());
                push_str(&mut line, "\": ");
                match &self.content {
                    Some(c) => push_str(&mut line, c.as_str()),
                    None => push_str(&mut line, "*"),
                }
                let ghost s0 = string_views(self.shareds@);
                let l = string_of(line.as_slice());
                self.shareds.push(l);
                assert(string_views(self.shareds@) =~= s0.push(import_line(
                    url_text@,
                    old(self).model().content,
                )));
                self.exit();
                Step::Absorb
            },
            _ => Step::Pass,
        }
    }

    /// Takes one event of the page.
    pub fn next(&mut self, env: &Environment, e: &MdEvent) -> (r: Step<TypstOutput>)
        ensures
            (final(self).model(), typst_step_model(r)) == typst_step(*env, old(self).model(), e.model()),
    {
        proof {
            reveal_strlit("$");
            reveal_strlit("<code>");
            reveal_strlit("</code>");
        }
        match e {
            MdEvent::LinkStart(dest) => {
                if self.open_link(dest.as_str()) {
                    Step::Absorb
                } else {
                    Step::Pass
                }
            },
            MdEvent::Text(t) => {
                if self.allows_inline() {
                    self.append(t.as_str());
                    Step::Absorb
                } else {
                    Step::Pass
                }
            },
            MdEvent::InlineMath(x) => {
                if self.allows_inline() {
                    let mut v: Vec<char> = Vec::new();
                    push_str(&mut v, "$");
                    push_str(&mut v, x.as_str());
                    push_str(&mut v, "$");
                    let s = string_of(v.as_slice());
                    self.append(s.as_str());
                    Step::Absorb
                } else {
                    Step::Pass
                }
            },
            MdEvent::Code(c) => {
                if self.allows_inline() {
                    let mut v: Vec<char> = Vec::new();
                    push_str(&mut v, "<code>");
                    push_str(&mut v, c.as_str());
                    push_str(&mut v, "</code>");
                    let s = string_of(v.as_slice());
                    self.append(s.as_str());
                    Step::Absorb
                } else {
                    Step::Pass
                }
            },
            MdEvent::LinkEnd => self.close_link(env),
            _ => Step::Pass,
        }
    }
}

} // verus!
