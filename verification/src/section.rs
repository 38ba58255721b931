//! The content model of a section before embeds and links are resolved.
use vstd::prelude::*;

use crate::text::{chars_of, push_all, string_of};

verus! {

/// How an embedded section is shown.
#[derive(Debug, Clone, Copy, PartialEq, Eq, Structural)]
pub struct SectionOption {
    pub numbering: bool,
    pub details_open: bool,
    pub catalog: bool,
}

impl SectionOption {
    pub fn new(numbering: bool, details_open: bool, catalog: bool) -> (r: SectionOption)
        ensures
            r == (SectionOption { numbering, details_open, catalog }),
    {
        SectionOption { numbering, details_open, catalog }
    }

    /// Unnumbered, open, listed in the catalog.
    pub fn default_option() -> (r: SectionOption)
        ensures
            r == default_option_spec(),
    {
        SectionOption { numbering: false, details_open: true, catalog: true }
    }
}

pub open spec fn default_option_spec() -> SectionOption {
    SectionOption { numbering: false, details_open: true, catalog: true }
}

impl Default for SectionOption {
    fn default() -> (r: SectionOption)
        ensures
            r == default_option_spec(),
    {
        SectionOption::default_option()
    }
}

/// A section embedded at this point.
#[derive(Debug)]
pub struct EmbedContent {
    pub url: String,
    pub title: Option<String>,
    pub option: SectionOption,
}

/// A link to another section.
#[derive(Debug)]
pub struct LocalLink {
    pub url: String,
    pub text: Option<String>,
}

/// One piece of a section's content.
#[derive(Debug)]
pub enum LazyContent {
    Plain(String),
    Embed(EmbedContent),
    Local(LocalLink),
}

/// A section's content: finished HTML, or pieces still to resolve.
#[derive(Debug)]
pub enum HTMLContent {
    Plain(String),
    Lazy(Vec<LazyContent>),
}

/// What a piece of content is, as values.
pub enum PieceModel {
    Plain(Seq<char>),
    /// Url, title, options.
    Embed(Seq<char>, Option<Seq<char>>, SectionOption),
    /// Url, link text.
    Local(Seq<char>, Option<Seq<char>>),
}

/// What a section's content is, as values.
pub enum ContentModel {
    Plain(Seq<char>),
    Lazy(Seq<PieceModel>),
}

pub open spec fn opt_str(o: Option<String>) -> Option<Seq<char>> {
    match o {
        Some(s) => Some(s@),
        None => None,
    }
}

impl LazyContent {
    pub open spec fn model(&self) -> PieceModel {
        match self {
            LazyContent::Plain(s) => PieceModel::Plain(s@),
            LazyContent::Embed(e) => PieceModel::Embed(e.url@, opt_str(e.title), e.option),
            LazyContent::Local(l) => PieceModel::Local(l.url@, opt_str(l.text)),
        }
    }
}

pub open spec fn piece_models(v: Seq<LazyContent>) -> Seq<PieceModel> {
    v.map_values(|p: LazyContent| p.model())
}

impl HTMLContent {
    pub open spec fn model(&self) -> ContentModel {
        match self {
            HTMLContent::Plain(s) => ContentModel::Plain(s@),
            HTMLContent::Lazy(v) => ContentModel::Lazy(piece_models(v@)),
        }
    }
}

/// `t` appended to the pieces: joined to a plain last piece, else as a new
/// plain piece; nothing for empty text.
pub open spec fn push_text(ps: Seq<PieceModel>, t: Seq<char>) -> Seq<PieceModel> {
    if t.len() == 0 {
        ps
    } else if ps.len() > 0 && ps.last() is Plain {
        ps.drop_last().push(PieceModel::Plain(ps.last()->Plain_0 + t))
    } else {
        ps.push(PieceModel::Plain(t))
    }
}

/// The content made of the pieces: plain when there is at most one plain
/// piece, lazy otherwise.
pub open spec fn build_content(ps: Seq<PieceModel>) -> ContentModel {
    if ps.len() == 0 {
        ContentModel::Plain(Seq::empty())
    } else if ps.len() == 1 && ps[0] is Plain {
        ContentModel::Plain(ps[0]->Plain_0)
    } else {
        ContentModel::Lazy(ps)
    }
}

/// Collects content pieces, joining adjacent text.
pub struct ContentBuilder {
    pub pieces: Vec<LazyContent>,
}

impl ContentBuilder {
    pub fn new() -> (r: ContentBuilder)
        ensures
            piece_models(r.pieces@) == Seq::<PieceModel>::empty(),
    {
        let r = ContentBuilder { pieces: Vec::new() };
        assert(piece_models(r.pieces@) =~= Seq::<PieceModel>::empty());
        r
    }

    pub fn push_str(&mut self, t: &[char])
        ensures
            piece_models(final(self).pieces@) == push_text(piece_models(old(self).pieces@), t@),
    {
        let ghost ps = piece_models(self.pieces@);
        if t.len() == 0 {
            return;
        }
        let n = self.pieces.len();
        if n > 0 {
            if let LazyContent::Plain(_) = &self.pieces[n - 1] {
                let last = self.pieces.pop();
                match last {
                    Some(LazyContent::Plain(prev)) => {
                        let mut v = chars_of(prev.as_str());
                        push_all(&mut v, t);
                        self.pieces.push(LazyContent::Plain(string_of(v.as_slice())));
                        assert(piece_models(self.pieces@) =~= ps.drop_last().push(
                            PieceModel::Plain(ps.last()->Plain_0 + t@),
                        ));
                    },
                    _ => {},
                }
                return;
            }
        }
        self.pieces.push(LazyContent::Plain(string_of(t)));
        assert(piece_models(self.pieces@) =~= ps.push(PieceModel::Plain(t@)));
    }

    pub fn push(&mut self, piece: LazyContent)
        ensures
            piece_models(final(self).pieces@) == piece_models(old(self).pieces@).push(piece.model()),
    {
        let ghost ps = piece_models(self.pieces@);
        self.pieces.push(piece);
        assert(piece_models(self.pieces@) =~= ps.push(piece.model()));
    }

    pub fn build(self) -> (r: HTMLContent)
        ensures
            r.model() == build_content(piece_models(self.pieces@)),
    {
        let mut pieces = self.pieces;
        let ghost ps = piece_models(pieces@);
        if pieces.len() == 0 {
            let r = HTMLContent::Plain(String::new());
            assert(r.model() == build_content(ps));
            return r;
        }
        if pieces.len() == 1 {
            if let LazyContent::Plain(_) = &pieces[0] {
                match pieces.pop() {
                    Some(LazyContent::Plain(s)) => {
                        return HTMLContent::Plain(s);
                    },
                    _ => {},
                }
            }
        }
        HTMLContent::Lazy(pieces)
    }
}

/// A section as parsed: its metadata and its content.
#[derive(Debug)]
pub struct UnresolvedSection {
    pub metadata: crate::entry::HTMLMetaData,
    pub content: HTMLContent,
}

/// The text of `s` outside markup: a `<` opens a tag and a `>` closes it;
/// characters inside tags and the brackets themselves are dropped.
pub open spec fn strip_tags(s: Seq<char>, in_tag: bool) -> Seq<char>
    decreases s.len(),
{
    if s.len() == 0 {
        Seq::empty()
    } else if s[0] == '<' {
        strip_tags(s.drop_first(), true)
    } else if s[0] == '>' {
        strip_tags(s.drop_first(), false)
    } else if in_tag {
        strip_tags(s.drop_first(), true)
    } else {
        seq![s[0]] + strip_tags(s.drop_first(), false)
    }
}

/// The text of `s` with every tag removed.
pub open spec fn remove_tags_spec(s: Seq<char>) -> Seq<char> {
    strip_tags(s, false)
}

/// The concatenated plain pieces of a lazy content.
pub open spec fn plain_pieces(v: Seq<LazyContent>) -> Seq<char>
    decreases v.len(),
{
    if v.len() == 0 {
        Seq::empty()
    } else {
        plain_pieces(v.drop_last()) + match v.last() {
            LazyContent::Plain(s) => s@,
            _ => Seq::empty(),
        }
    }
}

pub open spec fn content_text(c: HTMLContent) -> Seq<char> {
    match c {
        HTMLContent::Plain(s) => s@,
        HTMLContent::Lazy(v) => plain_pieces(v@),
    }
}

/// The text of a plain content, if it is plain.
pub open spec fn plain_of(c: HTMLContent) -> Option<Seq<char>> {
    match c {
        HTMLContent::Plain(s) => Some(s@),
        HTMLContent::Lazy(_) => None,
    }
}

/// Removes every tag from `s`.
pub fn remove_tags(s: &str) -> (r: String)
    ensures
        r@ == remove_tags_spec(s@),
{
    let v = chars_of(s);
    let mut out: Vec<char> = Vec::new();
    let mut in_tag = false;
    let mut i: usize = 0;
    assert(v@.skip(0) =~= v@);
    assert(out@ + strip_tags(v@, false) =~= strip_tags(v@, false));
    while i < v.len()
        invariant
            i <= v@.len(),
            v@ == s@,
            out@ + strip_tags(v@.skip(i as int), in_tag) == strip_tags(v@, false),
        decreases v.len() - i,
    {
        let ghost rest = v@.skip(i as int);
        assert(rest.drop_first() =~= v@.skip(i + 1));
        let c = v[i];
        if c == '<' {
            in_tag = true;
        } else if c == '>' {
            in_tag = false;
        } else if !in_tag {
            let ghost o0 = out@;
            out.push(c);
            assert(o0 + strip_tags(rest, false) =~= out@ + strip_tags(v@.skip(i + 1), false));
        }
        i = i + 1;
    }
    assert(v@.skip(i as int) =~= Seq::<char>::empty());
    assert(out@ + Seq::<char>::empty() =~= out@);
    string_of(out.as_slice())
}

impl HTMLContent {
    /// The text of a plain content; `None` for lazy content.
    pub fn as_str(&self) -> (r: Option<&str>)
        ensures
            match plain_of(*self) {
                Some(t) => r matches Some(x) && x@ == t,
                None => r is None,
            },
    {
        match self {
            HTMLContent::Plain(s) => Some(s.as_str()),
            HTMLContent::Lazy(_) => None,
        }
    }

    /// The text with all markup removed (lazy pieces contribute their plain
    /// parts).
    pub fn remove_all_tags(&self) -> (r: String)
        ensures
            r@ == remove_tags_spec(content_text(*self)),
    {
        match self {
            HTMLContent::Plain(s) => remove_tags(s.as_str()),
            HTMLContent::Lazy(v) => {
                let mut all: Vec<char> = Vec::new();
                let mut i: usize = 0;
                while i < v.len()
                    invariant
                        i <= v@.len(),
                        all@ == plain_pieces(v@.take(i as int)),
                    decreases v.len() - i,
                {
                    assert(v@.take(i + 1).drop_last() =~= v@.take(i as int));
                    match &v[i] {
                        LazyContent::Plain(s) => {
                            let t = chars_of(s.as_str());
                            push_all(&mut all, t.as_slice());
                        },
                        _ => {
                            assert(all@ =~= all@ + Seq::<char>::empty());
                        },
                    }
                    i = i + 1;
                }
                assert(v@.take(i as int) =~= v@);
                let joined = string_of(all.as_slice());
                remove_tags(joined.as_str())
            },
        }
    }
}

} // verus!
