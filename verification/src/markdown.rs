//! Markdown events as the page processors see them, and the HTML of the
//! inline runs they collect.
//!
//! A processor takes one event at a time and answers with a [`Step`]: the
//! event goes on as it is, is taken in, or is replaced by what the
//! processor makes of it.
use vstd::prelude::*;

verus! {

/// A markdown event, as far as the processors look into it.
#[derive(Debug)]
pub enum MdEvent {
    /// The start of a link, with its destination.
    LinkStart(String),
    LinkEnd,
    /// The start of an image, with its destination.
    ImageStart(String),
    ImageEnd,
    /// The start of a footnote definition, with its label.
    FootnoteDefinition(String),
    /// A reference to a footnote, by its label.
    FootnoteReference(String),
    MetadataStart,
    MetadataEnd,
    ParagraphStart,
    ParagraphEnd,
    Text(String),
    Code(String),
    InlineMath(String),
    DisplayMath(String),
    Html(String),
    InlineHtml(String),
    /// Any other event; processors hand it on.
    Other,
}

pub enum EventModel {
    LinkStart(Seq<char>),
    LinkEnd,
    ImageStart(Seq<char>),
    ImageEnd,
    FootnoteDefinition(Seq<char>),
    FootnoteReference(Seq<char>),
    MetadataStart,
    MetadataEnd,
    ParagraphStart,
    ParagraphEnd,
    Text(Seq<char>),
    Code(Seq<char>),
    InlineMath(Seq<char>),
    DisplayMath(Seq<char>),
    Html(Seq<char>),
    InlineHtml(Seq<char>),
    Other,
}

impl MdEvent {
    pub open spec fn model(&self) -> EventModel {
        match self {
            MdEvent::LinkStart(s) => EventModel::LinkStart(s@),
            MdEvent::LinkEnd => EventModel::LinkEnd,
            MdEvent::ImageStart(s) => EventModel::ImageStart(s@),
            MdEvent::ImageEnd => EventModel::ImageEnd,
            MdEvent::FootnoteDefinition(s) => EventModel::FootnoteDefinition(s@),
            MdEvent::FootnoteReference(s) => EventModel::FootnoteReference(s@),
            MdEvent::MetadataStart => EventModel::MetadataStart,
            MdEvent::MetadataEnd => EventModel::MetadataEnd,
            MdEvent::ParagraphStart => EventModel::ParagraphStart,
            MdEvent::ParagraphEnd => EventModel::ParagraphEnd,
            MdEvent::Text(s) => EventModel::Text(s@),
            MdEvent::Code(s) => EventModel::Code(s@),
            MdEvent::InlineMath(s) => EventModel::InlineMath(s@),
            MdEvent::DisplayMath(s) => EventModel::DisplayMath(s@),
            MdEvent::Html(s) => EventModel::Html(s@),
            MdEvent::InlineHtml(s) => EventModel::InlineHtml(s@),
            MdEvent::Other => EventModel::Other,
        }
    }
}

pub open spec fn event_models(v: Seq<MdEvent>) -> Seq<EventModel> {
    v.map_values(|e: MdEvent| e.model())
}

/// What a processor does with one event.
#[derive(Debug)]
pub enum Step<T> {
    /// The event goes on unchanged.
    Pass,
    /// The event is taken in; nothing goes on.
    Absorb,
    /// The event is replaced.
    Emit(T),
}

pub enum StepModel<T> {
    Pass,
    Absorb,
    Emit(T),
}

/// A piece of the text of a link, collected for later rendering.
#[derive(Debug)]
pub enum Inline {
    Text(String),
    InlineHtml(String),
    Code(String),
}

pub enum InlineModel {
    Text(Seq<char>),
    InlineHtml(Seq<char>),
    Code(Seq<char>),
}

impl Inline {
    pub open spec fn model(&self) -> InlineModel {
        match self {
            Inline::Text(s) => InlineModel::Text(s@),
            Inline::InlineHtml(s) => InlineModel::InlineHtml(s@),
            Inline::Code(s) => InlineModel::Code(s@),
        }
    }
}

pub open spec fn inline_models(v: Seq<Inline>) -> Seq<InlineModel> {
    v.map_values(|e: Inline| e.model())
}

/// The HTML that pulldown-cmark's writer makes of a run of inline events:
/// text with `&`, `<`, `>` escaped, code the same inside `<code>`, inline
/// HTML as it is, one after another.
pub open spec fn inline_html(events: Seq<InlineModel>) -> Seq<char>
    decreases events.len(),
{
    if events.len() == 0 {
        Seq::empty()
    } else {
        inline_html(events.drop_last()) + match events.last() {
            InlineModel::Text(t) => crate::html::escape_text_spec(t),
            InlineModel::Code(c) => "<code>"@ + crate::html::escape_text_spec(c) + "</code>"@,
            InlineModel::InlineHtml(h) => h,
        }
    }
}

/// `pulldown_cmark::html::push_html` on the events, into an empty string.
/// Its writer writes a text event with `&`, `<`, `>` escaped
/// (`escape_html_body_text`), a code event escaped the same way inside
/// `<code>`…`</code>`, and inline HTML unchanged; the contract states that.
#[verifier::external_body]
pub(crate) fn render_inline(events: &Vec<Inline>) -> (r: String)
    ensures
        r@ == inline_html(inline_models(events@)),
{
    let mut cm: Vec<pulldown_cmark::Event> = Vec::new();
    for e in events.iter() {
        cm.push(match e {
            Inline::Text(t) => pulldown_cmark::Event::Text(t.as_str().into()),
            Inline::InlineHtml(h) => pulldown_cmark::Event::InlineHtml(h.as_str().into()),
            Inline::Code(c) => pulldown_cmark::Event::Code(c.as_str().into()),
        });
    }
    let mut s = String::new();
    pulldown_cmark::html::push_html(&mut s, cm.into_iter());
    s
}

} // verus!
