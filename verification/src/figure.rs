//! Small event processors: images with their alt text as title, formulas
//! made safe for HTML, and the filters that drop raw HTML or paragraphs.
use vstd::prelude::*;

use crate::footnote::event_step_model;
use crate::html::{escape_attr_spec, escape_attribute};
use crate::markdown::{event_models, EventModel, MdEvent, Step, StepModel};
use crate::text::{chars_of, owned, push_str, string_of};

verus! {

/// The image tag an image becomes.
pub open spec fn image_tag_spec(src: Seq<char>, title: Seq<char>) -> Seq<char> {
    "<img src=\""@ + src + "\" title=\""@ + escape_attr_spec(title) + "\" alt=\""@
        + escape_attr_spec(title) + "\">"@
}

/// The image processor as values: the open image's destination and its
/// text so far.
pub struct FigureModel {
    pub dest_url: Option<Seq<char>>,
    pub title: Seq<char>,
}

/// One event through the image processor.
pub open spec fn figure_step(m: FigureModel, e: EventModel) -> (FigureModel, StepModel<EventModel>) {
    match e {
        EventModel::ImageStart(d) => (FigureModel { dest_url: Some(d), ..m }, StepModel::Absorb),
        EventModel::Text(t) => if m.dest_url is Some {
            (FigureModel { title: m.title + t, ..m }, StepModel::Absorb)
        } else {
            (m, StepModel::Pass)
        },
        EventModel::ImageEnd => (
            FigureModel { dest_url: None, title: Seq::empty() },
            StepModel::Emit(
                EventModel::Html(
                    image_tag_spec(
                        match m.dest_url {
                            Some(d) => d,
                            None => Seq::empty(),
                        },
                        m.title,
                    ),
                ),
            ),
        ),
        _ => (m, StepModel::Pass),
    }
}

/// The image processor: an image becomes an `img` tag whose title and alt
/// text are the image's text.
#[derive(Debug)]
pub struct Figure2 {
    pub title: String,
    pub dest_url: Option<String>,
}

impl Figure2 {
    pub open spec fn model(&self) -> FigureModel {
        FigureModel { dest_url: crate::section::opt_str(self.dest_url), title: self.title@ }
    }

    pub fn new() -> (r: Figure2)
        ensures
            r.model() == (FigureModel { dest_url: None, title: Seq::empty() }),
    {
        Figure2 { title: String::new(), dest_url: None }
    }

    /// Takes one event of the page.
    pub fn next(&mut self, e: &MdEvent) -> (r: Step<MdEvent>)
        ensures
            (final(self).model(), event_step_model(r)) == figure_step(old(self).model(), e.model()),
    {
        match e {
            MdEvent::ImageStart(d) => {
                self.dest_url = Some(owned(d.as_str()));
                Step::Absorb
            },
            MdEvent::Text(t) => {
                if self.dest_url.is_some() {
                    let mut v = chars_of(self.title.as_str());
                    push_str(&mut v, t.as_str());
                    self.title = string_of(v.as_slice());
                    Step::Absorb
                } else {
                    Step::Pass
                }
            },
            MdEvent::ImageEnd => {
                let escaped = escape_attribute(self.title.as_str());
                let mut h: Vec<char> = Vec::new();
                push_str(&mut h, "<img src=\"");
                match &self.dest_url {
                    Some(d) => push_str(&mut h, d.as_str()),
                    None => {},
                }
                push_str(&mut h, "\" title=\"");
                push_str(&mut h, escaped.as_str());
                push_str(&mut h, "\" alt=\"");
                push_str(&mut h, escaped.as_str());
                push_str(&mut h, "\">");
                self.dest_url = None;
                self.title = String::new();
                Step::Emit(MdEvent::Html(string_of(h.as_slice())))
            },
            _ => Step::Pass,
        }
    }
}

/// A formula with a space on each side of every `<`, so that HTML does not
/// read a tag into it.
pub open spec fn disambiguate(s: Seq<char>) -> Seq<char>
    decreases s.len(),
{
    if s.len() == 0 {
        Seq::empty()
    } else {
        disambiguate(s.drop_last()) + if s.last() == '<' {
            seq![' ', '<', ' ']
        } else {
            seq![s.last()]
        }
    }
}

pub fn formula_disambiguate(s: &str) -> (r: String)
    ensures
        r@ == disambiguate(s@),
{
    let v = chars_of(s);
    let mut out: Vec<char> = Vec::new();
    let mut i: usize = 0;
    while i < v.len()
        invariant
            i <= v@.len(),
            v@ == s@,
            out@ == disambiguate(v@.take(i as int)),
        decreases v.len() - i,
    {
        assert(v@.take(i + 1).drop_last() =~= v@.take(i as int));
        let ghost o0 = out@;
        if v[i] == '<' {
            out.push(' ');
            out.push('<');
            out.push(' ');
        } else {
            out.push(v[i]);
        }
        assert(out@ =~= o0 + if v@[i as int] == '<' {
            seq![' ', '<', ' ']
        } else {
            seq![v@[i as int]]
        });
        i = i + 1;
    }
    assert(v@.take(i as int) =~= v@);
    string_of(out.as_slice())
}

/// One event through the formula processor.
pub open spec fn katex_step(e: EventModel) -> StepModel<EventModel> {
    match e {
        EventModel::DisplayMath(m) => StepModel::Emit(EventModel::DisplayMath(disambiguate(m))),
        EventModel::InlineMath(m) => StepModel::Emit(EventModel::InlineMath(disambiguate(m))),
        _ => StepModel::Pass,
    }
}

/// The formula processor.
#[derive(Debug)]
pub struct KatexCompat2 {}

impl KatexCompat2 {
    pub fn new() -> (r: KatexCompat2) {
        KatexCompat2 {  }
    }

    /// Takes one event of the page.
    pub fn next(&self, e: &MdEvent) -> (r: Step<MdEvent>)
        ensures
            event_step_model(r) == katex_step(e.model()),
    {
        match e {
            MdEvent::DisplayMath(m) => Step::Emit(
                MdEvent::DisplayMath(formula_disambiguate(m.as_str())),
            ),
            MdEvent::InlineMath(m) => Step::Emit(MdEvent::InlineMath(formula_disambiguate(m.as_str()))),
            _ => Step::Pass,
        }
    }
}

/// Whether an event stays when raw HTML is (or is not) allowed.
pub open spec fn keeps_raw_html(e: EventModel, allow_unsafe_html: bool) -> bool {
    allow_unsafe_html || !(e is Html || e is InlineHtml)
}

/// The events kept by `keep`, in order.
pub open spec fn kept_raw_html(s: Seq<EventModel>, allow_unsafe_html: bool) -> Seq<EventModel>
    decreases s.len(),
{
    if s.len() == 0 {
        Seq::empty()
    } else {
        let rest = kept_raw_html(s.drop_last(), allow_unsafe_html);
        if keeps_raw_html(s.last(), allow_unsafe_html) {
            rest.push(s.last())
        } else {
            rest
        }
    }
}

/// The events without raw HTML, unless raw HTML is allowed.
pub fn filter_raw_html(events: Vec<MdEvent>, allow_unsafe_html: bool) -> (r: Vec<MdEvent>)
    ensures
        event_models(r@) == kept_raw_html(event_models(events@), allow_unsafe_html),
{
    let ghost all = event_models(events@);
    let mut events = events;
    let mut rev: Vec<MdEvent> = Vec::new();
    while events.len() > 0
        invariant
            all == event_models(events@) + event_models(rev@).reverse(),
        decreases events.len(),
    {
        let ghost e0 = event_models(events@);
        let ghost r0 = event_models(rev@);
        let e = events.pop().unwrap();
        assert(event_models(events@) =~= e0.drop_last());
        rev.push(e);
        assert(event_models(rev@) =~= r0.push(e.model()));
        assert(e0 =~= e0.drop_last().push(e.model()));
        assert(r0.push(e.model()).reverse() =~= seq![e.model()] + r0.reverse());
        assert(all =~= event_models(events@) + event_models(rev@).reverse());
    }
    assert(all =~= event_models(rev@).reverse());
    let mut out: Vec<MdEvent> = Vec::new();
    let ghost done: int = 0;
    while rev.len() > 0
        invariant
            0 <= done <= all.len(),
            event_models(rev@).reverse() == all.skip(done),
            event_models(out@) == kept_raw_html(all.take(done), allow_unsafe_html),
        decreases rev.len(),
    {
        let ghost r0 = event_models(rev@);
        let e = rev.pop().unwrap();
        assert(event_models(rev@) =~= r0.drop_last());
        assert(r0.reverse() =~= seq![e.model()] + r0.drop_last().reverse());
        assert(all.skip(done)[0] == e.model());
        assert(all.take(done + 1).drop_last() =~= all.take(done));
        assert(all.take(done + 1).last() == e.model());
        assert(all.skip(done + 1) =~= all.skip(done).drop_first());
        let keep = match &e {
            MdEvent::Html(_) | MdEvent::InlineHtml(_) => allow_unsafe_html,
            _ => true,
        };
        if keep {
            let ghost o0 = event_models(out@);
            out.push(e);
            assert(event_models(out@) =~= o0.push(e.model()));
        }
        proof {
            done = done + 1;
        }
    }
    assert(all.take(done) =~= all);
    out
}

/// The events without paragraph starts and ends.
pub open spec fn without_paragraphs(s: Seq<EventModel>) -> Seq<EventModel>
    decreases s.len(),
{
    if s.len() == 0 {
        Seq::empty()
    } else {
        let rest = without_paragraphs(s.drop_last());
        if s.last() is ParagraphStart || s.last() is ParagraphEnd {
            rest
        } else {
            rest.push(s.last())
        }
    }
}

pub fn ignore_paragraph(events: Vec<MdEvent>) -> (r: Vec<MdEvent>)
    ensures
        event_models(r@) == without_paragraphs(event_models(events@)),
{
    let ghost all = event_models(events@);
    let mut events = events;
    let mut rev: Vec<MdEvent> = Vec::new();
    while events.len() > 0
        invariant
            all == event_models(events@) + event_models(rev@).reverse(),
        decreases events.len(),
    {
        let ghost e0 = event_models(events@);
        let ghost r0 = event_models(rev@);
        let e = events.pop().unwrap();
        assert(event_models(events@) =~= e0.drop_last());
        rev.push(e);
        assert(event_models(rev@) =~= r0.push(e.model()));
        assert(e0 =~= e0.drop_last().push(e.model()));
        assert(r0.push(e.model()).reverse() =~= seq![e.model()] + r0.reverse());
        assert(all =~= event_models(events@) + event_models(rev@).reverse());
    }
    assert(all =~= event_models(rev@).reverse());
    let mut out: Vec<MdEvent> = Vec::new();
    let ghost done: int = 0;
    while rev.len() > 0
        invariant
            0 <= done <= all.len(),
            event_models(rev@).reverse() == all.skip(done),
            event_models(out@) == without_paragraphs(all.take(done)),
        decreases rev.len(),
    {
        let ghost r0 = event_models(rev@);
        let e = rev.pop().unwrap();
        assert(event_models(rev@) =~= r0.drop_last());
        assert(r0.reverse() =~= seq![e.model()] + r0.drop_last().reverse());
        assert(all.skip(done)[0] == e.model());
        assert(all.take(done + 1).drop_last() =~= all.take(done));
        assert(all.take(done + 1).last() == e.model());
        assert(all.skip(done + 1) =~= all.skip(done).drop_first());
        let keep = match &e {
            MdEvent::ParagraphStart | MdEvent::ParagraphEnd => false,
            _ => true,
        };
        if keep {
            let ghost o0 = event_models(out@);
            out.push(e);
            assert(event_models(out@) =~= o0.push(e.model()));
        }
        proof {
            done = done + 1;
        }
    }
    assert(all.take(done) =~= all);
    out
}

} // verus!
