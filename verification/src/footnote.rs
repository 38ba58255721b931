//! Footnotes: each label gets a number on first sight, in page order, and
//! its definition and references become linked HTML.
use vstd::prelude::*;

use crate::html::{footnote_reference, footnote_reference_spec};
use crate::markdown::{EventModel, MdEvent, Step, StepModel};
use crate::ordered_map::{
    insert_spec, law_get_after_insert, law_insert_keeps_others, law_insert_unique, lookup,
    unique_keys, OrderedMap,
};
use crate::slug::Slug;
use crate::text::{chars_of, decimal, owned, push_decimal, push_str, string_of};

verus! {

/// A slug as an HTML id: `/` becomes `_`.
pub open spec fn slug_to_attr(s: Seq<char>) -> Seq<char> {
    s.map_values(|c: char| if c == '/' { '_' } else { c })
}

pub open spec fn footnote_id_spec(slug: Seq<char>, label: Seq<char>) -> Seq<char> {
    slug_to_attr(slug) + "_"@ + label
}

pub open spec fn back_id_spec(slug: Seq<char>, label: Seq<char>) -> Seq<char> {
    footnote_id_spec(slug, label) + "-back"@
}

/// The number of `label`: the one it got, or the next one.
pub open spec fn footnote_number(entries: Seq<(Seq<char>, usize)>, label: Seq<char>) -> nat {
    match lookup(entries, label) {
        Some(n) => n as nat,
        None => entries.len() + 1,
    }
}

/// The numbers after `label` was seen.
pub open spec fn numbered(entries: Seq<(Seq<char>, usize)>, label: Seq<char>) -> Seq<
    (Seq<char>, usize),
> {
    match lookup(entries, label) {
        Some(_) => entries,
        None => insert_spec(entries, label, (entries.len() + 1) as usize),
    }
}

/// A label keeps the number it got first: seeing a label, whether new or
/// seen before, changes no number already given, and the label then has the
/// number `footnote_number` gave it.
pub proof fn law_footnote_number_stable(
    entries: Seq<(Seq<char>, usize)>,
    label: Seq<char>,
    other: Seq<char>,
)
    requires
        unique_keys(entries),
        entries.len() < usize::MAX,
    ensures
        unique_keys(numbered(entries, label)),
        lookup(numbered(entries, label), label) == Some(
            footnote_number(entries, label) as usize,
        ),
        lookup(entries, other) is Some ==> lookup(numbered(entries, label), other) == lookup(
            entries,
            other,
        ),
{
    if lookup(entries, label) is None {
        let v = (entries.len() + 1) as usize;
        law_get_after_insert(entries, label, v);
        law_insert_unique(entries, label, v);
        if other != label {
            law_insert_keeps_others(entries, label, v, other);
        }
    }
}

/// The opening of a footnote definition, with its number linking back.
pub open spec fn definition_spec(id: Seq<char>, back_id: Seq<char>, number: nat) -> Seq<char> {
    "<div class=\"footnote-definition\" id=\""@ + id
        + "\">\n  <sup class=\"footnote-definition-label\"><a href=\"#"@ + back_id + "\">"@
        + decimal(number) + "</a></sup>"@
}

/// One event through the footnote processor of page `slug`.
pub open spec fn footnote_step(slug: Seq<char>, entries: Seq<(Seq<char>, usize)>, e: EventModel) -> (
    Seq<(Seq<char>, usize)>,
    StepModel<EventModel>,
) {
    match e {
        EventModel::FootnoteDefinition(l) => (
            numbered(entries, l),
            StepModel::Emit(
                EventModel::Html(
                    definition_spec(
                        footnote_id_spec(slug, l),
                        back_id_spec(slug, l),
                        footnote_number(entries, l),
                    ),
                ),
            ),
        ),
        EventModel::FootnoteReference(l) => (
            numbered(entries, l),
            StepModel::Emit(
                EventModel::Html(
                    footnote_reference_spec(
                        footnote_id_spec(slug, l),
                        back_id_spec(slug, l),
                        footnote_number(entries, l),
                    ),
                ),
            ),
        ),
        _ => (entries, StepModel::Pass),
    }
}

pub open spec fn event_step_model(s: Step<MdEvent>) -> StepModel<EventModel> {
    match s {
        Step::Pass => StepModel::Pass,
        Step::Absorb => StepModel::Absorb,
        Step::Emit(e) => StepModel::Emit(e.model()),
    }
}

/// The footnote processor of one page.
#[derive(Debug)]
pub struct Footnote {
    pub current_slug: Slug,
    pub entries: OrderedMap<usize>,
}

impl Footnote {
    pub fn process(current_slug: Slug) -> (r: Footnote)
        ensures
            r.current_slug@ == current_slug@,
            r.entries@ == Seq::<(Seq<char>, usize)>::empty(),
    {
        Footnote { current_slug, entries: OrderedMap::new() }
    }

    fn ids(&self, label: &str) -> (r: (String, String))
        ensures
            r.0@ == footnote_id_spec(self.current_slug@, label@),
            r.1@ == back_id_spec(self.current_slug@, label@),
    {
        let s = self.current_slug.chars();
        let mut id: Vec<char> = Vec::new();
        let mut i: usize = 0;
        while i < s.len()
            invariant
                i <= s@.len(),
                s@ == self.current_slug@,
                id@ == slug_to_attr(s@.take(i as int)),
            decreases s.len() - i,
        {
            let c = s[i];
            id.push(if c == '/' { '_' } else { c });
            assert(slug_to_attr(s@.take(i + 1)) =~= slug_to_attr(s@.take(i as int)).push(
                if c == '/' { '_' } else { c },
            ));
            i = i + 1;
        }
        assert(s@.take(i as int) =~= s@);
        push_str(&mut id, "_");
        push_str(&mut id, label);
        let fid = string_of(id.as_slice());
        push_str(&mut id, "-back");
        (fid, string_of(id.as_slice()))
    }

    /// The number of `label`, given one if it has none.
    fn number(&mut self, label: &str) -> (r: usize)
        requires
            old(self).entries@.len() < usize::MAX,
        ensures
            r as nat == footnote_number(old(self).entries@, label@),
            final(self).entries@ == numbered(old(self).entries@, label@),
            final(self).current_slug == old(self).current_slug,
    {
        match self.entries.get(label) {
            Some(n) => *n,
            None => {
                let next = self.entries.len() + 1;
                self.entries.insert(owned(label), next);
                next
            },
        }
    }

    /// Takes one event of the page.
    pub fn next(&mut self, e: &MdEvent) -> (r: Step<MdEvent>)
        requires
            old(self).entries@.len() < usize::MAX,
        ensures
            (final(self).entries@, event_step_model(r)) == footnote_step(
                old(self).current_slug@,
                old(self).entries@,
                e.model(),
            ),
            final(self).current_slug == old(self).current_slug,
    {
        match e {
            MdEvent::FootnoteDefinition(label) => {
                let number = self.number(label.as_str());
                let (fid, bid) = self.ids(label.as_str());
                let mut h: Vec<char> = Vec::new();
                push_str(&mut h, "<div class=\"footnote-definition\" id=\"");
                push_str(&mut h, fid.as_str());
                push_str(&mut h, "\">\n  <sup class=\"footnote-definition-label\"><a href=\"#");
                push_str(&mut h, bid.as_str());
                push_str(&mut h, "\">");
                push_decimal(&mut h, number);
                push_str(&mut h, "</a></sup>");
                Step::Emit(MdEvent::Html(string_of(h.as_slice())))
            },
            MdEvent::FootnoteReference(label) => {
                let number = self.number(label.as_str());
                let (fid, bid) = self.ids(label.as_str());
                Step::Emit(MdEvent::Html(footnote_reference(fid.as_str(), bid.as_str(), number)))
            },
            _ => Step::Pass,
        }
    }
}

} // verus!
