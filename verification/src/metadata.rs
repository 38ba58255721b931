//! Reading the metadata block at the top of a markdown section.
use vstd::prelude::*;

use crate::entry::{is_plain_key, is_plain_metadata, HTMLMetaData};
use crate::markdown::{EventModel, MdEvent, Step, StepModel};
use crate::section::{ContentModel, HTMLContent};
use crate::text::{
    chars_of, find_char, find_from, push_all, push_decimal, push_str, slice_to_vec, str_eq,
    string_of, to_upper, trim, trimmed, upper, decimal,
};

verus! {

/// Whether the first character of `s` is a single byte in UTF-8, so that
/// the text can be split after it.
pub open spec fn splits_after_first(s: Seq<char>) -> bool {
    s.len() > 0 && (s[0] as u32) < 0x80
}

/// A taxon as displayed: first letter capitalised, then `. `. When the
/// first character is not a one-byte character the text is kept as it is.
pub open spec fn display_taxon_spec(s: Seq<char>) -> Seq<char> {
    if splits_after_first(s) {
        seq![upper(s[0])] + s.skip(1) + ". "@
    } else {
        s + ". "@
    }
}

/// The text with its first (one-byte) character in upper case.
pub fn capitalize_first(s: &str) -> (r: Vec<char>)
    ensures
        splits_after_first(s@) ==> r@ == seq![upper(s@[0])] + s@.skip(1),
        !splits_after_first(s@) ==> r@ == s@,
{
    let v = chars_of(s);
    if v.len() > 0 && (v[0] as u32) < 0x80 {
        let mut r: Vec<char> = Vec::new();
        r.push(to_upper(v[0]));
        let rest = slice_to_vec(v.as_slice(), 1, v.len());
        push_all(&mut r, rest.as_slice());
        assert(v@.subrange(1, v@.len() as int) =~= v@.skip(1));
        assert(r@ =~= seq![upper(s@[0])] + s@.skip(1));
        r
    } else {
        v
    }
}

/// Formats a taxon for display.
pub fn display_taxon(s: &str) -> (r: String)
    ensures
        r@ == display_taxon_spec(s@),
{
    let mut r = capitalize_first(s);
    push_str(&mut r, ". ");
    string_of(r.as_slice())
}

/// The value stored for `key`: plain keys keep their text; the others take
/// `rendered`, the value rendered as markdown, and a plain taxon is
/// formatted for display.
pub open spec fn metadata_value_spec(key: Seq<char>, value: Seq<char>, rendered: ContentModel) -> ContentModel {
    if is_plain_key(key) {
        ContentModel::Plain(value)
    } else if key == "taxon"@ && rendered is Plain {
        ContentModel::Plain(display_taxon_spec(rendered->Plain_0))
    } else {
        rendered
    }
}

// ---------------------------------------------------------------------------
// Metadata blocks
// ---------------------------------------------------------------------------
/// A line without the `\r` of a `\r\n` ending.
pub open spec fn strip_cr(l: Seq<char>) -> Seq<char> {
    if l.len() > 0 && l.last() == '\r' {
        l.drop_last()
    } else {
        l
    }
}

/// The finished lines of `s` and the line still open.
pub open spec fn split_acc(s: Seq<char>) -> (Seq<Seq<char>>, Seq<char>)
    decreases s.len(),
{
    if s.len() == 0 {
        (Seq::empty(), Seq::empty())
    } else {
        let acc = split_acc(s.drop_last());
        if s.last() == '\n' {
            (acc.0.push(strip_cr(acc.1)), Seq::empty())
        } else {
            (acc.0, acc.1.push(s.last()))
        }
    }
}

/// The lines of `s` as `str::lines` gives them: split at `\n`, a `\r`
/// before it dropped, and no empty line after a final `\n`.
pub open spec fn lines_of(s: Seq<char>) -> Seq<Seq<char>> {
    let acc = split_acc(s);
    if acc.1.len() > 0 {
        acc.0.push(acc.1)
    } else {
        acc.0
    }
}

pub enum MetadataErrorModel {
    MissingSlug,
    /// Section, line number (from 1), line.
    InvalidLine(Seq<char>, nat, Seq<char>),
}

/// The entries of the lines of a metadata block: each non-blank line is
/// `name: value`, both trimmed; the first other line is an error.
pub open spec fn entries_of(slug: Seq<char>, lines: Seq<Seq<char>>) -> Result<
    Seq<(Seq<char>, Seq<char>)>,
    MetadataErrorModel,
>
    decreases lines.len(),
{
    if lines.len() == 0 {
        Ok(Seq::empty())
    } else {
        match entries_of(slug, lines.drop_last()) {
            Err(e) => Err(e),
            Ok(v) => {
                let l = lines.last();
                if trim(l).len() == 0 {
                    Ok(v)
                } else {
                    match find_from(l, seq![':'], 0) {
                        None => Err(MetadataErrorModel::InvalidLine(slug, lines.len(), l)),
                        Some(p) => Ok(v.push((trim(l.take(p)), trim(l.skip(p + 1))))),
                    }
                }
            },
        }
    }
}

/// An error in the first lines is the error of the whole block.
pub proof fn lemma_entries_error_prefix(slug: Seq<char>, ls: Seq<Seq<char>>, k: int)
    requires
        0 <= k <= ls.len(),
        entries_of(slug, ls.take(k)) is Err,
    ensures
        entries_of(slug, ls) == entries_of(slug, ls.take(k)),
    decreases ls.len(),
{
    if k == ls.len() {
        assert(ls.take(k) =~= ls);
    } else {
        assert(ls.drop_last().take(k) =~= ls.take(k));
        lemma_entries_error_prefix(slug, ls.drop_last(), k);
    }
}

#[derive(Debug)]
pub enum MetadataError {
    MissingSlug,
    InvalidLine { slug: String, line: usize, text: String },
}

impl MetadataError {
    pub open spec fn model(&self) -> MetadataErrorModel {
        match self {
            MetadataError::MissingSlug => MetadataErrorModel::MissingSlug,
            MetadataError::InvalidLine { slug, line, text } => MetadataErrorModel::InvalidLine(
                slug@,
                *line as nat,
                text@,
            ),
        }
    }

    /// A sentence that says what went wrong.
    pub fn message(&self) -> (r: String)
        ensures
            r@ == match self.model() {
                MetadataErrorModel::MissingSlug => "missing `slug` while parsing metadata block"@,
                MetadataErrorModel::InvalidLine(s, n, t) => "invalid metadata in `"@ + s
                    + "` at line "@ + decimal(n) + ": expected `name: value`, found `"@ + t
                    + "`"@,
            },
    {
        match self {
            MetadataError::MissingSlug => owned_str("missing `slug` while parsing metadata block"),
            MetadataError::InvalidLine { slug, line, text } => {
                let mut v: Vec<char> = Vec::new();
                push_str(&mut v, "invalid metadata in `");
                push_str(&mut v, slug.as_str());
                push_str(&mut v, "` at line ");
                push_decimal(&mut v, *line);
                push_str(&mut v, ": expected `name: value`, found `");
                push_str(&mut v, text.as_str());
                push_str(&mut v, "`");
                string_of(v.as_slice())
            },
        }
    }
}

fn owned_str(s: &str) -> (r: String)
    ensures
        r@ == s@,
{
    crate::text::owned(s)
}

/// Splits text into lines as `str::lines` does.
pub fn split_lines(s: &str) -> (r: Vec<String>)
    ensures
        crate::ordered_map::string_views(r@) == lines_of(s@),
{
    let v = chars_of(s);
    let mut done: Vec<String> = Vec::new();
    let mut cur: Vec<char> = Vec::new();
    let mut i: usize = 0;
    while i < v.len()
        invariant
            i <= v@.len(),
            v@ == s@,
            (crate::ordered_map::string_views(done@), cur@) == split_acc(v@.take(i as int)),
        decreases v.len() - i,
    {
        assert(v@.take(i + 1).drop_last() =~= v@.take(i as int));
        if v[i] == '\n' {
            let ghost d0 = crate::ordered_map::string_views(done@);
            let line = if cur.len() > 0 && cur[cur.len() - 1] == '\r' {
                slice_to_vec(cur.as_slice(), 0, cur.len() - 1)
            } else {
                slice_to_vec(cur.as_slice(), 0, cur.len())
            };
            assert(line@ == strip_cr(cur@)) by {
                assert(cur@.subrange(0, cur@.len() as int) =~= cur@);
                if cur@.len() > 0 {
                    assert(cur@.subrange(0, cur@.len() - 1) =~= cur@.drop_last());
                }
            }
            done.push(string_of(line.as_slice()));
            assert(crate::ordered_map::string_views(done@) =~= d0.push(strip_cr(cur@)));
            cur = Vec::new();
        } else {
            cur.push(v[i]);
        }
        i = i + 1;
    }
    assert(v@.take(i as int) =~= v@);
    if cur.len() > 0 {
        let ghost d0 = crate::ordered_map::string_views(done@);
        done.push(string_of(cur.as_slice()));
        assert(crate::ordered_map::string_views(done@) =~= d0.push(cur@));
    }
    done
}

/// The entries of a metadata block of section `slug`.
pub fn parse_metadata_lines(s: &str, slug: &str) -> (r: Result<Vec<(String, String)>, MetadataError>)
    ensures
        match entries_of(slug@, lines_of(s@)) {
            Ok(v) => r matches Ok(x) && pair_views(x@) == v,
            Err(e) => r matches Err(x) && x.model() == e,
        },
{
    let lines = split_lines(s);
    let ghost ls = crate::ordered_map::string_views(lines@);
    let mut out: Vec<(String, String)> = Vec::new();
    let mut i: usize = 0;
    assert(ls.take(0) =~= Seq::<Seq<char>>::empty());
    assert(pair_views(out@) =~= Seq::<(Seq<char>, Seq<char>)>::empty());
    while i < lines.len()
        invariant
            i <= lines@.len(),
            ls == crate::ordered_map::string_views(lines@),
            ls == lines_of(s@),
            entries_of(slug@, ls.take(i as int)) == Ok::<Seq<(Seq<char>, Seq<char>)>, MetadataErrorModel>(
                pair_views(out@),
            ),
        decreases lines.len() - i,
    {
        assert(ls.take(i + 1).drop_last() =~= ls.take(i as int));
        assert(ls.take(i + 1).last() == lines@[i as int]@);
        let l = chars_of(lines[i].as_str());
        let t = trimmed(l.as_slice());
        if t.len() > 0 {
            match find_char(l.as_slice(), ':', 0) {
                None => {
                    proof {
                        lemma_entries_error_prefix(slug@, ls, i + 1);
                    }
                    return Err(
                        MetadataError::InvalidLine {
                            slug: owned_str(slug),
                            line: i + 1,
                            text: string_of(l.as_slice()),
                        },
                    );
                },
                Some(p) => {
                    assert(p < l@.len());
                    assert(l@.len() == l.len());
                    let k = trimmed(slice_to_vec(l.as_slice(), 0, p).as_slice());
                    let val = trimmed(slice_to_vec(l.as_slice(), p + 1, l.len()).as_slice());
                    assert(l@.subrange(0, p as int) =~= l@.take(p as int));
                    assert(l@.subrange(p + 1, l@.len() as int) =~= l@.skip(p + 1));
                    let ghost o0 = pair_views(out@);
                    out.push((string_of(k.as_slice()), string_of(val.as_slice())));
                    assert(pair_views(out@) =~= o0.push((k@, val@)));
                },
            }
        }
        i = i + 1;
    }
    assert(ls.take(i as int) =~= ls);
    Ok(out)
}

pub open spec fn pair_views(v: Seq<(String, String)>) -> Seq<(Seq<char>, Seq<char>)> {
    v.map_values(|e: (String, String)| (e.0@, e.1@))
}

/// The value stored for `key`; `rendered` is the value rendered as
/// markdown.
pub fn parse_metadata_value(key: &str, value: &str, rendered: HTMLContent) -> (r: HTMLContent)
    ensures
        r.model() == metadata_value_spec(key@, value@, rendered.model()),
{
    if is_plain_metadata(key) {
        return HTMLContent::Plain(owned_str(value));
    }
    proof {
        reveal_strlit("taxon");
    }
    if str_eq(key, "taxon") {
        if let HTMLContent::Plain(v) = &rendered {
            return HTMLContent::Plain(display_taxon(v.as_str()));
        }
    }
    rendered
}

/// What a metadata block gives.
#[derive(Debug)]
pub enum MetadataOutput {
    /// The entries of a block of text, to be stored in order.
    Entries(Vec<(String, String)>),
    Failed(MetadataError),
}

pub enum MetadataOutModel {
    Entries(Seq<(Seq<char>, Seq<char>)>),
    Failed(MetadataErrorModel),
}

impl MetadataOutput {
    pub open spec fn model(&self) -> MetadataOutModel {
        match self {
            MetadataOutput::Entries(v) => MetadataOutModel::Entries(pair_views(v@)),
            MetadataOutput::Failed(e) => MetadataOutModel::Failed(e.model()),
        }
    }
}

pub open spec fn metadata_step_model(s: Step<MetadataOutput>) -> StepModel<MetadataOutModel> {
    match s {
        Step::Pass => StepModel::Pass,
        Step::Absorb => StepModel::Absorb,
        Step::Emit(o) => StepModel::Emit(o.model()),
    }
}

/// One event through the metadata processor: `in_block` tells whether a
/// metadata block is open; `slug` is the section's plain `slug` value.
pub open spec fn metadata_step(in_block: bool, slug: Option<Seq<char>>, e: EventModel) -> (
    bool,
    StepModel<MetadataOutModel>,
) {
    match e {
        EventModel::MetadataStart => (true, StepModel::Absorb),
        EventModel::MetadataEnd => (false, StepModel::Absorb),
        EventModel::Text(t) => if in_block && trim(t).len() > 0 {
            (
                in_block,
                StepModel::Emit(
                    match slug {
                        None => MetadataOutModel::Failed(MetadataErrorModel::MissingSlug),
                        Some(sl) => match entries_of(sl, lines_of(t)) {
                            Ok(v) => MetadataOutModel::Entries(v),
                            Err(e) => MetadataOutModel::Failed(e),
                        },
                    },
                ),
            )
        } else {
            (in_block, StepModel::Pass)
        },
        _ => (in_block, StepModel::Pass),
    }
}

/// The metadata processor: reads the metadata block of a page.
#[derive(Debug)]
pub struct Metadata {
    pub state: bool,
}

impl Metadata {
    pub fn process() -> (r: Metadata)
        ensures
            !r.state,
    {
        Metadata { state: false }
    }

    /// Takes one event of the page whose metadata so far is `metadata`.
    pub fn next(&mut self, metadata: &HTMLMetaData, e: &MdEvent) -> (r: Step<MetadataOutput>)
        ensures
            (final(self).state, metadata_step_model(r)) == metadata_step(
                old(self).state,
                metadata.text("slug"@),
                e.model(),
            ),
    {
        match e {
            MdEvent::MetadataStart => {
                self.state = true;
                Step::Absorb
            },
            MdEvent::MetadataEnd => {
                self.state = false;
                Step::Absorb
            },
            MdEvent::Text(t) => {
                let tv = chars_of(t.as_str());
                let tt = trimmed(tv.as_slice());
                if self.state && tt.len() > 0 {
                    match metadata.get_str("slug") {
                        None => Step::Emit(MetadataOutput::Failed(MetadataError::MissingSlug)),
                        Some(slug) => match parse_metadata_lines(t.as_str(), slug) {
                            Ok(v) => Step::Emit(MetadataOutput::Entries(v)),
                            Err(err) => Step::Emit(MetadataOutput::Failed(err)),
                        },
                    }
                } else {
                    Step::Pass
                }
            },
            _ => Step::Pass,
        }
    }
}

} // verus!
