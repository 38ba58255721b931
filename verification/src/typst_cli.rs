//! What the library reads out of the HTML that `typst` writes.
use vstd::prelude::*;

use crate::html::inline_typst_span_spec;
use crate::text::{chars_of, find_from, find_seq, last_occurrence, rfind_seq, slice_to_vec, string_of};

verus! {

/// Why a `typst` output could not be read.
#[derive(Debug, Clone, Copy, PartialEq, Eq, Structural)]
pub enum TypstOutputError {
    MissingHtmlOpen,
    MissingHtmlClose,
    MalformedHtmlRange,
    MissingParagraphOpen,
    MissingParagraphClose,
    MalformedParagraphRange,
}

/// The sentence that says what went wrong.
pub open spec fn output_message_spec(e: TypstOutputError) -> Seq<char> {
    match e {
        TypstOutputError::MissingHtmlOpen => "missing `<html>` tag in typst html output"@,
        TypstOutputError::MissingHtmlClose => "missing `</html>` tag in typst html output"@,
        TypstOutputError::MalformedHtmlRange => "malformed html range in typst html output"@,
        TypstOutputError::MissingParagraphOpen => "missing `<p>` tag in typst inline svg output"@,
        TypstOutputError::MissingParagraphClose => "missing `</p>` tag in typst inline svg output"@,
        TypstOutputError::MalformedParagraphRange => "malformed paragraph range in typst inline svg output"@,
    }
}

impl TypstOutputError {
    pub fn message(&self) -> (r: String)
        ensures
            r@ == output_message_spec(*self),
    {
        match self {
            TypstOutputError::MissingHtmlOpen => crate::text::owned(
                "missing `<html>` tag in typst html output",
            ),
            TypstOutputError::MissingHtmlClose => crate::text::owned(
                "missing `</html>` tag in typst html output",
            ),
            TypstOutputError::MalformedHtmlRange => crate::text::owned(
                "malformed html range in typst html output",
            ),
            TypstOutputError::MissingParagraphOpen => crate::text::owned(
                "missing `<p>` tag in typst inline svg output",
            ),
            TypstOutputError::MissingParagraphClose => crate::text::owned(
                "missing `</p>` tag in typst inline svg output",
            ),
            TypstOutputError::MalformedParagraphRange => crate::text::owned(
                "malformed paragraph range in typst inline svg output",
            ),
        }
    }
}

/// Why a delimited range could not be cut out.
#[derive(Debug, Clone, Copy, PartialEq, Eq, Structural)]
pub enum RangeFailure {
    NoOpen,
    NoClose,
    Reversed,
}

/// What lies between the first `open` and the last `close`: `None` when
/// `open` is missing, the close tag missing, or the close tag starts before
/// the open tag ends, in that order of checking.
pub open spec fn between_spec(s: Seq<char>, open: Seq<char>, close: Seq<char>) -> Result<
    Seq<char>,
    RangeFailure,
> {
    match find_from(s, open, 0) {
        None => Err(RangeFailure::NoOpen),
        Some(a) => match last_occurrence(s, close) {
            None => Err(RangeFailure::NoClose),
            Some(b) => if b < a + open.len() {
                Err(RangeFailure::Reversed)
            } else {
                Ok(s.subrange(a + open.len(), b))
            },
        },
    }
}

fn between(s: &[char], open: &str, close: &str) -> (r: Result<Vec<char>, RangeFailure>)
    ensures
        match between_spec(s@, open@, close@) {
            Ok(t) => r matches Ok(v) && v@ == t,
            Err(e) => r == Err::<Vec<char>, RangeFailure>(e),
        },
{
    let o = chars_of(open);
    let c = chars_of(close);
    match find_seq(s, o.as_slice(), 0) {
        None => Err(RangeFailure::NoOpen),
        Some(a) => {
            proof {
                crate::text::lemma_find_from_props(s@, o@, 0);
                assert(crate::text::occurs_at(s@, o@, a as int));
            }
            let n = s.len();
            let start = a + o.len();
            match rfind_seq(s, c.as_slice()) {
                None => Err(RangeFailure::NoClose),
                Some(b) => {
                    proof {
                        crate::text::lemma_rfind_props(s@, c@, s@.len() as int);
                    }
                    if b < start {
                        Err(RangeFailure::Reversed)
                    } else {
                        Ok(slice_to_vec(s, start, b))
                    }
                },
            }
        },
    }
}

/// The body of a `typst` HTML document: what lies between `<html>` and the
/// last `</html>`.
pub fn html_to_body_content(html: &str) -> (r: Result<String, TypstOutputError>)
    ensures
        match between_spec(html@, "<html>"@, "</html>"@) {
            Ok(t) => r matches Ok(b) && b@ == t,
            Err(RangeFailure::NoOpen) => r == Err::<String, TypstOutputError>(TypstOutputError::MissingHtmlOpen),
            Err(RangeFailure::NoClose) => r == Err::<String, TypstOutputError>(TypstOutputError::MissingHtmlClose),
            Err(RangeFailure::Reversed) => r == Err::<String, TypstOutputError>(TypstOutputError::MalformedHtmlRange),
        },
{
    let v = chars_of(html);
    match between(v.as_slice(), "<html>", "</html>") {
        Ok(b) => Ok(string_of(b.as_slice())),
        Err(RangeFailure::NoOpen) => Err(TypstOutputError::MissingHtmlOpen),
        Err(RangeFailure::NoClose) => Err(TypstOutputError::MissingHtmlClose),
        Err(RangeFailure::Reversed) => Err(TypstOutputError::MalformedHtmlRange),
    }
}

/// Inline math rendered by `typst`: the paragraph's content wrapped in an
/// inline-typst span, on a line of its own.
pub fn inline_svg_from_html(svg: &str) -> (r: Result<String, TypstOutputError>)
    ensures
        match between_spec(svg@, "<p>"@, "</p>"@) {
            Ok(t) => r matches Ok(b) && b@ == "\n"@ + inline_typst_span_spec(t) + "\n"@,
            Err(RangeFailure::NoOpen) => r == Err::<String, TypstOutputError>(TypstOutputError::MissingParagraphOpen),
            Err(RangeFailure::NoClose) => r == Err::<String, TypstOutputError>(
                TypstOutputError::MissingParagraphClose,
            ),
            Err(RangeFailure::Reversed) => r == Err::<String, TypstOutputError>(
                TypstOutputError::MalformedParagraphRange,
            ),
        },
{
    let v = chars_of(svg);
    match between(v.as_slice(), "<p>", "</p>") {
        Ok(b) => {
            let content = string_of(b.as_slice());
            let span = crate::html::html_inline_typst_span(content.as_str());
            let mut r: Vec<char> = Vec::new();
            crate::text::push_str(&mut r, "\n");
            crate::text::push_str(&mut r, span.as_str());
            crate::text::push_str(&mut r, "\n");
            assert(r@ =~= "\n"@ + span@ + "\n"@);
            Ok(string_of(r.as_slice()))
        },
        Err(RangeFailure::NoOpen) => Err(TypstOutputError::MissingParagraphOpen),
        Err(RangeFailure::NoClose) => Err(TypstOutputError::MissingParagraphClose),
        Err(RangeFailure::Reversed) => Err(TypstOutputError::MalformedParagraphRange),
    }
}

} // verus!
