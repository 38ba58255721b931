//! Marks runs of Chinese, Japanese and Korean text with their language, so
//! that browsers pick the right glyphs: a run becomes
//! `<span lang="..">run</span>`; other text stays as it is.
use vstd::prelude::*;

use crate::text::{chars_of, owned, push_all, string_of};

verus! {

#[derive(Debug, Clone, Copy, PartialEq, Eq, Structural)]
pub enum LangTag {
    Zh,
    Ja,
    Ko,
}

#[derive(Debug, Clone, Copy, PartialEq, Eq, Structural)]
pub enum CharClass {
    Han,
    Japanese,
    Korean,
    Common,
    Other,
}

pub open spec fn in_range(c: char, lo: u32, hi: u32) -> bool {
    lo <= (c as u32) <= hi
}

pub open spec fn is_han(c: char) -> bool {
    in_range(c, 0x3400, 0x4DBF) || in_range(c, 0x4E00, 0x9FFF) || in_range(c, 0xF900, 0xFAFF)
}

pub open spec fn is_japanese(c: char) -> bool {
    in_range(c, 0x3040, 0x309F) || in_range(c, 0x30A0, 0x30FF) || in_range(c, 0x31F0, 0x31FF)
        || in_range(c, 0xFF66, 0xFF9D) || in_range(c, 0x1B000, 0x1B0FF) || in_range(
        c,
        0x1B100,
        0x1B12F,
    )
}

pub open spec fn is_korean(c: char) -> bool {
    in_range(c, 0x1100, 0x11FF) || in_range(c, 0x3130, 0x318F) || in_range(c, 0xA960, 0xA97F)
        || in_range(c, 0xAC00, 0xD7AF) || in_range(c, 0xD7B0, 0xD7FF) || in_range(
        c,
        0xFFA0,
        0xFFDC,
    )
}

/// CJK punctuation and full-width forms, shared by all three languages.
pub open spec fn is_cjk_common(c: char) -> bool {
    in_range(c, 0x3000, 0x303F) || in_range(c, 0xFE10, 0xFE6F) || in_range(c, 0xFF00, 0xFF65)
}

/// The class of a character; Japanese and Korean are checked before Han.
pub open spec fn class_of(c: char) -> CharClass {
    if is_japanese(c) {
        CharClass::Japanese
    } else if is_korean(c) {
        CharClass::Korean
    } else if is_han(c) {
        CharClass::Han
    } else if is_cjk_common(c) {
        CharClass::Common
    } else {
        CharClass::Other
    }
}

pub fn classify_char(c: char) -> (r: CharClass)
    ensures
        r == class_of(c),
{
    let u = c as u32;
    if (0x3040 <= u && u <= 0x309F) || (0x30A0 <= u && u <= 0x30FF) || (0x31F0 <= u && u
        <= 0x31FF) || (0xFF66 <= u && u <= 0xFF9D) || (0x1B000 <= u && u <= 0x1B0FF) || (0x1B100
        <= u && u <= 0x1B12F) {
        CharClass::Japanese
    } else if (0x1100 <= u && u <= 0x11FF) || (0x3130 <= u && u <= 0x318F) || (0xA960 <= u && u
        <= 0xA97F) || (0xAC00 <= u && u <= 0xD7AF) || (0xD7B0 <= u && u <= 0xD7FF) || (0xFFA0
        <= u && u <= 0xFFDC) {
        CharClass::Korean
    } else if (0x3400 <= u && u <= 0x4DBF) || (0x4E00 <= u && u <= 0x9FFF) || (0xF900 <= u && u
        <= 0xFAFF) {
        CharClass::Han
    } else if (0x3000 <= u && u <= 0x303F) || (0xFE10 <= u && u <= 0xFE6F) || (0xFF00 <= u && u
        <= 0xFF65) {
        CharClass::Common
    } else {
        CharClass::Other
    }
}

/// Whether any character is CJK or CJK punctuation.
pub open spec fn has_cjk(s: Seq<char>) -> bool {
    exists|i: int| 0 <= i < s.len() && class_of(#[trigger] s[i]) != CharClass::Other
}

pub fn contains_cjk_related(s: &[char]) -> (r: bool)
    ensures
        r == has_cjk(s@),
{
    let mut i: usize = 0;
    while i < s.len()
        invariant
            i <= s@.len(),
            forall|j: int| 0 <= j < i ==> class_of(#[trigger] s@[j]) == CharClass::Other,
        decreases s.len() - i,
    {
        if classify_char(s[i]) != CharClass::Other {
            return true;
        }
        i = i + 1;
    }
    false
}

/// A piece of elaborated text: text, or markup around it.
#[derive(Debug)]
pub enum TextPiece {
    Text(String),
    Html(String),
}

pub enum PieceView {
    Text(Seq<char>),
    Html(Seq<char>),
}

impl TextPiece {
    pub open spec fn view_of(&self) -> PieceView {
        match self {
            TextPiece::Text(s) => PieceView::Text(s@),
            TextPiece::Html(s) => PieceView::Html(s@),
        }
    }
}

pub open spec fn piece_views(v: Seq<TextPiece>) -> Seq<PieceView> {
    v.map_values(|p: TextPiece| p.view_of())
}

pub open spec fn lang_code(l: LangTag) -> Seq<char> {
    match l {
        LangTag::Zh => "zh"@,
        LangTag::Ja => "ja"@,
        LangTag::Ko => "ko"@,
    }
}

pub open spec fn open_span(l: LangTag) -> Seq<char> {
    "<span lang=\""@ + lang_code(l) + "\">"@
}

/// The pieces after the run so far is closed.
pub open spec fn flush(ps: Seq<PieceView>, run: Seq<char>, lang: Option<LangTag>) -> Seq<PieceView> {
    if run.len() == 0 {
        ps
    } else {
        match lang {
            Some(l) => ps.push(PieceView::Html(open_span(l))).push(PieceView::Text(run)).push(
                PieceView::Html("</span>"@),
            ),
            None => ps.push(PieceView::Text(run)),
        }
    }
}

/// Reading state: pieces done, the open run, and its language.
pub type ElabState = (Seq<PieceView>, Seq<char>, Option<LangTag>);

/// One character read.
pub open spec fn step(st: ElabState, c: char) -> ElabState {
    let (ps, run, lang) = st;
    match class_of(c) {
        CharClass::Other => if lang is Some {
            (flush(ps, run, lang), seq![c], None)
        } else {
            (ps, run.push(c), lang)
        },
        CharClass::Common => (ps, run.push(c), lang),
        CharClass::Han => {
            let (ps1, run1) = if lang is None && run.len() > 0 {
                (flush(ps, run, None), Seq::empty())
            } else {
                (ps, run)
            };
            (ps1, run1.push(c), if lang is None { Some(LangTag::Zh) } else { lang })
        },
        CharClass::Japanese => {
            let (ps0, run0, lang0) = if lang == Some(LangTag::Ko) {
                (flush(ps, run, lang), Seq::empty(), None)
            } else {
                (ps, run, lang)
            };
            let (ps1, run1) = if lang0 is None && run0.len() > 0 {
                (flush(ps0, run0, None), Seq::empty())
            } else {
                (ps0, run0)
            };
            (
                ps1,
                run1.push(c),
                if lang0 is None || lang0 == Some(LangTag::Zh) {
                    Some(LangTag::Ja)
                } else {
                    lang0
                },
            )
        },
        CharClass::Korean => {
            let (ps0, run0, lang0) = if lang == Some(LangTag::Ja) {
                (flush(ps, run, lang), Seq::empty(), None)
            } else {
                (ps, run, lang)
            };
            let (ps1, run1) = if lang0 is None && run0.len() > 0 {
                (flush(ps0, run0, None), Seq::empty())
            } else {
                (ps0, run0)
            };
            (
                ps1,
                run1.push(c),
                if lang0 is None || lang0 == Some(LangTag::Zh) {
                    Some(LangTag::Ko)
                } else {
                    lang0
                },
            )
        },
    }
}

/// The state after reading all of `s`.
pub open spec fn read_all(s: Seq<char>) -> ElabState
    decreases s.len(),
{
    if s.len() == 0 {
        (Seq::empty(), Seq::empty(), None)
    } else {
        step(read_all(s.drop_last()), s.last())
    }
}

/// The pieces a text becomes.
pub open spec fn elaborate_spec(s: Seq<char>) -> Seq<PieceView> {
    if !has_cjk(s) {
        seq![PieceView::Text(s)]
    } else {
        let (ps, run, lang) = read_all(s);
        flush(ps, run, lang)
    }
}

fn open_span_text(l: LangTag) -> (r: String)
    ensures
        r@ == open_span(l),
{
    let mut v: Vec<char> = Vec::new();
    crate::text::push_str(&mut v, "<span lang=\"");
    match l {
        LangTag::Zh => crate::text::push_str(&mut v, "zh"),
        LangTag::Ja => crate::text::push_str(&mut v, "ja"),
        LangTag::Ko => crate::text::push_str(&mut v, "ko"),
    }
    crate::text::push_str(&mut v, "\">");
    assert(v@ =~= open_span(l));
    string_of(v.as_slice())
}

fn flush_exec(out: &mut Vec<TextPiece>, run: &mut Vec<char>, lang: Option<LangTag>)
    ensures
        piece_views(final(out)@) == flush(piece_views(old(out)@), old(run)@, lang),
        final(run)@ == Seq::<char>::empty(),
{
    let ghost p0 = piece_views(out@);
    if run.len() == 0 {
        return;
    }
    let text = string_of(run.as_slice());
    let ghost r0 = run@;
    *run = Vec::new();
    match lang {
        Some(l) => {
            out.push(TextPiece::Html(open_span_text(l)));
            out.push(TextPiece::Text(text));
            out.push(TextPiece::Html(owned("</span>")));
        },
        None => {
            out.push(TextPiece::Text(text));
        },
    }
    assert(piece_views(out@) =~= flush(p0, r0, lang));
}

/// The pieces that `text` becomes: runs of CJK text wrapped in a span with
/// their language, all other text as it is.
pub fn elaborate_text(text: &str) -> (r: Vec<TextPiece>)
    ensures
        piece_views(r@) == elaborate_spec(text@),
{
    let s = chars_of(text);
    if !contains_cjk_related(s.as_slice()) {
        let r = vec![TextPiece::Text(owned(text))];
        assert(piece_views(r@) =~= seq![PieceView::Text(text@)]);
        return r;
    }
    let mut out: Vec<TextPiece> = Vec::new();
    let mut run: Vec<char> = Vec::new();
    let mut lang: Option<LangTag> = None;
    let mut i: usize = 0;
    assert(piece_views(out@) =~= Seq::<PieceView>::empty());
    assert(s@.take(0) =~= Seq::<char>::empty());
    while i < s.len()
        invariant
            i <= s@.len(),
            s@ == text@,
            (piece_views(out@), run@, lang) == read_all(s@.take(i as int)),
        decreases s.len() - i,
    {
        let c = s[i];
        assert(s@.take(i + 1).drop_last() =~= s@.take(i as int));
        assert(s@.take(i + 1).last() == c);
        let ghost before: ElabState = (piece_views(out@), run@, lang);
        match classify_char(c) {
            CharClass::Other => {
                if lang.is_some() {
                    flush_exec(&mut out, &mut run, lang);
                    lang = None;
                }
                run.push(c);
            },
            CharClass::Common => {
                run.push(c);
            },
            CharClass::Han => {
                if lang.is_none() && run.len() > 0 {
                    flush_exec(&mut out, &mut run, None);
                }
                if lang.is_none() {
                    lang = Some(LangTag::Zh);
                }
                run.push(c);
            },
            CharClass::Japanese => {
                if lang == Some(LangTag::Ko) {
                    flush_exec(&mut out, &mut run, lang);
                    lang = None;
                }
                if lang.is_none() && run.len() > 0 {
                    flush_exec(&mut out, &mut run, None);
                }
                if lang.is_none() || lang == Some(LangTag::Zh) {
                    lang = Some(LangTag::Ja);
                }
                run.push(c);
            },
            CharClass::Korean => {
                if lang == Some(LangTag::Ja) {
                    flush_exec(&mut out, &mut run, lang);
                    lang = None;
                }
                if lang.is_none() && run.len() > 0 {
                    flush_exec(&mut out, &mut run, None);
                }
                if lang.is_none() || lang == Some(LangTag::Zh) {
                    lang = Some(LangTag::Ko);
                }
                run.push(c);
            },
        }
        proof {
            let after = step(before, c);
            assert(run@ =~= after.1);
        }
        i = i + 1;
    }
    assert(s@.take(i as int) =~= s@);
    flush_exec(&mut out, &mut run, lang);
    out
}

/// Keeps track of code blocks, inside which text is left alone.
#[derive(Debug, Clone, Copy, Default)]
pub struct TextElaborator {
    pub in_code_block: usize,
}

impl TextElaborator {
    pub fn start_code_block(&mut self)
        ensures
            final(self).in_code_block == if old(self).in_code_block < usize::MAX {
                old(self).in_code_block + 1
            } else {
                old(self).in_code_block as int
            },
    {
        if self.in_code_block < usize::MAX {
            self.in_code_block = self.in_code_block + 1;
        }
    }

    pub fn end_code_block(&mut self)
        ensures
            final(self).in_code_block == if old(self).in_code_block > 0 {
                old(self).in_code_block - 1
            } else {
                0
            },
    {
        if self.in_code_block > 0 {
            self.in_code_block = self.in_code_block - 1;
        }
    }

    /// What a text event becomes: left alone inside code blocks.
    pub fn text(&self, text: &str) -> (r: Vec<TextPiece>)
        ensures
            self.in_code_block == 0 ==> piece_views(r@) == elaborate_spec(text@),
            self.in_code_block != 0 ==> piece_views(r@) == seq![PieceView::Text(text@)],
    {
        if self.in_code_block == 0 {
            elaborate_text(text)
        } else {
            let r = vec![TextPiece::Text(owned(text))];
            assert(piece_views(r@) =~= seq![PieceView::Text(text@)]);
            r
        }
    }
}

// ---------------------------------------------------------------------------
// Laws
// ---------------------------------------------------------------------------
/// The text of the pieces, markup left out.
pub open spec fn texts(ps: Seq<PieceView>) -> Seq<char>
    decreases ps.len(),
{
    if ps.len() == 0 {
        Seq::empty()
    } else {
        texts(ps.drop_last()) + match ps.last() {
            PieceView::Text(t) => t,
            PieceView::Html(_) => Seq::empty(),
        }
    }
}

proof fn lemma_flush_texts(ps: Seq<PieceView>, run: Seq<char>, lang: Option<LangTag>)
    ensures
        texts(flush(ps, run, lang)) == texts(ps) + run,
{
    if run.len() == 0 {
        assert(texts(ps) + run =~= texts(ps));
    } else {
        match lang {
            Some(l) => {
                let a = ps.push(PieceView::Html(open_span(l)));
                let b = a.push(PieceView::Text(run));
                let c = b.push(PieceView::Html("</span>"@));
                assert(c.drop_last() =~= b);
                assert(b.drop_last() =~= a);
                assert(a.drop_last() =~= ps);
                assert(texts(a) =~= texts(ps));
                assert(texts(b) =~= texts(a) + run);
                assert(texts(c) =~= texts(b));
            },
            None => {
                assert(ps.push(PieceView::Text(run)).drop_last() =~= ps);
            },
        }
    }
}

proof fn lemma_read_all_texts(s: Seq<char>)
    ensures
        texts(read_all(s).0) + read_all(s).1 == s,
    decreases s.len(),
{
    if s.len() == 0 {
        assert(texts(Seq::<PieceView>::empty()) + Seq::<char>::empty() =~= s);
    } else {
        lemma_read_all_texts(s.drop_last());
        let (ps, run, lang) = read_all(s.drop_last());
        let c = s.last();
        lemma_flush_texts(ps, run, lang);
        lemma_flush_texts(ps, run, None);
        assert(s =~= s.drop_last().push(c));
        match class_of(c) {
            CharClass::Japanese => {
                if lang == Some(LangTag::Ko) {
                    let f = flush(ps, run, lang);
                    lemma_flush_texts(f, Seq::empty(), None);
                }
            },
            CharClass::Korean => {
                if lang == Some(LangTag::Ja) {
                    let f = flush(ps, run, lang);
                    lemma_flush_texts(f, Seq::empty(), None);
                }
            },
            _ => {},
        }
        let (ps2, run2, lang2) = step((ps, run, lang), c);
        assert(texts(ps2) + run2 =~= s);
    }
}

/// Elaboration only adds markup: the text of the pieces is the input.
pub proof fn law_elaboration_keeps_text(s: Seq<char>)
    ensures
        texts(elaborate_spec(s)) == s,
{
    if !has_cjk(s) {
        assert(seq![PieceView::Text(s)].drop_last() =~= Seq::<PieceView>::empty());
        assert(texts(Seq::<PieceView>::empty()) + s =~= s);
    } else {
        lemma_read_all_texts(s);
        let (ps, run, lang) = read_all(s);
        lemma_flush_texts(ps, run, lang);
    }
}

} // verus!

verus! {

/// Hiragana and katakana (U+3040 to U+30FF) are Japanese, whatever else
/// the other classes hold.
pub proof fn law_kana_is_japanese(c: char)
    requires
        0x3040 <= (c as u32) <= 0x30FF,
    ensures
        class_of(c) == CharClass::Japanese,
{
}

/// Hangul syllables (U+AC00 to U+D7A3) are Korean, and the CJK unified
/// ideographs (U+4E00 to U+9FFF) are Han.
pub proof fn law_hangul_and_han(c: char)
    ensures
        0xAC00 <= (c as u32) <= 0xD7A3 ==> class_of(c) == CharClass::Korean,
        0x4E00 <= (c as u32) <= 0x9FFF ==> class_of(c) == CharClass::Han,
{
}

/// Whether every character is hiragana or katakana.
pub open spec fn all_kana(s: Seq<char>) -> bool {
    forall|i: int| #![trigger s[i]] 0 <= i < s.len() ==> 0x3040 <= (s[i] as u32) <= 0x30FF
}

proof fn lemma_read_kana(s: Seq<char>)
    requires
        all_kana(s),
        s.len() > 0,
    ensures
        read_all(s) == (Seq::<PieceView>::empty(), s, Some(LangTag::Ja)),
    decreases s.len(),
{
    let t = s.drop_last();
    assert(0x3040 <= (s[s.len() - 1] as u32) <= 0x30FF);
    law_kana_is_japanese(s.last());
    if t.len() > 0 {
        assert forall|i: int| #![trigger t[i]] 0 <= i < t.len() implies 0x3040 <= (t[i] as u32) <= 0x30FF by {
            assert(t[i] == s[i]);
        }
        lemma_read_kana(t);
        assert(t.push(s.last()) =~= s);
        assert(read_all(s) == step(read_all(t), s.last()));
        assert(step((Seq::<PieceView>::empty(), t, Some(LangTag::Ja)), s.last()) == (
            Seq::<PieceView>::empty(),
            t.push(s.last()),
            Some(LangTag::Ja),
        ));
    } else {
        assert(Seq::<char>::empty().push(s.last()) =~= s);
        assert(read_all(t) == (Seq::<PieceView>::empty(), Seq::<char>::empty(), None::<LangTag>));
        assert(read_all(s) == step(read_all(t), s.last()));
        assert(step((Seq::<PieceView>::empty(), Seq::<char>::empty(), None::<LangTag>), s.last()) == (
            Seq::<PieceView>::empty(),
            Seq::<char>::empty().push(s.last()),
            Some(LangTag::Ja),
        ));
    }
}

/// A run of hiragana and katakana becomes one Japanese span holding it.
pub proof fn law_kana_run_is_japanese(s: Seq<char>)
    requires
        all_kana(s),
        s.len() > 0,
    ensures
        elaborate_spec(s) == seq![
            PieceView::Html("<span lang=\"ja\">"@),
            PieceView::Text(s),
            PieceView::Html("</span>"@),
        ],
{
    lemma_read_kana(s);
    assert(0x3040 <= (s[0] as u32) <= 0x30FF);
    law_kana_is_japanese(s[0]);
    assert(has_cjk(s));
    reveal_strlit("<span lang=\"ja\">");
    reveal_strlit("<span lang=\"");
    reveal_strlit("ja");
    reveal_strlit("\">");
    assert(open_span(LangTag::Ja) =~= "<span lang=\"ja\">"@);
    assert(flush(Seq::<PieceView>::empty(), s, Some(LangTag::Ja)) =~= seq![
        PieceView::Html("<span lang=\"ja\">"@),
        PieceView::Text(s),
        PieceView::Html("</span>"@),
    ]);
}

} // verus!
