//! Markdown reference definitions (`[label]: url`) of a host section, shared
//! with the subtrees cut out of it.
use vstd::prelude::*;

use crate::text::{
    chars_of, find_from, find_seq, is_whitespace, is_ws, lowercase, ascii_lowercase, lead_ws_len,
    push_all, push_str, seq_eq, slice_to_vec, string_of, trim, trim_end, trim_start, trimmed,
    trimmed_end, trimmed_start, lemma_find_from_props,
};

verus! {

// ---------------------------------------------------------------------------
// Lines
// ---------------------------------------------------------------------------
/// Pieces of `s` between `\n` characters (always at least one).
pub open spec fn split_nl(s: Seq<char>) -> (Seq<Seq<char>>, Seq<char>)
    decreases s.len(),
{
    if s.len() == 0 {
        (seq![], seq![])
    } else {
        let (done, cur) = split_nl(s.drop_last());
        if s.last() == '\n' {
            (done.push(cur), seq![])
        } else {
            (done, cur.push(s.last()))
        }
    }
}

/// A line without its final `\r`.
pub open spec fn strip_cr(l: Seq<char>) -> Seq<char> {
    if l.len() > 0 && l.last() == '\r' {
        l.drop_last()
    } else {
        l
    }
}

/// `str::lines`: split at `\n`, a final `\r` removed from each line, and no
/// empty last line after a final newline.
pub open spec fn lines_spec(s: Seq<char>) -> Seq<Seq<char>> {
    let (done, cur) = split_nl(s);
    let all = if cur.len() == 0 {
        done
    } else {
        done.push(cur)
    };
    strip_all(all)
}

pub open spec fn strip_all(v: Seq<Seq<char>>) -> Seq<Seq<char>> {
    v.map_values(|l: Seq<char>| strip_cr(l))
}

pub open spec fn deep(v: Seq<Vec<char>>) -> Seq<Seq<char>> {
    v.map_values(|x: Vec<char>| x@)
}

fn strip_cr_exec(l: Vec<char>) -> (r: Vec<char>)
    ensures
        r@ == strip_cr(l@),
{
    if l.len() > 0 && l[l.len() - 1] == '\r' {
        let r = slice_to_vec(l.as_slice(), 0, l.len() - 1);
        assert(r@ =~= l@.drop_last());
        r
    } else {
        l
    }
}

pub fn lines(s: &[char]) -> (r: Vec<Vec<char>>)
    ensures
        deep(r@) == lines_spec(s@),
{
    let mut done: Vec<Vec<char>> = Vec::new();
    let mut cur: Vec<char> = Vec::new();
    let mut i: usize = 0;
    let ghost raw: Seq<Seq<char>> = seq![];
    while i < s.len()
        invariant
            i <= s@.len(),
            split_nl(s@.take(i as int)) == (raw, cur@),
            deep(done@) == strip_all(raw),
        decreases s.len() - i,
    {
        proof {
            assert(s@.take(i + 1).drop_last() =~= s@.take(i as int));
        }
        if s[i] == '\n' {
            let piece = cur;
            cur = Vec::new();
            let ghost before = deep(done@);
            let ghost raw0 = raw;
            let ghost p = piece@;
            proof {
                raw = raw.push(piece@);
            }
            let stripped = strip_cr_exec(piece);
            done.push(stripped);
            assert(deep(done@) =~= before.push(strip_cr(p)));
            assert(strip_all(raw) =~= strip_all(raw0).push(strip_cr(p)));
        } else {
            cur.push(s[i]);
        }
        i = i + 1;
    }
    assert(s@.take(i as int) =~= s@);
    if cur.len() > 0 {
        let ghost all = raw.push(cur@);
        let ghost before = deep(done@);
        let ghost p = cur@;
        let stripped = strip_cr_exec(cur);
        done.push(stripped);
        assert(deep(done@) =~= before.push(strip_cr(p)));
        assert(strip_all(all) =~= strip_all(raw).push(strip_cr(p)));
    }
    done
}

// ---------------------------------------------------------------------------
// Words
// ---------------------------------------------------------------------------
/// Pieces of `s` between whitespace characters.
pub open spec fn split_ws(s: Seq<char>) -> (Seq<Seq<char>>, Seq<char>)
    decreases s.len(),
{
    if s.len() == 0 {
        (seq![], seq![])
    } else {
        let (done, cur) = split_ws(s.drop_last());
        if is_ws(s.last()) {
            (if cur.len() > 0 {
                done.push(cur)
            } else {
                done
            }, seq![])
        } else {
            (done, cur.push(s.last()))
        }
    }
}

/// `str::split_whitespace`.
pub open spec fn words(s: Seq<char>) -> Seq<Seq<char>> {
    let (done, cur) = split_ws(s);
    if cur.len() > 0 {
        done.push(cur)
    } else {
        done
    }
}

/// Pieces joined with `sep` between them.
pub open spec fn join_with(parts: Seq<Seq<char>>, sep: Seq<char>) -> Seq<char>
    decreases parts.len(),
{
    if parts.len() == 0 {
        seq![]
    } else if parts.len() == 1 {
        parts[0]
    } else {
        join_with(parts.drop_last(), sep) + sep + parts.last()
    }
}

fn join_exec(parts: &Vec<Vec<char>>, sep: &[char]) -> (r: Vec<char>)
    ensures
        r@ == join_with(deep(parts@), sep@),
{
    let mut r: Vec<char> = Vec::new();
    let mut i: usize = 0;
    while i < parts.len()
        invariant
            i <= parts@.len(),
            r@ == join_with(deep(parts@.take(i as int)), sep@),
        decreases parts.len() - i,
    {
        proof {
            assert(deep(parts@.take(i + 1)).drop_last() =~= deep(parts@.take(i as int)));
        }
        if i > 0 {
            push_all(&mut r, sep);
        }
        push_all(&mut r, parts[i].as_slice());
        i = i + 1;
        proof {
            if i == 1 {
                assert(r@ =~= join_with(deep(parts@.take(i as int)), sep@));
            }
        }
    }
    assert(parts@.take(i as int) =~= parts@);
    r
}

fn words_exec(s: &[char]) -> (r: Vec<Vec<char>>)
    ensures
        deep(r@) == words(s@),
{
    let mut done: Vec<Vec<char>> = Vec::new();
    let mut cur: Vec<char> = Vec::new();
    let mut i: usize = 0;
    while i < s.len()
        invariant
            i <= s@.len(),
            split_ws(s@.take(i as int)) == (deep(done@), cur@),
        decreases s.len() - i,
    {
        proof {
            assert(s@.take(i + 1).drop_last() =~= s@.take(i as int));
        }
        if is_whitespace(s[i]) {
            if cur.len() > 0 {
                let piece = cur;
                cur = Vec::new();
                let ghost before = deep(done@);
                done.push(piece);
                assert(deep(done@) =~= before.push(piece@));
            }
        } else {
            cur.push(s[i]);
        }
        i = i + 1;
    }
    assert(s@.take(i as int) =~= s@);
    if cur.len() > 0 {
        let ghost before = deep(done@);
        done.push(cur);
        assert(deep(done@) =~= before.push(cur@));
    }
    done
}

// ---------------------------------------------------------------------------
// Reference definitions
// ---------------------------------------------------------------------------
/// A label compared as CommonMark does: whitespace runs collapsed to one
/// space, ASCII letters lower-cased.
pub open spec fn normalize_label_spec(label: Seq<char>) -> Seq<char> {
    lowercase(join_with(words(label), seq![' ']))
}

pub fn normalize_reference_label(label: &[char]) -> (r: Vec<char>)
    ensures
        r@ == normalize_label_spec(label@),
{
    let w = words_exec(label);
    let sp = vec![' '];
    assert(sp@ =~= seq![' ']);
    let j = join_exec(&w, sp.as_slice());
    ascii_lowercase(j.as_slice())
}

/// Number of leading spaces (only `' '`).
pub open spec fn lead_spaces(s: Seq<char>) -> nat
    decreases s.len(),
{
    if s.len() > 0 && s[0] == ' ' {
        1 + lead_spaces(s.drop_first())
    } else {
        0
    }
}

proof fn lemma_lead_spaces_bound(s: Seq<char>)
    ensures
        lead_spaces(s) <= s.len(),
    decreases s.len(),
{
    if s.len() > 0 && s[0] == ' ' {
        lemma_lead_spaces_bound(s.drop_first());
    }
}

/// The label a line defines: at most three spaces, then `[label]:` with a
/// label that is not blank.
pub open spec fn definition_label_spec(line: Seq<char>) -> Option<Seq<char>> {
    let k = lead_spaces(line);
    if k > 3 {
        None
    } else {
        let t = line.skip(k as int);
        if !(t.len() > 0 && t[0] == '[') {
            None
        } else {
            match find_from(t, seq![']', ':'], 0) {
                None => None,
                Some(close) => if close < 1 {
                    None
                } else {
                    let raw = trim(t.subrange(1, close));
                    if raw.len() == 0 {
                        None
                    } else {
                        Some(normalize_label_spec(raw))
                    }
                },
            }
        }
    }
}

pub fn parse_reference_definition_label(line: &[char]) -> (r: Option<Vec<char>>)
    ensures
        match definition_label_spec(line@) {
            Some(l) => r matches Some(v) && v@ == l,
            None => r is None,
        },
{
    let mut k: usize = 0;
    assert(line@.skip(0) =~= line@);
    while k < line.len() && line[k] == ' '
        invariant
            k <= line@.len(),
            lead_spaces(line@) == k + lead_spaces(line@.skip(k as int)),
        decreases line.len() - k,
    {
        assert(line@.skip(k as int).drop_first() =~= line@.skip(k + 1));
        k = k + 1;
    }
    proof {
        lemma_lead_spaces_bound(line@.skip(k as int));
        if k < line@.len() {
            assert(line@.skip(k as int)[0] == line@[k as int]);
        }
    }
    if k > 3 {
        return None;
    }
    let t = slice_to_vec(line, k, line.len());
    assert(t@ =~= line@.skip(k as int));
    if !(t.len() > 0 && t[0] == '[') {
        return None;
    }
    let pat = vec![']', ':'];
    assert(pat@ =~= seq![']', ':']);
    let close = match find_seq(t.as_slice(), pat.as_slice(), 0) {
        Some(c) => c,
        None => return None,
    };
    proof {
        lemma_find_from_props(t@, pat@, 0);
    }
    if close < 1 {
        return None;
    }
    let inner = slice_to_vec(t.as_slice(), 1, close);
    let raw = trimmed(inner.as_slice());
    if raw.len() == 0 {
        return None;
    }
    Some(normalize_reference_label(raw.as_slice()))
}

/// A line that continues a definition: indented by a space or a tab, and
/// not blank.
pub open spec fn continuation_spec(line: Seq<char>) -> bool {
    trim(line).len() > 0 && line.len() > 0 && (line[0] == ' ' || line[0] == '\t')
}

pub fn is_reference_definition_continuation(line: &[char]) -> (r: bool)
    ensures
        r == continuation_spec(line@),
{
    let t = trimmed(line);
    t.len() > 0 && line.len() > 0 && (line[0] == ' ' || line[0] == '\t')
}

/// Length of the run of `c` at the start of `s`.
pub open spec fn run_len(s: Seq<char>, c: char) -> nat
    decreases s.len(),
{
    if s.len() > 0 && s[0] == c {
        1 + run_len(s.drop_first(), c)
    } else {
        0
    }
}

/// The fence character of a line that opens or closes a code fence: at
/// least three backticks or tildes.
pub open spec fn fence_marker_spec(line: Seq<char>) -> Option<char> {
    if line.len() > 0 && (line[0] == '`' || line[0] == '~') && run_len(line, line[0]) >= 3 {
        Some(line[0])
    } else {
        None
    }
}

pub fn fenced_code_marker(line: &[char]) -> (r: Option<char>)
    ensures
        r == fence_marker_spec(line@),
{
    if line.len() == 0 || !(line[0] == '`' || line[0] == '~') {
        return None;
    }
    let m = line[0];
    let mut k: usize = 0;
    assert(line@.skip(0) =~= line@);
    while k < line.len() && line[k] == m
        invariant
            k <= line@.len(),
            run_len(line@, m) == k + run_len(line@.skip(k as int), m),
        decreases line.len() - k,
    {
        assert(line@.skip(k as int).drop_first() =~= line@.skip(k + 1));
        k = k + 1;
    }
    proof {
        if k < line@.len() {
            assert(line@.skip(k as int)[0] == line@[k as int]);
        }
    }
    if k >= 3 {
        Some(m)
    } else {
        None
    }
}

/// First line at or after `k` that does not continue a definition.
pub open spec fn continuation_end(ls: Seq<Seq<char>>, k: int) -> int
    decreases ls.len() - k,
{
    if k < 0 || k >= ls.len() {
        k
    } else if continuation_spec(ls[k]) {
        continuation_end(ls, k + 1)
    } else {
        k
    }
}

proof fn lemma_continuation_end(ls: Seq<Seq<char>>, k: int)
    requires
        0 <= k <= ls.len(),
    ensures
        k <= continuation_end(ls, k) <= ls.len(),
    decreases ls.len() - k,
{
    if k < ls.len() && continuation_spec(ls[k]) {
        lemma_continuation_end(ls, k + 1);
    }
}

/// The definitions found from line `i` on, outside code fences, each with
/// its continuation lines, as (normalized label, text) pairs.
pub open spec fn blocks_from(ls: Seq<Seq<char>>, i: int, fence: Option<char>) -> Seq<
    (Seq<char>, Seq<char>),
>
    decreases ls.len() - i,
{
    if i < 0 || i >= ls.len() {
        seq![]
    } else {
        let line = ls[i];
        match fence_marker_spec(trim_start(line)) {
            Some(m) => {
                let f = if fence == Some(m) {
                    None
                } else if fence is None {
                    Some(m)
                } else {
                    fence
                };
                blocks_from(ls, i + 1, f)
            },
            None => if fence is Some {
                blocks_from(ls, i + 1, fence)
            } else {
                match definition_label_spec(line) {
                    None => blocks_from(ls, i + 1, fence),
                    Some(l) => {
                        let j = continuation_end(ls, i + 1);
                        if j <= i || j > ls.len() {
                            seq![]
                        } else {
                            seq![(l, join_with(ls.subrange(i, j), seq!['\n']))] + blocks_from(
                                ls,
                                j,
                                fence,
                            )
                        }
                    },
                }
            },
        }
    }
}

/// All definition blocks of a source text.
pub open spec fn definition_blocks_spec(source: Seq<char>) -> Seq<(Seq<char>, Seq<char>)> {
    blocks_from(lines_spec(source), 0, None)
}

pub open spec fn pair_deep(v: Seq<(Vec<char>, Vec<char>)>) -> Seq<(Seq<char>, Seq<char>)> {
    v.map_values(|p: (Vec<char>, Vec<char>)| (p.0@, p.1@))
}

pub fn collect_reference_definition_blocks(source: &[char]) -> (r: Vec<(Vec<char>, Vec<char>)>)
    ensures
        pair_deep(r@) == definition_blocks_spec(source@),
{
    let ls = lines(source);
    let mut out: Vec<(Vec<char>, Vec<char>)> = Vec::new();
    let mut fence: Option<char> = None;
    let mut i: usize = 0;
    let ghost L = deep(ls@);
    while i < ls.len()
        invariant
            L == deep(ls@),
            L == lines_spec(source@),
            i <= L.len(),
            definition_blocks_spec(source@) == pair_deep(out@) + blocks_from(L, i as int, fence),
        decreases ls.len() - i,
    {
        let line = &ls[i];
        assert(line@ == L[i as int]);
        let t = trimmed_start(line.as_slice());
        match fenced_code_marker(t.as_slice()) {
            Some(m) => {
                if fence == Some(m) {
                    fence = None;
                } else if fence.is_none() {
                    fence = Some(m);
                }
                i = i + 1;
                continue ;
            },
            None => {},
        }
        if fence.is_some() {
            i = i + 1;
            continue ;
        }
        match parse_reference_definition_label(line.as_slice()) {
            None => {
                i = i + 1;
            },
            Some(label) => {
                let mut block = slice_to_vec(line.as_slice(), 0, line.len());
                assert(block@ =~= line@);
                let mut j = i + 1;
                proof {
                    lemma_continuation_end(L, j as int);
                    assert(L.subrange(i as int, j as int) =~= seq![L[i as int]]);
                }
                while j < ls.len() && is_reference_definition_continuation(ls[j].as_slice())
                    invariant
                        L == deep(ls@),
                        i < j <= L.len(),
                        continuation_end(L, i + 1) == continuation_end(L, j as int),
                        block@ == join_with(L.subrange(i as int, j as int), seq!['\n']),
                    decreases ls.len() - j,
                {
                    block.push('\n');
                    push_all(&mut block, ls[j].as_slice());
                    proof {
                        assert(L.subrange(i as int, j + 1).drop_last() =~= L.subrange(
                            i as int,
                            j as int,
                        ));
                        assert(L[j as int] == ls@[j as int]@);
                    }
                    j = j + 1;
                }
                let ghost before = pair_deep(out@);
                out.push((label, block));
                assert(pair_deep(out@) =~= before.push((label@, block@)));
                i = j;
            },
        }
    }
    proof {
        assert(pair_deep(out@) + seq![] =~= pair_deep(out@));
    }
    out
}

/// Pairs whose label did not occur before, in order.
pub open spec fn first_by_label(s: Seq<(Seq<char>, Seq<char>)>) -> Seq<(Seq<char>, Seq<char>)>
    decreases s.len(),
{
    if s.len() == 0 {
        seq![]
    } else if labels(s.drop_last()).contains(s.last().0) {
        first_by_label(s.drop_last())
    } else {
        first_by_label(s.drop_last()).push(s.last())
    }
}

pub open spec fn labels(s: Seq<(Seq<char>, Seq<char>)>) -> Seq<Seq<char>> {
    s.map_values(|p: (Seq<char>, Seq<char>)| p.0)
}

/// The definitions a host shares with its subtrees: the first definition of
/// each label, one per line, with a final newline; nothing when there are
/// none.
pub open spec fn shared_definitions_spec(root: Seq<char>) -> Seq<char> {
    let kept = first_by_label(definition_blocks_spec(root));
    if kept.len() == 0 {
        seq![]
    } else {
        join_with(kept.map_values(|p: (Seq<char>, Seq<char>)| p.1), seq!['\n']).push('\n')
    }
}

fn seen_label(seen: &Vec<Vec<char>>, l: &[char]) -> (r: bool)
    ensures
        r == deep(seen@).contains(l@),
{
    let mut i: usize = 0;
    while i < seen.len()
        invariant
            i <= seen@.len(),
            forall|j: int| 0 <= j < i ==> seen@[j]@ != l@,
        decreases seen.len() - i,
    {
        if seq_eq(seen[i].as_slice(), l) {
            assert(deep(seen@)[i as int] == l@);
            return true;
        }
        i = i + 1;
    }
    proof {
        if deep(seen@).contains(l@) {
            let k = choose|k: int| 0 <= k < deep(seen@).len() && deep(seen@)[k] == l@;
            assert(seen@[k]@ == l@);
        }
    }
    false
}

pub fn extract_shared_reference_definitions(root_source: &str) -> (r: String)
    ensures
        r@ == shared_definitions_spec(root_source@),
{
    let src = chars_of(root_source);
    let blocks = collect_reference_definition_blocks(src.as_slice());
    let ghost all = pair_deep(blocks@);
    let mut seen: Vec<Vec<char>> = Vec::new();
    let mut kept: Vec<Vec<char>> = Vec::new();
    let mut i: usize = 0;
    while i < blocks.len()
        invariant
            all == pair_deep(blocks@),
            i <= all.len(),
            deep(seen@) == labels(all.take(i as int)),
            deep(kept@) == first_by_label(all.take(i as int)).map_values(
                |p: (Seq<char>, Seq<char>)| p.1,
            ),
        decreases blocks.len() - i,
    {
        let (l, b) = (&blocks[i].0, &blocks[i].1);
        proof {
            assert(all.take(i + 1).drop_last() =~= all.take(i as int));
            assert(all.take(i + 1).last() == (l@, b@));
        }
        if !seen_label(&seen, l.as_slice()) {
            let ghost kb = deep(kept@);
            kept.push(slice_to_vec(b.as_slice(), 0, b.len()));
            assert(b@.subrange(0, b@.len() as int) =~= b@);
            assert(deep(kept@) =~= kb.push(b@));
            assert(first_by_label(all.take(i + 1)).map_values(|p: (Seq<char>, Seq<char>)| p.1)
                =~= first_by_label(all.take(i as int)).map_values(
                |p: (Seq<char>, Seq<char>)| p.1,
            ).push(b@));
        }
        let ghost sb = deep(seen@);
        seen.push(slice_to_vec(l.as_slice(), 0, l.len()));
        assert(l@.subrange(0, l@.len() as int) =~= l@);
        assert(deep(seen@) =~= sb.push(l@));
        assert(labels(all.take(i + 1)) =~= labels(all.take(i as int)).push(l@));
        i = i + 1;
    }
    assert(all.take(i as int) =~= all);
    if kept.len() == 0 {
        return String::new();
    }
    let nl = vec!['\n'];
    assert(nl@ =~= seq!['\n']);
    let mut j = join_exec(&kept, nl.as_slice());
    j.push('\n');
    string_of(j.as_slice())
}

/// A subtree's text with the host's shared definitions appended after a
/// blank line, unless there are none.
pub open spec fn compose_spec(body: Seq<char>, shared: Seq<char>) -> Seq<char> {
    if trim(shared).len() == 0 {
        body
    } else {
        trim_end(body) + seq!['\n', '\n'] + trim(shared) + seq!['\n']
    }
}

pub fn compose_subtree_source(body: &str, shared_reference_definitions: &str) -> (r: String)
    ensures
        r@ == compose_spec(body@, shared_reference_definitions@),
{
    let b = chars_of(body);
    let s = chars_of(shared_reference_definitions);
    let st = trimmed(s.as_slice());
    if st.len() == 0 {
        return string_of(b.as_slice());
    }
    let mut r = trimmed_end(b.as_slice());
    r.push('\n');
    r.push('\n');
    push_all(&mut r, st.as_slice());
    r.push('\n');
    string_of(r.as_slice())
}

} // verus!
