//! Attributes of subtree tags: `key="value"`, `key='value'`, `key=value`
//! or a bare `key`.
use vstd::prelude::*;

use crate::section::SectionOption;
use crate::text::{ascii_lowercase, chars_of, eq_str, lowercase, slice_to_vec, string_of};

verus! {

pub open spec fn is_ascii_ws(c: char) -> bool {
    c == ' ' || c == '\t' || c == '\n' || c == '\x0C' || c == '\r'
}

fn ascii_ws(c: char) -> (b: bool)
    ensures
        b == is_ascii_ws(c),
{
    c == ' ' || c == '\t' || c == '\n' || c == '\x0C' || c == '\r'
}

pub open spec fn is_key_char(c: char) -> bool {
    crate::text::is_ascii_alnum(c) || c == '-' || c == '_'
}

/// First index at or after `i` that is not ASCII whitespace (or the length).
pub open spec fn skip_ws(s: Seq<char>, i: int) -> int
    decreases s.len() - i,
{
    if i < 0 || i >= s.len() {
        i
    } else if is_ascii_ws(s[i]) {
        skip_ws(s, i + 1)
    } else {
        i
    }
}

/// First index at or after `i` that cannot be part of a key.
pub open spec fn key_end(s: Seq<char>, i: int) -> int
    decreases s.len() - i,
{
    if i < 0 || i >= s.len() {
        i
    } else if is_key_char(s[i]) {
        key_end(s, i + 1)
    } else {
        i
    }
}

/// First index at or after `i` that is ASCII whitespace (or the length).
pub open spec fn bare_end(s: Seq<char>, i: int) -> int
    decreases s.len() - i,
{
    if i < 0 || i >= s.len() {
        i
    } else if is_ascii_ws(s[i]) {
        i
    } else {
        bare_end(s, i + 1)
    }
}

/// Position of the closing quote `q`, reading from `i`; `\` skips the next
/// character. At or past the length when there is none.
pub open spec fn quote_end(s: Seq<char>, i: int, q: char) -> int
    decreases s.len() + 1 - i,
{
    if i < 0 || i >= s.len() {
        i
    } else if s[i] == q {
        i
    } else if s[i] == '\\' && i + 1 < s.len() {
        quote_end(s, i + 2, q)
    } else {
        quote_end(s, i + 1, q)
    }
}

proof fn lemma_skip_ws(s: Seq<char>, i: int)
    requires
        0 <= i <= s.len(),
    ensures
        i <= skip_ws(s, i) <= s.len(),
        forall|j: int| i <= j < skip_ws(s, i) ==> is_ascii_ws(s[j]),
    decreases s.len() - i,
{
    if i < s.len() && is_ascii_ws(s[i]) {
        lemma_skip_ws(s, i + 1);
    }
}

proof fn lemma_key_end(s: Seq<char>, i: int)
    requires
        0 <= i <= s.len(),
    ensures
        i <= key_end(s, i) <= s.len(),
    decreases s.len() - i,
{
    if i < s.len() && is_key_char(s[i]) {
        lemma_key_end(s, i + 1);
    }
}

proof fn lemma_bare_end(s: Seq<char>, i: int)
    requires
        0 <= i <= s.len(),
    ensures
        i <= bare_end(s, i) <= s.len(),
    decreases s.len() - i,
{
    if i < s.len() && !is_ascii_ws(s[i]) {
        lemma_bare_end(s, i + 1);
    }
}

proof fn lemma_quote_end(s: Seq<char>, i: int, q: char)
    requires
        0 <= i <= s.len(),
    ensures
        i <= quote_end(s, i, q) <= s.len(),
        quote_end(s, i, q) < s.len() ==> s[quote_end(s, i, q)] == q,
    decreases s.len() + 1 - i,
{
    if i < s.len() && s[i] != q {
        if s[i] == '\\' && i + 1 < s.len() {
            lemma_quote_end(s, i + 2, q);
        } else {
            lemma_quote_end(s, i + 1, q);
        }
    }
}

/// Why attribute text could not be read.
pub enum AttrErrorModel {
    /// A character that cannot start a key (the attribute text).
    Malformed(Seq<char>),
    /// `key=` with nothing after it (the key, the attribute text).
    MissingValue(Seq<char>, Seq<char>),
    /// A quoted value without its closing quote.
    UnclosedQuote,
}

/// What `htmlize::unescape_attribute` returns.
pub uninterp spec fn unescape_attribute_spec(s: Seq<char>) -> Seq<char>;

/// Calls `htmlize::unescape_attribute`, which expands character references
/// (`&lt;`, `&#60;`, ...) as an attribute value allows. The result is named;
/// the one fact stated is from its source: text without `&` comes back
/// unchanged.
#[verifier::external_body]
fn unescape_attribute(s: &[char]) -> (r: Vec<char>)
    ensures
        r@ == unescape_attribute_spec(s@),
        !s@.contains('&') ==> r@ == s@,
{
    let text: String = s.iter().collect();
    htmlize::unescape_attribute(text.as_str()).chars().collect()
}

/// An attribute value with its character references expanded: text
/// without `&` holds none and is kept as it is.
pub open spec fn unescaped_value(s: Seq<char>) -> Seq<char> {
    if s.contains('&') {
        unescape_attribute_spec(s)
    } else {
        s
    }
}

/// The attribute pairs read from position `i` on, in order; keys are
/// lower-cased and values unescaped. A later pair with the same key wins.
pub open spec fn attrs_from(s: Seq<char>, i: int) -> Result<Seq<(Seq<char>, Seq<char>)>, AttrErrorModel>
    decreases s.len() - i,
{
    if i < 0 || i > s.len() {
        Ok(seq![])
    } else {
        let i1 = skip_ws(s, i);
        if i1 >= s.len() {
            Ok(seq![])
        } else {
            let ke = key_end(s, i1);
            if ke <= i1 {
                Err(AttrErrorModel::Malformed(s))
            } else {
                let key = lowercase(s.subrange(i1, ke));
                let i2 = skip_ws(s, ke);
                let parsed: Result<(Seq<char>, int), AttrErrorModel> = if i2 < s.len() && s[i2]
                    == '=' {
                    let i3 = skip_ws(s, i2 + 1);
                    if i3 >= s.len() {
                        Err(AttrErrorModel::MissingValue(key, s))
                    } else if s[i3] == '"' || s[i3] == '\'' {
                        let e = quote_end(s, i3 + 1, s[i3]);
                        if e >= s.len() {
                            Err(AttrErrorModel::UnclosedQuote)
                        } else {
                            Ok((s.subrange(i3 + 1, e), e + 1))
                        }
                    } else {
                        let e = bare_end(s, i3);
                        Ok((s.subrange(i3, e), e))
                    }
                } else {
                    Ok((seq![], i2))
                };
                match parsed {
                    Err(e) => Err(e),
                    Ok((value, next)) => if next <= i || next > s.len() {
                        Ok(seq![])
                    } else {
                        match attrs_from(s, next) {
                            Err(e) => Err(e),
                            Ok(rest) => Ok(seq![(key, unescaped_value(value))] + rest),
                        }
                    },
                }
            }
        }
    }
}

/// The value of the last pair with key `k`.
pub open spec fn attr_lookup(pairs: Seq<(Seq<char>, Seq<char>)>, k: Seq<char>) -> Option<
    Seq<char>,
>
    decreases pairs.len(),
{
    if pairs.len() == 0 {
        None
    } else if pairs.last().0 == k {
        Some(pairs.last().1)
    } else {
        attr_lookup(pairs.drop_last(), k)
    }
}

/// Attribute pairs as read.
#[derive(Debug)]
pub struct Attrs {
    pub pairs: Vec<(String, String)>,
}

pub open spec fn pair_views(v: Seq<(String, String)>) -> Seq<(Seq<char>, Seq<char>)> {
    v.map_values(|p: (String, String)| (p.0@, p.1@))
}

impl View for Attrs {
    type V = Seq<(Seq<char>, Seq<char>)>;

    open spec fn view(&self) -> Seq<(Seq<char>, Seq<char>)> {
        pair_views(self.pairs@)
    }
}

impl Attrs {
    /// The value given last for `key`.
    pub fn get(&self, key: &str) -> (r: Option<String>)
        ensures
            match attr_lookup(self@, key@) {
                Some(v) => r matches Some(x) && x@ == v,
                None => r is None,
            },
    {
        let k = chars_of(key);
        let mut n = self.pairs.len();
        assert(self@.take(n as int) =~= self@);
        while n > 0
            invariant
                n <= self@.len(),
                self@.len() == self.pairs@.len(),
                attr_lookup(self@, key@) == attr_lookup(self@.take(n as int), key@),
            decreases n,
        {
            let p = &self.pairs[n - 1];
            assert(self@.take(n as int).last() == (p.0@, p.1@));
            if crate::text::str_eq(p.0.as_str(), key) {
                return Some(p.1.clone());
            }
            assert(self@.take(n as int).drop_last() =~= self@.take(n - 1));
            n = n - 1;
        }
        None
    }
}

/// Failure to read attribute text.
#[derive(Debug)]
pub enum AttrError {
    Malformed { attrs: String },
    MissingValue { key: String, attrs: String },
    UnclosedQuote,
}

/// The message of an attribute error.
pub open spec fn attr_message_spec(e: AttrErrorModel) -> Seq<char> {
    match e {
        AttrErrorModel::Malformed(a) => "malformed subtree tag attribute: `"@ + a + "`"@,
        AttrErrorModel::MissingValue(k, a) => "malformed subtree tag attribute `"@ + k
            + "` in `"@ + a + "`: missing value"@,
        AttrErrorModel::UnclosedQuote => "malformed subtree tag attribute: unclosed quote"@,
    }
}

impl AttrError {
    pub open spec fn model(&self) -> AttrErrorModel {
        match self {
            AttrError::Malformed { attrs } => AttrErrorModel::Malformed(attrs@),
            AttrError::MissingValue { key, attrs } => AttrErrorModel::MissingValue(key@, attrs@),
            AttrError::UnclosedQuote => AttrErrorModel::UnclosedQuote,
        }
    }

    /// The error's message.
    pub fn message(&self) -> (r: String)
        ensures
            r@ == attr_message_spec(self.model()),
    {
        let mut v: Vec<char> = Vec::new();
        match self {
            AttrError::Malformed { attrs } => {
                crate::text::push_str(&mut v, "malformed subtree tag attribute: `");
                crate::text::push_str(&mut v, attrs.as_str());
                crate::text::push_str(&mut v, "`");
            },
            AttrError::MissingValue { key, attrs } => {
                crate::text::push_str(&mut v, "malformed subtree tag attribute `");
                crate::text::push_str(&mut v, key.as_str());
                crate::text::push_str(&mut v, "` in `");
                crate::text::push_str(&mut v, attrs.as_str());
                crate::text::push_str(&mut v, "`: missing value");
            },
            AttrError::UnclosedQuote => {
                crate::text::push_str(&mut v, "malformed subtree tag attribute: unclosed quote");
            },
        }
        proof {
            assert(v@ =~= attr_message_spec(self.model()));
        }
        string_of(v.as_slice())
    }
}

fn skip_ws_exec(s: &[char], i: usize) -> (r: usize)
    requires
        i <= s@.len(),
    ensures
        r == skip_ws(s@, i as int),
        i <= r <= s@.len(),
{
    let mut j = i;
    while j < s.len() && ascii_ws(s[j])
        invariant
            i <= j <= s@.len(),
            skip_ws(s@, i as int) == skip_ws(s@, j as int),
        decreases s.len() - j,
    {
        j = j + 1;
    }
    j
}

fn key_end_exec(s: &[char], i: usize) -> (r: usize)
    requires
        i <= s@.len(),
    ensures
        r == key_end(s@, i as int),
        i <= r <= s@.len(),
{
    let mut j = i;
    while j < s.len() && (crate::text::ascii_alnum(s[j]) || s[j] == '-' || s[j] == '_')
        invariant
            i <= j <= s@.len(),
            key_end(s@, i as int) == key_end(s@, j as int),
        decreases s.len() - j,
    {
        j = j + 1;
    }
    j
}

fn bare_end_exec(s: &[char], i: usize) -> (r: usize)
    requires
        i <= s@.len(),
    ensures
        r == bare_end(s@, i as int),
        i <= r <= s@.len(),
{
    let mut j = i;
    while j < s.len() && !ascii_ws(s[j])
        invariant
            i <= j <= s@.len(),
            bare_end(s@, i as int) == bare_end(s@, j as int),
        decreases s.len() - j,
    {
        j = j + 1;
    }
    j
}

fn quote_end_exec(s: &[char], i: usize, q: char) -> (r: usize)
    requires
        i <= s@.len(),
    ensures
        r == quote_end(s@, i as int, q),
        i <= r <= s@.len(),
{
    let mut j = i;
    while j < s.len() && s[j] != q
        invariant
            i <= j <= s@.len(),
            quote_end(s@, i as int, q) == quote_end(s@, j as int, q),
        decreases s.len() - j,
    {
        if s[j] == '\\' && j + 1 < s.len() {
            j = j + 2;
        } else {
            j = j + 1;
        }
    }
    j
}

/// Reads the attribute text of a subtree tag.
pub fn parse_attrs(text: &[char]) -> (r: Result<Attrs, AttrError>)
    ensures
        attrs_from(text@, 0) is Ok ==> r is Ok && r->Ok_0@ == attrs_from(text@, 0)->Ok_0,
        attrs_from(text@, 0) is Err ==> r is Err && r->Err_0.model() == attrs_from(text@, 0)->Err_0,
{
    let s = text;
    let mut i: usize = 0;
    let mut out: Vec<(String, String)> = Vec::new();
    loop
        invariant
            s@ == text@,
            i <= s@.len(),
            match attrs_from(s@, 0) {
                Ok(all) => attrs_from(s@, i as int) matches Ok(rest) && all == pair_views(out@)
                    + rest,
                Err(e) => attrs_from(s@, i as int) == Err::<
                    Seq<(Seq<char>, Seq<char>)>,
                    AttrErrorModel,
                >(e),
            },
        decreases s.len() - i,
    {
        let i1 = skip_ws_exec(s, i);
        if i1 >= s.len() {
            assert(attrs_from(s@, i as int) == Ok::<
                Seq<(Seq<char>, Seq<char>)>,
                AttrErrorModel,
            >(seq![]));
            assert(pair_views(out@) + seq![] =~= pair_views(out@));
            let res = Attrs { pairs: out };
            assert(res@ == pair_views(out@));
            assert(attrs_from(s@, 0) is Ok);
            assert(attrs_from(s@, 0) == Ok::<Seq<(Seq<char>, Seq<char>)>, AttrErrorModel>(res@));
            return Ok(res);
        }
        let ke = key_end_exec(s, i1);
        if ke == i1 {
            return Err(AttrError::Malformed { attrs: string_of(s) });
        }
        let raw_key = slice_to_vec(s, i1, ke);
        let key = ascii_lowercase(raw_key.as_slice());
        let i2 = skip_ws_exec(s, ke);
        let value: Vec<char>;
        let next: usize;
        if i2 < s.len() && s[i2] == '=' {
            let i3 = skip_ws_exec(s, i2 + 1);
            if i3 >= s.len() {
                return Err(
                    AttrError::MissingValue { key: string_of(key.as_slice()), attrs: string_of(s) },
                );
            }
            if s[i3] == '"' || s[i3] == '\'' {
                let e = quote_end_exec(s, i3 + 1, s[i3]);
                if e >= s.len() {
                    return Err(AttrError::UnclosedQuote);
                }
                value = slice_to_vec(s, i3 + 1, e);
                next = e + 1;
            } else {
                let e = bare_end_exec(s, i3);
                value = slice_to_vec(s, i3, e);
                next = e;
            }
        } else {
            value = Vec::new();
            next = i2;
        }
        let unescaped = unescape_attribute(value.as_slice());
        let ghost before = pair_views(out@);
        out.push((string_of(key.as_slice()), string_of(unescaped.as_slice())));
        proof {
            assert(pair_views(out@) =~= before.push((key@, unescaped@)));
            match attrs_from(s@, 0) {
                Ok(all) => {
                    let rest = attrs_from(s@, i as int)->Ok_0;
                    let rest2 = attrs_from(s@, next as int)->Ok_0;
                    assert(rest == seq![(key@, unescaped@)] + rest2);
                    assert(all =~= pair_views(out@) + rest2);
                },
                Err(e) => {},
            }
        }
        i = next;
    }
}

/// `auto` or no value keeps the default; `false`, `0` and `none` turn the
/// option off; anything else turns it on.
pub open spec fn bool_attr_spec(value: Option<Seq<char>>, default: bool) -> bool {
    match value {
        None => default,
        Some(v) => if v == "auto"@ {
            default
        } else if v == "false"@ || v == "0"@ || v == "none"@ {
            false
        } else {
            true
        },
    }
}

pub fn parse_bool_attr(value: Option<&str>, default: bool) -> (r: bool)
    ensures
        r == bool_attr_spec(
            match value {
                Some(v) => Some(v@),
                None => None,
            },
            default,
        ),
{
    match value {
        None => default,
        Some(v) => {
            let c = chars_of(v);
            if eq_str(c.as_slice(), "auto") {
                default
            } else if eq_str(c.as_slice(), "false") || eq_str(c.as_slice(), "0") || eq_str(
                c.as_slice(),
                "none",
            ) {
                false
            } else {
                true
            }
        },
    }
}

fn bool_attr_of(attrs: &Attrs, key: &str, default: bool) -> (r: bool)
    ensures
        r == bool_attr_spec(attr_lookup(attrs@, key@), default),
{
    match attrs.get(key) {
        Some(v) => parse_bool_attr(Some(v.as_str()), default),
        None => parse_bool_attr(None, default),
    }
}

/// The display options a subtree tag asks for: attributes `numbering`,
/// `open` and `catalog` over the defaults.
pub open spec fn subtree_option_spec(attrs: Seq<(Seq<char>, Seq<char>)>) -> SectionOption {
    SectionOption {
        numbering: bool_attr_spec(attr_lookup(attrs, "numbering"@), false),
        details_open: bool_attr_spec(attr_lookup(attrs, "open"@), true),
        catalog: bool_attr_spec(attr_lookup(attrs, "catalog"@), true),
    }
}

pub fn parse_subtree_option(attrs: &Attrs) -> (r: SectionOption)
    ensures
        r == subtree_option_spec(attrs@),
{
    let d = SectionOption::default_option();
    SectionOption::new(
        bool_attr_of(attrs, "numbering", d.numbering),
        bool_attr_of(attrs, "open", d.details_open),
        bool_attr_of(attrs, "catalog", d.catalog),
    )
}

} // verus!
