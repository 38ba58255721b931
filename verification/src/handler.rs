//! Taxon display for pages written from a single markdown entry.
use vstd::prelude::*;

use crate::metadata::{capitalize_first, splits_after_first};
use crate::text::{owned, push_str, string_of, upper};

verus! {

/// First letter capitalised and `. ` appended; text whose first character
/// is not a one-byte character is kept unchanged.
pub open spec fn entry_taxon_spec(s: Seq<char>) -> Seq<char> {
    if splits_after_first(s) {
        seq![upper(s[0])] + s.skip(1) + ". "@
    } else {
        s
    }
}

pub fn display_taxon(s: &str) -> (r: String)
    ensures
        r@ == entry_taxon_spec(s@),
{
    let mut r = capitalize_first(s);
    let v = crate::text::chars_of(s);
    if v.len() > 0 && (v[0] as u32) < 0x80 {
        push_str(&mut r, ". ");
    }
    string_of(r.as_slice())
}

/// The displayed taxon, or nothing.
pub fn display_option_taxon(taxon: Option<&str>) -> (r: String)
    ensures
        r@ == match taxon {
            Some(s) => entry_taxon_spec(s@),
            None => Seq::empty(),
        },
{
    match taxon {
        None => {
            let r = owned("");
            proof {
                reveal_strlit("");
            }
            r
        },
        Some(s) => display_taxon(s),
    }
}

} // verus!
