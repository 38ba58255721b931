//! The states a link or an embedded block passes through while a page is
//! processed, with the style class name of each.
use vstd::prelude::*;

verus! {

#[derive(Debug, Clone, Copy, PartialEq, Eq, Structural)]
pub enum State {
    /// Writable state
    Writable,
    /// Embedded contents
    Embed,
    /// An included file shown as code
    Include,
    /// Shared for inline typst
    Shared,
    /// Export typst to HTML fragment
    Html,
    /// Inline typst
    InlineTypst,
    /// `display: inline`
    ImageSpan,
    /// `display: block; text-align: center`
    ImageBlock,
    /// `ImageBlock` with `<details>` code
    ImageCode,
    Metadata,
    LocalLink,
    ExternalLink,
    AssetFile,
    UnsafeLink,
}

pub open spec fn state_name(s: State) -> Seq<char> {
    match s {
        State::Writable => "none"@,
        State::Embed => "embed"@,
        State::Include => "include"@,
        State::Shared => "shared"@,
        State::Html => "html"@,
        State::InlineTypst => "inline"@,
        State::ImageSpan => "span"@,
        State::ImageBlock => "block"@,
        State::ImageCode => "code"@,
        State::Metadata => "metadata"@,
        State::LocalLink => "local"@,
        State::ExternalLink => "external"@,
        State::AssetFile => "asset"@,
        State::UnsafeLink => "unsafe"@,
    }
}

impl State {
    /// The state's name; for links it is the style class name.
    pub fn strify(&self) -> (r: &'static str)
        ensures
            r@ == state_name(*self),
    {
        match self {
            State::Writable => "none",
            State::Embed => "embed",
            State::Include => "include",
            State::Shared => "shared",
            State::Html => "html",
            State::InlineTypst => "inline",
            State::ImageSpan => "span",
            State::ImageBlock => "block",
            State::ImageCode => "code",
            State::Metadata => "metadata",
            State::LocalLink => "local",
            State::ExternalLink => "external",
            State::AssetFile => "asset",
            State::UnsafeLink => "unsafe",
        }
    }
}

} // verus!
