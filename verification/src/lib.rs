use vstd::prelude::*;

pub mod anonymous;
pub mod attrs;
pub mod base36;
pub mod callback;
pub mod cli;
pub mod compile;
pub mod config;
pub mod elaborate;
pub mod embed;
pub mod entry;
pub mod environment;
pub mod figure;
pub mod footnote;
pub mod graph;
pub mod handler;
pub mod html;
pub mod links;
pub mod markdown;
pub mod markdown_sections;
pub mod metadata;
pub mod order;
pub mod ordered_map;
pub mod recorder;
pub mod references;
pub mod rss;
pub mod section;
pub mod sections;
pub mod slug;
pub mod subtree;
pub mod tags;
pub mod text;
pub mod typst_cli;
pub mod typst_html;
pub mod typst_image;
pub mod watch;
pub mod workspace;

verus! {
}
