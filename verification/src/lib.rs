//! Converts a WordPress content export into a Zola-style content tree:
//! one directory per URL path segment, a section index per directory,
//! and one Markdown page per published post.

pub mod model;
pub mod strutil;
pub mod normalize;
pub mod paths;
pub mod taxonomy;
pub mod front_matter;
pub mod dates;
pub mod markdown;
pub mod pipeline;
pub mod laws;
