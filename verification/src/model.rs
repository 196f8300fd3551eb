//! The typed in-memory model of a WordPress export: a channel holding
//! an ordered list of items, each with its taxonomy terms.

use vstd::prelude::*;

verus! {

/// An item is either a regular post or a media attachment.
#[derive(Clone, Copy, Debug)]
pub enum PostType {
    Attachment,
    Post,
}

/// Publication status of an item. Only `Publish` items produce output.
#[derive(Clone, Copy, Debug)]
pub enum Status {
    Publish,
    Draft,
    Inherit,
    Private,
}

/// One taxonomy term attached to an item: a namespace (`domain`,
/// e.g. `"category"` or `"post_tag"`) and the term's slug (`nicename`).
#[derive(Debug)]
pub struct Category {
    pub domain: String,
    pub nicename: String,
}

/// One exported item: a post or attachment with its permalink,
/// RFC 2822 publication date, taxonomy terms, and raw HTML body.
///
/// The body field may legally repeat in the source document; only the
/// first occurrence is authoritative, so `encoded` keeps all of them
/// and `content` reads the first.
#[derive(Debug)]
pub struct Item {
    pub title: String,
    pub link: String,
    pub pub_date: String,
    pub post_type: PostType,
    pub status: Status,
    pub encoded: Vec<String>,
    pub categories: Vec<Category>,
}

/// The whole export: the site's base URL and the items in document order.
#[derive(Debug)]
pub struct Channel {
    pub base_site_url: String,
    pub items: Vec<Item>,
}

impl Item {
    /// True when this item is rendered to a page: published, and a post
    /// rather than an attachment.
    pub open spec fn renders(&self) -> bool {
        self.status is Publish && self.post_type is Post
    }

    /// The raw HTML body: the first occurrence of the body field.
    pub fn content(&self) -> (r: &str)
        requires
            self.encoded@.len() >= 1,
        ensures
            r@ == self.encoded@[0]@,
    {
        self.encoded[0].as_str()
    }
}

} // verus!
