//! The conversion pipeline: from a parsed channel to the list of files
//! that make up the output content tree.
//!
//! Items are processed in document order. Published posts produce one
//! page file each; the first post under a directory also produces that
//! directory's section-index file. Drafts, private and inherited items,
//! and attachments produce nothing. The first unparseable publication
//! date aborts the run.

use vstd::prelude::*;
use crate::model::{Channel, Item};
use crate::paths::{resolve_spec, section_of, section_index_path, generate_path, section_of_path,
    section_index_file};
use crate::normalize::{normalize_spec, normalize_line_breaks};
use crate::taxonomy::{terms_for, split_taxonomies};
use crate::front_matter::{page_file_spec, section_index_content, render_page,
    render_section_index};
use crate::dates::{rfc3339_of_rfc2822, rfc2822_to_rfc3339};
use crate::markdown::{markdown_of, render_markdown};

verus! {

/// One file of the output tree: a path relative to the output root and
/// the file's full text.
pub struct OutputFile {
    pub path: String,
    pub content: String,
}

impl View for OutputFile {
    type V = (Seq<char>, Seq<char>);

    open spec fn view(&self) -> (Seq<char>, Seq<char>) {
        (self.path@, self.content@)
    }
}

/// The one fatal condition the pipeline itself detects: a published
/// post whose publication date is not a valid RFC 2822 timestamp.
#[derive(Debug, PartialEq, Eq, Structural, Clone, Copy)]
pub enum ConvertError {
    DateUnparseable,
}

/// The path–content views of a file list.
pub open spec fn views_of(files: Seq<OutputFile>) -> Seq<(Seq<char>, Seq<char>)> {
    files.map_values(|f: OutputFile| f@)
}

/// A rendered item's publication date parses as RFC 2822.
pub open spec fn item_date_ok(item: Item) -> bool {
    rfc3339_of_rfc2822(item.pub_date@) is Some
}

/// Every item that is rendered has a parseable publication date.
pub open spec fn dates_ok(items: Seq<Item>) -> bool {
    forall|i: int| 0 <= i < items.len() && items[i].renders() ==> item_date_ok(#[trigger] items[i])
}

/// The text of the page file produced for a rendered item: front matter
/// from its title, date and taxonomy, body rendered from its normalized
/// raw HTML.
pub open spec fn page_content_of(item: Item) -> Seq<char> {
    page_file_spec(
        item.title@,
        rfc3339_of_rfc2822(item.pub_date@)->0,
        markdown_of(normalize_spec(item.encoded@[0]@)),
        terms_for(item.categories@, "category"@),
        terms_for(item.categories@, "post_tag"@),
    )
}

/// The files one item adds to the output, given the set of directories
/// that already have a section index: nothing unless the item renders;
/// otherwise its page file, preceded by the directory's section-index
/// file when the directory is new.
pub open spec fn item_entries(base: Seq<char>, item: Item, seen: Set<Seq<char>>) -> Seq<
    (Seq<char>, Seq<char>),
> {
    if item.renders() {
        let path = resolve_spec(base, item.link@);
        let dir = section_of(path);
        let page = (path, page_content_of(item));
        if seen.contains(dir) {
            seq![page]
        } else {
            seq![(section_index_path(dir), section_index_content()), page]
        }
    } else {
        Seq::empty()
    }
}

/// The seen-directory set after one item.
pub open spec fn seen_after(base: Seq<char>, item: Item, seen: Set<Seq<char>>) -> Set<Seq<char>> {
    if item.renders() {
        seen.insert(section_of(resolve_spec(base, item.link@)))
    } else {
        seen
    }
}

/// The whole output of a run over `items`, in document order, starting
/// from the directories in `seen`.
pub open spec fn plan_spec(base: Seq<char>, items: Seq<Item>, seen: Set<Seq<char>>) -> Seq<
    (Seq<char>, Seq<char>),
>
    decreases items.len(),
{
    if items.len() == 0 {
        Seq::empty()
    } else {
        item_entries(base, items[0], seen) + plan_spec(
            base,
            items.skip(1),
            seen_after(base, items[0], seen),
        )
    }
}

/// The set of directory names held by a seen-list.
pub open spec fn set_of_views(v: Seq<String>) -> Set<Seq<char>> {
    Set::new(|s: Seq<char>| exists|j: int| 0 <= j < v.len() && v[j]@ == s)
}

/// Pushing a directory onto the seen-list inserts its name in the set.
proof fn lemma_set_of_views_push(v: Seq<String>, d: String)
    ensures
        set_of_views(v.push(d)) == set_of_views(v).insert(d@),
{
    let w = v.push(d);
    assert forall|s: Seq<char>| set_of_views(w).contains(s) implies set_of_views(v).insert(
        d@,
    ).contains(s) by {
        let j = choose|j: int| 0 <= j < w.len() && w[j]@ == s;
        if j < v.len() {
            assert(v[j]@ == s);
        } else {
            assert(s == d@);
        }
    }
    assert forall|s: Seq<char>| set_of_views(v).insert(d@).contains(s) implies set_of_views(
        w,
    ).contains(s) by {
        if s == d@ {
            assert(w[v.len() as int]@ == s);
        } else {
            let j = choose|j: int| 0 <= j < v.len() && v[j]@ == s;
            assert(w[j]@ == s);
        }
    }
    assert(set_of_views(w) =~= set_of_views(v).insert(d@));
}

/// Linear membership test against the seen-list.
fn seen_contains(seen: &Vec<String>, dir: &String) -> (r: bool)
    ensures
        r == set_of_views(seen@).contains(dir@),
{
    let mut j: usize = 0;
    while j < seen.len()
        invariant
            0 <= j <= seen@.len(),
            forall|k: int| 0 <= k < j ==> seen@[k]@ != dir@,
        decreases seen@.len() - j,
    {
        if crate::strutil::str_eq(seen[j].as_str(), dir.as_str()) {
            proof {
                assert(0 <= j < seen@.len() && seen@[j as int]@ == dir@);
                assert(set_of_views(seen@).contains(dir@));
            }
            return true;
        }
        j = j + 1;
    }
    proof {
        assert(!set_of_views(seen@).contains(dir@));
    }
    false
}

/// Runs the conversion over a parsed channel and returns the files to
/// write, in the order the original run would write them; fails on the
/// first rendered item whose publication date is not valid RFC 2822.
pub fn convert_channel(channel: &Channel) -> (r: Result<Vec<OutputFile>, ConvertError>)
    requires
        forall|i: int|
            0 <= i < channel.items@.len() && #[trigger] channel.items@[i].renders()
                ==> channel.items@[i].encoded@.len() >= 1,
    ensures
        r is Ok <==> dates_ok(channel.items@),
        r matches Ok(files) ==> views_of(files@) == plan_spec(
            channel.base_site_url@,
            channel.items@,
            Set::empty(),
        ),
{
    let ghost base = channel.base_site_url@;
    let ghost all = channel.items@;
    let mut out: Vec<OutputFile> = Vec::new();
    let mut seen: Vec<String> = Vec::new();
    let mut i: usize = 0;
    proof {
        assert(all.skip(0) =~= all);
        assert(set_of_views(seen@) =~= Set::<Seq<char>>::empty());
        assert(views_of(out@) + plan_spec(base, all, Set::empty()) =~= plan_spec(
            base,
            all,
            Set::empty(),
        ));
    }
    while i < channel.items.len()
        invariant
            0 <= i <= all.len(),
            all == channel.items@,
            base == channel.base_site_url@,
            forall|k: int|
                0 <= k < all.len() && #[trigger] all[k].renders() ==> all[k].encoded@.len() >= 1,
            forall|k: int| 0 <= k < i && #[trigger] all[k].renders() ==> item_date_ok(all[k]),
            views_of(out@) + plan_spec(base, all.skip(i as int), set_of_views(seen@)) == plan_spec(
                base,
                all,
                Set::empty(),
            ),
        decreases all.len() - i,
    {
        let item = &channel.items[i];
        let ghost rest = all.skip(i as int);
        let ghost cur_seen = set_of_views(seen@);
        proof {
            assert(rest[0] == all[i as int]);
            assert(rest.skip(1) =~= all.skip(i as int + 1));
        }
        let is_post = matches!(item.post_type, crate::model::PostType::Post);
        let is_published = matches!(item.status, crate::model::Status::Publish);
        if is_published && is_post {
            let path = generate_path(channel.base_site_url.as_str(), item.link.as_str());
            let dir = section_of_path(path.as_str());
            let ghost pre_out = views_of(out@);
            if !seen_contains(&seen, &dir) {
                let index_path = section_index_file(dir.as_str());
                let index_content = render_section_index();
                out.push(OutputFile { path: index_path, content: index_content });
                proof {
                    assert(views_of(out@) =~= pre_out + seq![
                        (section_index_path(section_of(resolve_spec(base, item.link@))),
                        section_index_content()),
                    ]);
                }
            }
            let ghost pre_seen = seen@;
            seen.push(dir);
            proof {
                lemma_set_of_views_push(pre_seen, seen@[pre_seen.len() as int]);
                assert(set_of_views(seen@) == cur_seen.insert(
                    section_of(resolve_spec(base, item.link@)),
                ));
            }
            let date = match rfc2822_to_rfc3339(item.pub_date.as_str()) {
                Some(d) => d,
                None => {
                    proof {
                        assert(all[i as int].renders() && !item_date_ok(all[i as int]));
                        assert(!dates_ok(all));
                    }
                    return Err(ConvertError::DateUnparseable);
                },
            };
            let normalized = normalize_line_breaks(item.content());
            let body = render_markdown(normalized.as_str());
            let (categories, tags) = split_taxonomies(&item.categories);
            let page = render_page(
                item.title.as_str(),
                date.as_str(),
                body.as_str(),
                &categories,
                &tags,
            );
            out.push(OutputFile { path, content: page });
            proof {
                let entries = item_entries(base, rest[0], cur_seen);
                assert(views_of(out@) =~= pre_out + entries);
            }
        }
        i = i + 1;
        proof {
            assert(views_of(out@) + plan_spec(base, all.skip(i as int), set_of_views(seen@))
                =~= plan_spec(base, all, Set::empty()));
        }
    }
    proof {
        assert(all.skip(all.len() as int) =~= Seq::<Item>::empty());
        assert(views_of(out@) =~= plan_spec(base, all, Set::empty()));
    }
    Ok(out)
}

} // verus!
