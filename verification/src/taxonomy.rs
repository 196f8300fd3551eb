//! Splitting an item's taxonomy terms into categories and tags.
//!
//! Each term is routed by its `domain`: `"category"` terms become
//! categories, `"post_tag"` terms become tags, and any other domain is
//! silently ignored. Source order is preserved and duplicates are kept.

use vstd::prelude::*;
use crate::model::Category;
use crate::strutil::str_eq;

verus! {

/// The slugs of the terms whose domain equals `domain`, in source order.
pub open spec fn terms_for(cats: Seq<Category>, domain: Seq<char>) -> Seq<Seq<char>>
    decreases cats.len(),
{
    if cats.len() == 0 {
        Seq::empty()
    } else if cats[0].domain@ == domain {
        seq![cats[0].nicename@] + terms_for(cats.skip(1), domain)
    } else {
        terms_for(cats.skip(1), domain)
    }
}

/// Splits a category list into `(categories, tags)` by taxonomy domain,
/// preserving order and duplicates.
pub fn split_taxonomies(cats: &Vec<Category>) -> (r: (Vec<String>, Vec<String>))
    ensures
        r.0.deep_view() == terms_for(cats@, "category"@),
        r.1.deep_view() == terms_for(cats@, "post_tag"@),
{
    let mut categories: Vec<String> = Vec::new();
    let mut tags: Vec<String> = Vec::new();
    let mut i: usize = 0;
    proof {
        reveal_strlit("post_tag");
        reveal_strlit("category");
        assert("post_tag"@[0] == 'p' && "category"@[0] == 'c');
        assert(cats@.skip(0) =~= cats@);
        assert(categories.deep_view() + terms_for(cats@, "category"@) =~= terms_for(
            cats@,
            "category"@,
        ));
        assert(tags.deep_view() + terms_for(cats@, "post_tag"@) =~= terms_for(
            cats@,
            "post_tag"@,
        ));
    }
    while i < cats.len()
        invariant
            0 <= i <= cats@.len(),
            categories.deep_view() + terms_for(cats@.skip(i as int), "category"@) == terms_for(
                cats@,
                "category"@,
            ),
            tags.deep_view() + terms_for(cats@.skip(i as int), "post_tag"@) == terms_for(
                cats@,
                "post_tag"@,
            ),
        decreases cats@.len() - i,
    {
        let ghost rest = cats@.skip(i as int);
        proof {
            assert(rest[0] == cats@[i as int]);
            assert(rest.skip(1) =~= cats@.skip(i as int + 1));
        }
        let ghost pre_tags = tags.deep_view();
        let ghost pre_categories = categories.deep_view();
        let c = &cats[i];
        if str_eq(c.domain.as_str(), "post_tag") {
            tags.push(c.nicename.clone());
            proof {
                assert(tags.deep_view() =~= pre_tags + seq![c.nicename@]);
            }
        } else if str_eq(c.domain.as_str(), "category") {
            categories.push(c.nicename.clone());
            proof {
                assert(categories.deep_view() =~= pre_categories + seq![c.nicename@]);
            }
        }
        i = i + 1;
        proof {
            reveal_strlit("post_tag");
            reveal_strlit("category");
            assert("post_tag"@[0] == 'p' && "category"@[0] == 'c');
            assert(categories.deep_view() + terms_for(cats@.skip(i as int), "category"@)
                =~= terms_for(cats@, "category"@));
            assert(tags.deep_view() + terms_for(cats@.skip(i as int), "post_tag"@) =~= terms_for(
                cats@,
                "post_tag"@,
            ));
        }
    }
    proof {
        assert(cats@.skip(cats@.len() as int) =~= Seq::<Category>::empty());
        assert(categories.deep_view() =~= terms_for(cats@, "category"@));
        assert(tags.deep_view() =~= terms_for(cats@, "post_tag"@));
    }
    (categories, tags)
}

} // verus!
