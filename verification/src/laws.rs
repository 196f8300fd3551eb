//! Run-level guarantees of the pipeline, stated over `plan_spec`.

use vstd::prelude::*;
use crate::model::Item;
use crate::paths::{resolve_spec, section_of, section_index_path};
use crate::front_matter::section_index_content;
use crate::pipeline::{plan_spec, item_entries, seen_after, page_content_of};

verus! {

/// The sub-list of the items that are rendered: published posts, in
/// document order.
pub open spec fn rendered_only(items: Seq<Item>) -> Seq<Item>
    decreases items.len(),
{
    if items.len() == 0 {
        items
    } else if items[0].renders() {
        seq![items[0]] + rendered_only(items.skip(1))
    } else {
        rendered_only(items.skip(1))
    }
}

/// Only published posts produce output: the plan of an item list equals
/// the plan of its rendered sub-list, so an item with a status other
/// than `Publish`, or with post type `Attachment`, contributes no file.
pub proof fn lemma_only_rendered_items_produce_files(
    base: Seq<char>,
    items: Seq<Item>,
    seen: Set<Seq<char>>,
)
    ensures
        plan_spec(base, items, seen) == plan_spec(base, rendered_only(items), seen),
    decreases items.len(),
{
    if items.len() == 0 {
    } else if items[0].renders() {
        let r = rendered_only(items);
        assert(r[0] == items[0]);
        assert(r.skip(1) =~= rendered_only(items.skip(1)));
        lemma_only_rendered_items_produce_files(
            base,
            items.skip(1),
            seen_after(base, items[0], seen),
        );
    } else {
        lemma_only_rendered_items_produce_files(base, items.skip(1), seen);
        assert(plan_spec(base, items, seen) =~= plan_spec(base, items.skip(1), seen));
    }
}

/// A channel in which nothing is rendered produces no file at all.
pub proof fn lemma_nothing_rendered_no_output(base: Seq<char>, items: Seq<Item>, seen: Set<Seq<char>>)
    requires
        forall|i: int| 0 <= i < items.len() ==> !(#[trigger] items[i]).renders(),
    ensures
        plan_spec(base, items, seen) == Seq::<(Seq<char>, Seq<char>)>::empty(),
    decreases items.len(),
{
    if items.len() > 0 {
        lemma_nothing_rendered_no_output(base, items.skip(1), seen);
        assert(plan_spec(base, items, seen) =~= plan_spec(base, items.skip(1), seen));
    }
}

/// Every rendered item has its page in the plan, at the path resolved
/// from the base URL and its own permalink alone — wherever the item
/// stands in the list and whatever directories came before.
pub proof fn lemma_each_rendered_item_planned(
    base: Seq<char>,
    items: Seq<Item>,
    seen: Set<Seq<char>>,
    i: int,
)
    requires
        0 <= i < items.len(),
        items[i].renders(),
    ensures
        plan_spec(base, items, seen).contains(
            (resolve_spec(base, items[i].link@), page_content_of(items[i])),
        ),
    decreases i,
{
    let e = item_entries(base, items[0], seen);
    let p = plan_spec(base, items.skip(1), seen_after(base, items[0], seen));
    assert(plan_spec(base, items, seen) == e + p);
    if i == 0 {
        let page = (resolve_spec(base, items[0].link@), page_content_of(
            items[0],
        ));
        assert(e[e.len() - 1] == page);
        assert((e + p)[e.len() - 1] == page);
    } else {
        let tail = items.skip(1);
        assert(tail[i - 1] == items[i]);
        lemma_each_rendered_item_planned(base, tail, seen_after(base, items[0], seen), i - 1);
        let page = (resolve_spec(base, tail[i - 1].link@), page_content_of(
            tail[i - 1],
        ));
        let k = choose|k: int| 0 <= k < p.len() && p[k] == page;
        assert((e + p)[e.len() + k] == page);
    }
}

/// The plan entries that stand at a directory's section-index path.
pub open spec fn index_entries(plan: Seq<(Seq<char>, Seq<char>)>, dir: Seq<char>) -> Seq<
    (Seq<char>, Seq<char>),
> {
    plan.filter(|e: (Seq<char>, Seq<char>)| e.0 == section_index_path(dir))
}

/// Some rendered item resolves into the directory `dir`.
pub open spec fn some_item_in_section(base: Seq<char>, items: Seq<Item>, dir: Seq<char>) -> bool {
    exists|i: int|
        0 <= i < items.len() && (#[trigger] items[i]).renders() && section_of(
            resolve_spec(base, items[i].link@),
        ) == dir
}

/// No rendered item's page path coincides with the section-index path
/// of `dir` itself (a post slugged `_index` could collide with it).
pub open spec fn no_page_at_index_path(base: Seq<char>, items: Seq<Item>, dir: Seq<char>) -> bool {
    forall|i: int|
        0 <= i < items.len() && (#[trigger] items[i]).renders() ==> resolve_spec(
            base,
            items[i].link@,
        ) != section_index_path(dir)
}

proof fn lemma_section_index_once_aux(
    base: Seq<char>,
    items: Seq<Item>,
    seen: Set<Seq<char>>,
    dir: Seq<char>,
)
    requires
        no_page_at_index_path(base, items, dir),
    ensures
        index_entries(plan_spec(base, items, seen), dir).len() == if seen.contains(dir) {
            0int
        } else if some_item_in_section(base, items, dir) {
            1int
        } else {
            0int
        },
        forall|k: int|
            0 <= k < index_entries(plan_spec(base, items, seen), dir).len() ==> index_entries(
                plan_spec(base, items, seen),
                dir,
            )[k].1 == section_index_content(),
    decreases items.len(),
{
    reveal_with_fuel(Seq::filter, 4);
    let pred = |e: (Seq<char>, Seq<char>)| e.0 == section_index_path(dir);
    if items.len() == 0 {
        assert(plan_spec(base, items, seen) == Seq::<(Seq<char>, Seq<char>)>::empty());
        assert(index_entries(plan_spec(base, items, seen), dir).len() == 0);
    } else {
        let head = items[0];
        let tail = items.skip(1);
        let seen2 = seen_after(base, head, seen);
        let e = item_entries(base, head, seen);
        let p = plan_spec(base, tail, seen2);
        assert(plan_spec(base, items, seen) == e + p);
        assert forall|i: int| 0 <= i < tail.len() && (#[trigger] tail[i]).renders() implies
            resolve_spec(base, tail[i].link@) != section_index_path(dir) by {
            assert(tail[i] == items[i + 1]);
        }
        lemma_section_index_once_aux(base, tail, seen2, dir);
        Seq::filter_distributes_over_add(e, p, pred);
        let fe = e.filter(pred);
        let fp = p.filter(pred);
        assert(index_entries(plan_spec(base, items, seen), dir) == fe + fp);
        if head.renders() {
            let path = resolve_spec(base, head.link@);
            let d2 = section_of(path);
            assert(path != section_index_path(dir));
            if seen.contains(d2) {
                assert(e =~= seq![(path, page_content_of(head))]);
                assert(fe =~= Seq::<(Seq<char>, Seq<char>)>::empty());
                assert(seen2 == seen);
                if d2 == dir {
                    assert(seen.contains(dir));
                } else {
                    lemma_some_item_shift(base, items, dir);
                }
            } else {
                if d2 == dir {
                    assert(e =~= seq![
                        (section_index_path(dir), section_index_content()),
                        (path, page_content_of(head)),
                    ]);
                    assert(fe =~= seq![(section_index_path(dir), section_index_content())]);
                    assert(seen2.contains(dir));
                    assert(some_item_in_section(base, items, dir));
                    assert((fe + fp).len() == 1);
                } else {
                    lemma_index_path_injective(d2, dir);
                    assert(e =~= seq![
                        (section_index_path(d2), section_index_content()),
                        (path, page_content_of(head)),
                    ]);
                    assert(fe =~= Seq::<(Seq<char>, Seq<char>)>::empty());
                    assert(seen2.contains(dir) == seen.contains(dir));
                    lemma_some_item_shift(base, items, dir);
                }
            }
        } else {
            assert(e == Seq::<(Seq<char>, Seq<char>)>::empty());
            assert(fe =~= Seq::<(Seq<char>, Seq<char>)>::empty());
            assert(seen2 == seen);
            lemma_some_item_shift(base, items, dir);
        }
        assert forall|k: int| 0 <= k < (fe + fp).len() implies (fe + fp)[k].1
            == section_index_content() by {
            if k >= fe.len() {
                assert((fe + fp)[k] == fp[k - fe.len()]);
            }
        }
    }
}

/// Whether some rendered item of the tail resolves into `dir` carries
/// over to the whole list, except through the head item itself.
proof fn lemma_some_item_shift(base: Seq<char>, items: Seq<Item>, dir: Seq<char>)
    requires
        items.len() > 0,
        items[0].renders() ==> section_of(resolve_spec(base, items[0].link@)) != dir,
    ensures
        some_item_in_section(base, items, dir) == some_item_in_section(base, items.skip(1), dir),
{
    let tail = items.skip(1);
    if some_item_in_section(base, items, dir) {
        let i = choose|i: int|
            0 <= i < items.len() && (#[trigger] items[i]).renders() && section_of(
                resolve_spec(base, items[i].link@),
            ) == dir;
        assert(i != 0);
        assert(tail[i - 1] == items[i]);
        assert(some_item_in_section(base, tail, dir));
    }
    if some_item_in_section(base, tail, dir) {
        let j = choose|j: int|
            0 <= j < tail.len() && (#[trigger] tail[j]).renders() && section_of(
                resolve_spec(base, tail[j].link@),
            ) == dir;
        assert(items[j + 1] == tail[j]);
        assert(some_item_in_section(base, items, dir));
    }
}

/// Distinct directories have distinct section-index paths.
proof fn lemma_index_path_injective(d1: Seq<char>, d2: Seq<char>)
    requires
        d1 != d2,
    ensures
        section_index_path(d1) != section_index_path(d2),
{
    reveal_strlit("_index.md");
    reveal_strlit("/");
    assert("_index.md"@.len() == 9);
    assert("/"@.len() == 1);
    if d1.len() == 0 && d2.len() == 0 {
        assert(d1 =~= d2);
    } else if d1.len() == 0 || d2.len() == 0 {
        assert(section_index_path(d1).len() != section_index_path(d2).len());
    } else {
        assert(section_index_path(d1).len() == d1.len() + 10);
        assert(section_index_path(d2).len() == d2.len() + 10);
        if section_index_path(d1) == section_index_path(d2) {
            assert(d1.len() == d2.len());
            assert(d1 =~= d2) by {
                assert forall|j: int| 0 <= j < d1.len() implies d1[j] == d2[j] by {
                    assert(section_index_path(d1)[j] == d1[j]);
                    assert(section_index_path(d2)[j] == d2[j]);
                }
            }
        }
    }
}

/// However many rendered items fall under one directory, its
/// section-index file is planned exactly once, always with the same
/// fixed content — and not at all when no rendered item falls under it.
pub proof fn lemma_section_index_written_once(base: Seq<char>, items: Seq<Item>, dir: Seq<char>)
    requires
        no_page_at_index_path(base, items, dir),
    ensures
        index_entries(plan_spec(base, items, Set::empty()), dir).len()
            == if some_item_in_section(base, items, dir) {
            1int
        } else {
            0int
        },
        forall|k: int|
            0 <= k < index_entries(plan_spec(base, items, Set::empty()), dir).len()
                ==> index_entries(plan_spec(base, items, Set::empty()), dir)[k].1
                == section_index_content(),
{
    lemma_section_index_once_aux(base, items, Set::empty(), dir);
}

} // verus!
