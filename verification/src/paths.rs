//! Derivation of output file paths from post permalinks.
//!
//! A post's path is its permalink with the channel's base URL removed
//! (only when it is an exact prefix), leading and trailing `/` stripped,
//! and `.md` appended. The post's section is the parent directory of
//! that path, and each section receives an `_index.md` file.

use vstd::prelude::*;
use vstd::string::StrSliceExecFns;
use vstd::string::StringExecFns;
use crate::strutil::is_prefix_of;
use crate::strutil::starts_with_chars;

verus! {

/// The permalink with the base URL removed, when the base URL is an
/// exact prefix; the permalink unchanged otherwise.
pub open spec fn strip_base(base: Seq<char>, link: Seq<char>) -> Seq<char> {
    if is_prefix_of(base, link) {
        link.skip(base.len() as int)
    } else {
        link
    }
}

/// Drops every leading `/`.
pub open spec fn trim_leading(s: Seq<char>) -> Seq<char>
    decreases s.len(),
{
    if s.len() > 0 && s[0] == '/' {
        trim_leading(s.skip(1))
    } else {
        s
    }
}

/// Drops every trailing `/`.
pub open spec fn trim_trailing(s: Seq<char>) -> Seq<char>
    decreases s.len(),
{
    if s.len() > 0 && s[s.len() - 1] == '/' {
        trim_trailing(s.take(s.len() - 1))
    } else {
        s
    }
}

/// The output path of a post: base URL stripped once, slashes trimmed
/// at both ends, `.md` appended.
pub open spec fn resolve_spec(base: Seq<char>, link: Seq<char>) -> Seq<char> {
    trim_trailing(trim_leading(strip_base(base, link))) + ".md"@
}

/// The parent directory of a `/`-delimited path: everything before the
/// last `/`, or the empty path when there is none.
pub open spec fn section_of(p: Seq<char>) -> Seq<char>
    decreases p.len(),
{
    if p.len() == 0 {
        Seq::empty()
    } else if p[p.len() - 1] == '/' {
        p.take(p.len() - 1)
    } else {
        section_of(p.take(p.len() - 1))
    }
}

/// The section-index file of a directory: `_index.md` directly inside it.
pub open spec fn section_index_path(dir: Seq<char>) -> Seq<char> {
    if dir.len() == 0 {
        "_index.md"@
    } else {
        dir + "/"@ + "_index.md"@
    }
}

proof fn lemma_trim_leading_at(s: Seq<char>, lo: int)
    requires
        0 <= lo <= s.len(),
        forall|j: int| 0 <= j < lo ==> s[j] == '/',
        lo == s.len() || s[lo] != '/',
    ensures
        trim_leading(s) == s.skip(lo),
    decreases lo,
{
    if lo == 0 {
        assert(s.skip(0) =~= s);
    } else {
        assert(s[0] == '/');
        lemma_trim_leading_at(s.skip(1), lo - 1);
        assert(s.skip(1).skip(lo - 1) =~= s.skip(lo));
    }
}

proof fn lemma_trim_trailing_at(s: Seq<char>, hi: int)
    requires
        0 <= hi <= s.len(),
        forall|j: int| hi <= j < s.len() ==> s[j] == '/',
        hi == 0 || s[hi - 1] != '/',
    ensures
        trim_trailing(s) == s.take(hi),
    decreases s.len(),
{
    if hi == s.len() {
        assert(s.take(hi) =~= s);
    } else {
        assert(s[s.len() - 1] == '/');
        lemma_trim_trailing_at(s.take(s.len() - 1), hi);
    }
}

proof fn lemma_trim_both(s: Seq<char>, lo: int, hi: int)
    requires
        0 <= lo <= hi <= s.len(),
        forall|j: int| 0 <= j < lo ==> s[j] == '/',
        forall|j: int| hi <= j < s.len() ==> s[j] == '/',
        lo == s.len() || s[lo] != '/',
        hi == lo || s[hi - 1] != '/',
    ensures
        trim_trailing(trim_leading(s)) == s.subrange(lo, hi),
    decreases s.len(),
{
    lemma_trim_leading_at(s, lo);
    let t = s.skip(lo);
    assert forall|j: int| hi - lo <= j < t.len() implies t[j] == '/' by {
        assert(t[j] == s[j + lo]);
    }
    lemma_trim_trailing_at(t, hi - lo);
    assert(t.take(hi - lo) =~= s.subrange(lo, hi));
}

/// Derives the output path for a post from the channel's base URL and
/// the post's permalink, per `resolve_spec`.
pub fn generate_path(base_url: &str, link: &str) -> (r: String)
    ensures
        r@ == resolve_spec(base_url@, link@),
{
    let has_prefix = starts_with_chars(link, base_url);
    let rest: &str = if has_prefix {
        link.substring_char(base_url.unicode_len(), link.unicode_len())
    } else {
        link
    };
    proof {
        assert(link@.subrange(base_url@.len() as int, link@.len() as int) =~= link@.skip(
            base_url@.len() as int,
        ));
        assert(rest@ == strip_base(base_url@, link@));
    }
    let n = rest.unicode_len();
    let mut lo: usize = 0;
    while lo < n && rest.get_char(lo) == '/'
        invariant
            0 <= lo <= n,
            n == rest@.len(),
            forall|j: int| 0 <= j < lo ==> rest@[j] == '/',
        decreases n - lo,
    {
        lo = lo + 1;
    }
    let mut hi: usize = n;
    while hi > lo && rest.get_char(hi - 1) == '/'
        invariant
            lo <= hi <= n,
            n == rest@.len(),
            forall|j: int| hi <= j < n ==> rest@[j] == '/',
        decreases hi,
    {
        hi = hi - 1;
    }
    let core = rest.substring_char(lo, hi);
    let mut out = String::from_str(core);
    out.append(".md");
    proof {
        lemma_trim_both(rest@, lo as int, hi as int);
    }
    out
}

/// The parent directory of an output path, per `section_of`.
pub fn section_of_path(p: &str) -> (r: String)
    ensures
        r@ == section_of(p@),
{
    let n = p.unicode_len();
    let mut i: usize = n;
    while i > 0 && p.get_char(i - 1) != '/'
        invariant
            0 <= i <= n,
            n == p@.len(),
            forall|j: int| i <= j < n ==> p@[j] != '/',
        decreases i,
    {
        i = i - 1;
    }
    proof {
        lemma_section_at(p@, i as int);
    }
    if i == 0 {
        String::new()
    } else {
        let dir = p.substring_char(0, i - 1);
        proof {
            assert(dir@ =~= p@.take(i - 1));
        }
        String::from_str(dir)
    }
}

proof fn lemma_section_at(p: Seq<char>, i: int)
    requires
        0 <= i <= p.len(),
        forall|j: int| i <= j < p.len() ==> p[j] != '/',
        i == 0 || p[i - 1] == '/',
    ensures
        section_of(p) == if i == 0 {
            Seq::<char>::empty()
        } else {
            p.take(i - 1)
        },
    decreases p.len(),
{
    if p.len() == 0 {
    } else if p[p.len() - 1] == '/' {
        assert(i == p.len());
    } else {
        assert(i < p.len());
        let q = p.take(p.len() - 1);
        assert forall|j: int| i <= j < q.len() implies q[j] != '/' by {
            assert(q[j] == p[j]);
        }
        lemma_section_at(q, i);
        if i != 0 {
            assert(q.take(i - 1) =~= p.take(i - 1));
        }
    }
}

/// The section-index path of a directory, per `section_index_path`.
pub fn section_index_file(dir: &str) -> (r: String)
    ensures
        r@ == section_index_path(dir@),
{
    if dir.unicode_len() == 0 {
        let r = String::from_str("_index.md");
        proof {
            assert(dir@ =~= Seq::<char>::empty());
        }
        r
    } else {
        let mut out = String::from_str(dir);
        out.append("/");
        out.append("_index.md");
        out
    }
}

/// A permalink that the base URL does not prefix resolves from the
/// unmodified permalink: slashes are still trimmed and `.md` appended,
/// but nothing is removed at the front.
pub proof fn lemma_foreign_link_keeps_path(base: Seq<char>, link: Seq<char>)
    requires
        !is_prefix_of(base, link),
    ensures
        resolve_spec(base, link) == trim_trailing(trim_leading(link)) + ".md"@,
{
}

} // verus!
