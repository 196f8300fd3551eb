//! Synthesis of the TOML-like front matter that heads every output file.
//!
//! A page file carries a front-matter block with the escaped title, the
//! RFC 3339 date, and a `[taxonomies]` sub-table, followed by the
//! rendered Markdown body. A section-index file carries a fixed
//! front-matter-only body.

use vstd::prelude::*;
use vstd::string::StrSliceExecFns;
use vstd::string::StringExecFns;

verus! {

/// The title with every `"` turned into `\"`; nothing else is escaped.
pub open spec fn escape_quotes_spec(s: Seq<char>) -> Seq<char>
    decreases s.len(),
{
    if s.len() == 0 {
        Seq::empty()
    } else if s[0] == '"' {
        "\\\""@ + escape_quotes_spec(s.skip(1))
    } else {
        seq![s[0]] + escape_quotes_spec(s.skip(1))
    }
}

/// Each term quoted, the first without a separator.
pub open spec fn quoted_list_spec(terms: Seq<Seq<char>>) -> Seq<char>
    decreases terms.len(),
{
    if terms.len() == 0 {
        Seq::empty()
    } else {
        "\""@ + terms[0] + "\""@ + quoted_rest_spec(terms.skip(1))
    }
}

/// Each term quoted and preceded by the `, ` separator.
pub open spec fn quoted_rest_spec(terms: Seq<Seq<char>>) -> Seq<char>
    decreases terms.len(),
{
    if terms.len() == 0 {
        Seq::empty()
    } else {
        ", "@ + "\""@ + terms[0] + "\""@ + quoted_rest_spec(terms.skip(1))
    }
}

/// The complete text of a page file: front-matter block, then the
/// Markdown body, then a final newline.
pub open spec fn page_file_spec(
    title: Seq<char>,
    date_rfc3339: Seq<char>,
    markdown: Seq<char>,
    categories: Seq<Seq<char>>,
    tags: Seq<Seq<char>>,
) -> Seq<char> {
    "+++\ntitle = \""@ + escape_quotes_spec(title) + "\"\ndate = "@ + date_rfc3339
        + "\n[taxonomies]\ncategories = ["@ + quoted_list_spec(categories) + "]\ntags = ["@
        + quoted_list_spec(tags) + "]\n+++\n"@ + markdown + "\n"@
}

/// The fixed text of a section-index file: transparent, sorted by date,
/// paginated five posts at a time.
pub open spec fn section_index_content() -> Seq<char> {
    "+++\ntransparent = true\nsort_by = \"date\"\npaginate_by = 5\n+++\n"@
}

/// Escapes double quotes in a title, per `escape_quotes_spec`.
pub fn escape_quotes(s: &str) -> (r: String)
    ensures
        r@ == escape_quotes_spec(s@),
{
    let n = s.unicode_len();
    let mut out = String::new();
    let mut i: usize = 0;
    proof {
        assert(s@.skip(0) =~= s@);
        assert(out@ + escape_quotes_spec(s@) =~= escape_quotes_spec(s@));
    }
    while i < n
        invariant
            0 <= i <= n,
            n == s@.len(),
            escape_quotes_spec(s@) == out@ + escape_quotes_spec(s@.skip(i as int)),
        decreases n - i,
    {
        let ghost rest = s@.skip(i as int);
        proof {
            assert(rest[0] == s@[i as int]);
            assert(rest.skip(1) =~= s@.skip(i as int + 1));
        }
        let c = s.get_char(i);
        if c == '"' {
            out.append("\\\"");
        } else {
            let piece = s.substring_char(i, i + 1);
            proof {
                assert(piece@ =~= seq![s@[i as int]]);
            }
            out.append(piece);
        }
        i = i + 1;
        proof {
            assert(out@ + escape_quotes_spec(s@.skip(i as int)) =~= escape_quotes_spec(s@));
        }
    }
    proof {
        assert(s@.skip(n as int) =~= Seq::<char>::empty());
        assert(out@ =~= escape_quotes_spec(s@));
    }
    out
}

/// Renders a term list as a quoted, comma-separated inline array body,
/// per `quoted_list_spec`.
pub fn quoted_list(terms: &Vec<String>) -> (r: String)
    ensures
        r@ == quoted_list_spec(terms.deep_view()),
{
    let mut out = String::new();
    let mut i: usize = 0;
    if terms.len() == 0 {
        return out;
    }
    proof {
        assert(terms.deep_view().skip(0) =~= terms.deep_view());
    }
    while i < terms.len()
        invariant
            0 <= i <= terms@.len(),
            terms.deep_view().len() == terms@.len(),
            quoted_list_spec(terms.deep_view()) == out@ + if i == 0 {
                quoted_list_spec(terms.deep_view())
            } else {
                quoted_rest_spec(terms.deep_view().skip(i as int))
            },
        decreases terms@.len() - i,
    {
        let ghost dv = terms.deep_view();
        let ghost rest = dv.skip(i as int);
        proof {
            assert(rest[0] == dv[i as int]);
            assert(rest.skip(1) =~= dv.skip(i as int + 1));
        }
        if i > 0 {
            out.append(", ");
        }
        out.append("\"");
        out.append(terms[i].as_str());
        out.append("\"");
        i = i + 1;
        proof {
            if i == terms@.len() {
                assert(dv.skip(i as int) =~= Seq::<Seq<char>>::empty());
            }
            assert(out@ + quoted_rest_spec(dv.skip(i as int)) =~= quoted_list_spec(dv));
        }
    }
    proof {
        assert(terms.deep_view().skip(terms@.len() as int) =~= Seq::<Seq<char>>::empty());
        assert(out@ =~= quoted_list_spec(terms.deep_view()));
    }
    out
}

/// Assembles the full text of a page file from its already-computed
/// parts, per `page_file_spec`.
pub fn render_page(
    title: &str,
    date_rfc3339: &str,
    markdown: &str,
    categories: &Vec<String>,
    tags: &Vec<String>,
) -> (r: String)
    ensures
        r@ == page_file_spec(
            title@,
            date_rfc3339@,
            markdown@,
            categories.deep_view(),
            tags.deep_view(),
        ),
{
    let mut out = String::from_str("+++\ntitle = \"");
    let escaped = escape_quotes(title);
    out.append(escaped.as_str());
    out.append("\"\ndate = ");
    out.append(date_rfc3339);
    out.append("\n[taxonomies]\ncategories = [");
    let cats = quoted_list(categories);
    out.append(cats.as_str());
    out.append("]\ntags = [");
    let tag_list = quoted_list(tags);
    out.append(tag_list.as_str());
    out.append("]\n+++\n");
    out.append(markdown);
    out.append("\n");
    out
}

/// The fixed text of a section-index file, per `section_index_content`.
pub fn render_section_index() -> (r: String)
    ensures
        r@ == section_index_content(),
{
    String::from_str("+++\ntransparent = true\nsort_by = \"date\"\npaginate_by = 5\n+++\n")
}

} // verus!
