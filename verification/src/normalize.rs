//! Line-break normalization of raw HTML bodies.
//!
//! HTML renderers collapse bare newlines into insignificant whitespace,
//! which loses the line breaks the author typed. Before rendering, every
//! line ending — Windows-style `\r\n`, old-Mac `\r`, or Unix `\n` — is
//! replaced by one explicit `<br>` element, so exactly one visual break
//! survives per logical line regardless of the source convention.

use vstd::prelude::*;
use vstd::string::StrSliceExecFns;
use vstd::string::StringExecFns;

verus! {

/// What normalization yields: each `\r\n` pair, lone `\r`, and lone `\n`
/// becomes the four characters `<br>`; everything else is kept.
pub open spec fn normalize_spec(s: Seq<char>) -> Seq<char>
    decreases s.len(),
{
    if s.len() == 0 {
        Seq::empty()
    } else if s[0] == '\r' && s.len() >= 2 && s[1] == '\n' {
        "<br>"@ + normalize_spec(s.skip(2))
    } else if s[0] == '\r' || s[0] == '\n' {
        "<br>"@ + normalize_spec(s.skip(1))
    } else {
        seq![s[0]] + normalize_spec(s.skip(1))
    }
}

/// Rewrites `content` so that its line breaks survive HTML-to-Markdown
/// conversion, per `normalize_spec`.
pub fn normalize_line_breaks(content: &str) -> (r: String)
    ensures
        r@ == normalize_spec(content@),
{
    let n = content.unicode_len();
    let mut out = String::new();
    let mut i: usize = 0;
    proof {
        assert(content@.skip(0) =~= content@);
        assert(out@ + normalize_spec(content@) =~= normalize_spec(content@));
    }
    while i < n
        invariant
            0 <= i <= n,
            n == content@.len(),
            normalize_spec(content@) == out@ + normalize_spec(content@.skip(i as int)),
        decreases n - i,
    {
        let c = content.get_char(i);
        let ghost rest = content@.skip(i as int);
        proof {
            assert(rest[0] == content@[i as int]);
        }
        if c == '\r' && i + 1 < n && content.get_char(i + 1) == '\n' {
            proof {
                assert(rest[1] == content@[i as int + 1]);
                assert(rest.skip(2) =~= content@.skip(i as int + 2));
                assert(normalize_spec(rest) == "<br>"@ + normalize_spec(rest.skip(2)));
            }
            out.append("<br>");
            i = i + 2;
        } else if c == '\r' || c == '\n' {
            proof {
                if rest.len() >= 2 && rest[0] == '\r' && rest[1] == '\n' {
                    assert(content@[i as int + 1] == '\n');
                    assert(false);
                }
                assert(rest.skip(1) =~= content@.skip(i as int + 1));
                assert(normalize_spec(rest) == "<br>"@ + normalize_spec(rest.skip(1)));
            }
            out.append("<br>");
            i = i + 1;
        } else {
            let piece = content.substring_char(i, i + 1);
            proof {
                assert(piece@ =~= seq![content@[i as int]]);
                assert(rest.skip(1) =~= content@.skip(i as int + 1));
                assert(normalize_spec(rest) == seq![rest[0]] + normalize_spec(rest.skip(1)));
            }
            out.append(piece);
            i = i + 1;
        }
        proof {
            assert(out@ + normalize_spec(content@.skip(i as int)) =~= normalize_spec(content@));
        }
    }
    proof {
        assert(content@.skip(n as int) =~= Seq::<char>::empty());
        assert(out@ =~= normalize_spec(content@));
    }
    out
}

} // verus!
