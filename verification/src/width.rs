//! Display-width estimation for strings that may carry ANSI color or style
//! escape sequences.
//!
//! A color sequence starts with the escape introducer `'\x1B'` and runs up to
//! and including the next `'m'`.  Stripping removes every such span; a
//! dangling introducer with no terminator is kept verbatim (lenient,
//! best-effort behavior).  The visible width of a string is the number of
//! grapheme clusters of the stripped text.

use vstd::prelude::*;
use vstd::string::StrSliceExecFns;
use vstd::string::StringExecFns;
use unicode_segmentation::UnicodeSegmentation;

verus! {

/// Index of the first `'m'` in `s`, or `-1` if `s` holds none.
pub open spec fn find_m(s: Seq<char>) -> int
    decreases s.len(),
{
    if s.len() == 0 {
        -1
    } else if s[0] == 'm' {
        0
    } else {
        let r = find_m(s.drop_first());
        if r < 0 {
            -1
        } else {
            r + 1
        }
    }
}

/// What `find_m` returns: either `-1` and no `'m'` occurs in `s`, or the
/// index of the first occurrence of `'m'`.
pub proof fn lemma_find_m(s: Seq<char>)
    ensures
        -1 <= find_m(s) < s.len(),
        find_m(s) == -1 ==> forall|k: int| 0 <= k < s.len() ==> s[k] != 'm',
        find_m(s) >= 0 ==> s[find_m(s)] == 'm',
        find_m(s) >= 0 ==> forall|k: int| 0 <= k < find_m(s) ==> s[k] != 'm',
    decreases s.len(),
{
    if s.len() == 0 {
    } else if s[0] == 'm' {
    } else {
        lemma_find_m(s.drop_first());
        assert forall|k: int| find_m(s) == -1 && 0 <= k < s.len() implies s[k] != 'm' by {
            if k > 0 {
                assert(s.drop_first()[k - 1] == s[k]);
            }
        }
        assert forall|k: int| find_m(s) >= 0 && 0 <= k < find_m(s) implies s[k] != 'm' by {
            if k > 0 {
                assert(s.drop_first()[k - 1] == s[k]);
            }
        }
    }
}

/// The first occurrence determines `find_m`: if `s[d]` is `'m'` and nothing
/// before it is, then `find_m(s) == d`.
pub proof fn lemma_find_m_at(s: Seq<char>, d: int)
    requires
        0 <= d < s.len(),
        s[d] == 'm',
        forall|k: int| 0 <= k < d ==> s[k] != 'm',
    ensures
        find_m(s) == d,
    decreases s.len(),
{
    if d == 0 {
    } else {
        assert forall|k: int| 0 <= k < d - 1 implies s.drop_first()[k] != 'm' by {
            assert(s.drop_first()[k] == s[k + 1]);
        }
        assert(s.drop_first()[d - 1] == s[d]);
        lemma_find_m_at(s.drop_first(), d - 1);
    }
}

/// The text of `s` with every escape sequence removed: a span from an
/// introducer `'\x1B'` through the next `'m'` (inclusive) is dropped; an
/// introducer with no following `'m'` halts stripping and the tail is kept
/// verbatim.
pub open spec fn strip_ansi(s: Seq<char>) -> Seq<char>
    decreases s.len(),
{
    if s.len() == 0 {
        Seq::empty()
    } else if s[0] == '\x1B' {
        let j = find_m(s);
        if 0 <= j < s.len() {
            strip_ansi(s.subrange(j + 1, s.len() as int))
        } else {
            s
        }
    } else {
        seq![s[0]] + strip_ansi(s.drop_first())
    }
}

/// Stripping a string with no escape introducer leaves it unchanged.
pub proof fn lemma_strip_no_escape(s: Seq<char>)
    requires
        forall|k: int| 0 <= k < s.len() ==> s[k] != '\x1B',
    ensures
        strip_ansi(s) == s,
    decreases s.len(),
{
    if s.len() == 0 {
        assert(strip_ansi(s) =~= s);
    } else {
        assert forall|k: int| 0 <= k < s.drop_first().len() implies s.drop_first()[k]
            != '\x1B' by {
            assert(s.drop_first()[k] == s[k + 1]);
        }
        lemma_strip_no_escape(s.drop_first());
        assert(strip_ansi(s) =~= s);
    }
}

/// The number of extended grapheme clusters of a string, as the Unicode
/// segmentation rules (UAX #29) give it.
pub uninterp spec fn grapheme_count(s: Seq<char>) -> nat;

/// Relies on unicode_segmentation's `UnicodeSegmentation::graphemes`: the
/// extended grapheme clusters of a string (UAX #29) depend on its characters
/// alone.  Every cluster is a non-empty run of characters and no cluster
/// boundary ever joins one space to another, so a string of spaces (or an
/// empty one) has exactly one cluster per character.
#[verifier::external_body]
fn count_graphemes(s: &str) -> (r: usize)
    ensures
        r == grapheme_count(s@),
        (forall|k: int| 0 <= k < s@.len() ==> s@[k] == ' ') ==> r == s@.len(),
{
    s.graphemes(true).count()
}

/// Returns `s` with every ANSI color/style escape sequence removed.
///
/// A sequence runs from the introducer `'\x1B'` through the next `'m'`,
/// inclusive.  An introducer with no terminating `'m'` halts stripping: the
/// rest of the string, dangling introducer included, is returned verbatim.
pub fn decolored(s: &str) -> (r: String)
    ensures
        r@ == strip_ansi(s@),
{
    let n = s.unicode_len();
    let mut out = String::new();
    let mut i: usize = 0;
    proof {
        assert(s@.subrange(0, n as int) =~= s@);
        assert(Seq::<char>::empty() + strip_ansi(s@) =~= strip_ansi(s@));
    }
    while i < n
        invariant
            n == s@.len(),
            i <= n,
            strip_ansi(s@) == out@ + strip_ansi(s@.subrange(i as int, n as int)),
        decreases n - i,
    {
        let ghost suffix = s@.subrange(i as int, n as int);
        let c = s.get_char(i);
        assert(suffix[0] == c);
        if c == '\x1B' {
            let mut j: usize = i;
            while j < n && s.get_char(j) != 'm'
                invariant
                    n == s@.len(),
                    i <= j <= n,
                    forall|k: int| i <= k < j ==> s@[k] != 'm',
                decreases n - j,
            {
                j = j + 1;
            }
            if j < n {
                // the span i ..= j is an escape sequence: drop it
                proof {
                    assert forall|k: int| 0 <= k < j - i implies suffix[k] != 'm' by {
                        assert(suffix[k] == s@[i + k]);
                    }
                    assert(suffix[j - i] == s@[j as int]);
                    lemma_find_m_at(suffix, j - i);
                    assert(suffix.subrange(j - i + 1, suffix.len() as int) =~= s@.subrange(
                        j + 1,
                        n as int,
                    ));
                }
                i = j + 1;
            } else {
                // no terminator: keep the dangling tail verbatim
                let tail = s.substring_char(i, n);
                proof {
                    lemma_find_m(suffix);
                    if find_m(suffix) >= 0 {
                        assert(suffix[find_m(suffix)] == s@[i + find_m(suffix)]);
                        assert(false);
                    }
                    assert(strip_ansi(suffix) == suffix);
                }
                out.append(tail);
                i = n;
            }
        } else {
            let piece = s.substring_char(i, i + 1);
            proof {
                assert(piece@ =~= seq![suffix[0]]);
                assert(suffix.drop_first() =~= s@.subrange(i + 1, n as int));
                assert((out@ + piece@) + strip_ansi(s@.subrange(i + 1, n as int)) =~= out@
                    + strip_ansi(suffix));
            }
            out.append(piece);
            i = i + 1;
        }
    }
    proof {
        assert(s@.subrange(n as int, n as int) =~= Seq::<char>::empty());
        assert(out@ + strip_ansi(s@.subrange(n as int, n as int)) =~= out@);
    }
    out
}

/// The visible width of `s`: the grapheme-cluster count of `s` once its
/// escape sequences are stripped.
pub open spec fn spec_visible_width(s: Seq<char>) -> nat {
    grapheme_count(strip_ansi(s))
}

/// Counts the visible grapheme clusters of `s`, excluding ANSI escape
/// sequences, for alignment padding.  When nothing but spaces is left after
/// stripping, the width is exactly their number.
pub fn visible_width(s: &str) -> (r: usize)
    ensures
        r == spec_visible_width(s@),
        (forall|k: int| 0 <= k < strip_ansi(s@).len() ==> strip_ansi(s@)[k] == ' ') ==> r
            == strip_ansi(s@).len(),
{
    let d = decolored(s);
    count_graphemes(d.as_str())
}

} // verus!
