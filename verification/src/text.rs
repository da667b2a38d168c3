//! Character classification and line splitting shared by the manifest
//! parser and the installed-package set.

use vstd::prelude::*;
use vstd::string::*;

verus! {

/// The Unicode `White_Space` characters, the set `char::is_whitespace`
/// recognizes.
pub open spec fn is_space(c: char) -> bool {
    c == ' ' || c == '\t' || c == '\n' || c == '\r' || c == '\u{b}' || c == '\u{c}'
        || c == '\u{85}' || c == '\u{a0}' || c == '\u{1680}' || c == '\u{2000}'
        || c == '\u{2001}' || c == '\u{2002}' || c == '\u{2003}' || c == '\u{2004}'
        || c == '\u{2005}' || c == '\u{2006}' || c == '\u{2007}' || c == '\u{2008}'
        || c == '\u{2009}' || c == '\u{200a}' || c == '\u{2028}' || c == '\u{2029}'
        || c == '\u{202f}' || c == '\u{205f}' || c == '\u{3000}'
}

/// A character that ends the meaningful part of a manifest line:
/// the comment marker or a line terminator.
pub open spec fn is_stop(c: char) -> bool {
    c == '#' || c == '\n' || c == '\r'
}

/// Every character of `s` is whitespace (vacuously true of an empty line).
pub open spec fn all_space(s: Seq<char>) -> bool {
    forall|i: int| 0 <= i < s.len() ==> is_space(#[trigger] s[i])
}

pub fn is_space_char(c: char) -> (r: bool)
    ensures
        r == is_space(c),
{
    c == ' ' || c == '\t' || c == '\n' || c == '\r' || c == '\u{b}' || c == '\u{c}'
        || c == '\u{85}' || c == '\u{a0}' || c == '\u{1680}' || c == '\u{2000}'
        || c == '\u{2001}' || c == '\u{2002}' || c == '\u{2003}' || c == '\u{2004}'
        || c == '\u{2005}' || c == '\u{2006}' || c == '\u{2007}' || c == '\u{2008}'
        || c == '\u{2009}' || c == '\u{200a}' || c == '\u{2028}' || c == '\u{2029}'
        || c == '\u{202f}' || c == '\u{205f}' || c == '\u{3000}'
}

pub fn is_stop_char(c: char) -> (r: bool)
    ensures
        r == is_stop(c),
{
    c == '#' || c == '\n' || c == '\r'
}

/// The character classes a scan can look for.
pub enum ScanPred {
    /// A comment marker or line terminator.
    Stop,
    /// Any non-whitespace character.
    NonSpace,
    /// Any whitespace character.
    Space,
    /// A line feed.
    Newline,
}

pub open spec fn pred_holds(p: ScanPred, c: char) -> bool {
    match p {
        ScanPred::Stop => is_stop(c),
        ScanPred::NonSpace => !is_space(c),
        ScanPred::Space => is_space(c),
        ScanPred::Newline => c == '\n',
    }
}

/// The least index at or after `i` whose character satisfies `p`,
/// or `s.len()` if none does.
pub open spec fn scan(s: Seq<char>, i: int, p: ScanPred) -> int
    decreases s.len() - i,
{
    if i < 0 || i >= s.len() {
        s.len() as int
    } else if pred_holds(p, s[i]) {
        i
    } else {
        scan(s, i + 1, p)
    }
}

/// What `scan` returns: an index within bounds, pointing at the first
/// match, with no match before it.
pub proof fn lemma_scan_bounds(s: Seq<char>, i: int, p: ScanPred)
    requires
        0 <= i <= s.len(),
    ensures
        i <= scan(s, i, p) <= s.len(),
        forall|j: int| i <= j < scan(s, i, p) ==> !pred_holds(p, #[trigger] s[j]),
        scan(s, i, p) < s.len() ==> pred_holds(p, s[scan(s, i, p)]),
    decreases s.len() - i,
{
    if i < s.len() && !pred_holds(p, s[i]) {
        lemma_scan_bounds(s, i + 1, p);
    }
}

/// An index that looks like a first match is the one `scan` returns.
pub proof fn lemma_scan_is(s: Seq<char>, i: int, k: int, p: ScanPred)
    requires
        0 <= i <= k <= s.len(),
        forall|j: int| i <= j < k ==> !pred_holds(p, #[trigger] s[j]),
        k < s.len() ==> pred_holds(p, s[k]),
    ensures
        scan(s, i, p) == k,
    decreases k - i,
{
    if i < k {
        lemma_scan_is(s, i + 1, k, p);
    }
}

/// Scanning a suffix finds the same match, shifted.
pub proof fn lemma_scan_skip(s: Seq<char>, d: int, p: ScanPred)
    requires
        0 <= d <= s.len(),
    ensures
        scan(s.skip(d), 0, p) == scan(s, d, p) - d,
{
    let k = scan(s, d, p);
    lemma_scan_bounds(s, d, p);
    let t = s.skip(d);
    assert forall|j: int| 0 <= j < k - d implies !pred_holds(p, #[trigger] t[j]) by {
        assert(t[j] == s[d + j]);
    }
    if k < s.len() {
        assert(t[k - d] == s[k]);
    }
    lemma_scan_is(t, 0, k - d, p);
}

/// The lines of `s`: maximal runs separated by `'\n'`, the separator
/// dropped.  Content after the final separator forms a last line only
/// if it is non-empty, so `"a\n"` is one line, `"a\nb"` is two.
pub open spec fn spec_lines(s: Seq<char>) -> Seq<Seq<char>>
    decreases s.len(),
{
    if s.len() == 0 {
        Seq::empty()
    } else {
        let i = scan(s, 0, ScanPred::Newline);
        if 0 <= i && i < s.len() {
            seq![s.take(i)] + spec_lines(s.skip(i + 1))
        } else {
            seq![s]
        }
    }
}

/// Split `s` into lines as `spec_lines` describes them.
pub fn split_lines(s: &str) -> (r: Vec<String>)
    ensures
        r.deep_view() == spec_lines(s@),
{
    let n = s.unicode_len();
    let mut out: Vec<String> = Vec::new();
    let mut start: usize = 0;
    proof {
        assert(s@.skip(0) =~= s@);
    }
    while start < n
        invariant
            start <= n,
            n == s@.len(),
            spec_lines(s@) == out.deep_view() + spec_lines(s@.skip(start as int)),
        decreases n - start,
    {
        let mut i = start;
        while i < n && !is_stop_char_newline(s.get_char(i))
            invariant
                start <= i <= n,
                n == s@.len(),
                forall|j: int| start <= j < i ==> !pred_holds(ScanPred::Newline, #[trigger] s@[j]),
            decreases n - i,
        {
            i += 1;
        }
        proof {
            lemma_scan_is(s@, start as int, i as int, ScanPred::Newline);
            lemma_scan_skip(s@, start as int, ScanPred::Newline);
        }
        let ghost rest = s@.skip(start as int);
        proof {
            assert(scan(rest, 0, ScanPred::Newline) == i - start);
            assert(rest.take(i - start) =~= s@.subrange(start as int, i as int));
        }
        let line = s.substring_char(start, i).to_owned();
        let ghost prev = out.deep_view();
        out.push(line);
        proof {
            assert(out.deep_view() =~= prev.push(line@));
        }
        if i < n {
            proof {
                assert(rest.skip(i - start + 1) =~= s@.skip(i as int + 1));
                assert(spec_lines(rest) == seq![line@] + spec_lines(s@.skip(i as int + 1)));
                assert(out.deep_view() + spec_lines(s@.skip(i as int + 1))
                    =~= prev + (seq![line@] + spec_lines(s@.skip(i as int + 1))));
            }
            start = i + 1;
        } else {
            proof {
                assert(rest.take(i - start) =~= rest);
                assert(spec_lines(rest) == seq![line@]);
                assert(out.deep_view() + spec_lines(s@.skip(n as int))
                    =~= prev + seq![line@]);
            }
            start = n;
        }
    }
    proof {
        assert(s@.skip(n as int) =~= Seq::<char>::empty());
        assert(out.deep_view() + spec_lines(s@.skip(start as int)) =~= out.deep_view());
    }
    out
}

fn is_stop_char_newline(c: char) -> (r: bool)
    ensures
        r == pred_holds(ScanPred::Newline, c),
{
    c == '\n'
}

/// Compare two string slices by content.
pub fn str_eq(a: &str, b: &str) -> (r: bool)
    ensures
        r == (a@ == b@),
{
    let na = a.unicode_len();
    let nb = b.unicode_len();
    if na != nb {
        return false;
    }
    let mut i: usize = 0;
    while i < na
        invariant
            i <= na,
            na == a@.len(),
            na == b@.len(),
            forall|j: int| 0 <= j < i ==> a@[j] == b@[j],
        decreases na - i,
    {
        if a.get_char(i) != b.get_char(i) {
            return false;
        }
        i += 1;
    }
    proof {
        assert(a@ =~= b@);
    }
    true
}

} // verus!
