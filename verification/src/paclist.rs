//! The manifest line parser and the manifest reader.
//!
//! A manifest is line-oriented text.  `#` starts a comment running to the
//! end of the line; blank and whitespace-only lines carry no record.  A
//! content line is a kind marker (`+` for the standard source, `*` for the
//! alternate source), whitespace, a package name, and optional trailing
//! whitespace.

use vstd::prelude::*;
use vstd::string::*;

use crate::errors::{PackageLineParseError, PackageListError};
use crate::pacman::InstalledSet;
use crate::text::{
    all_space, is_space, is_space_char, is_stop_char, lemma_scan_bounds, lemma_scan_is,
    pred_holds, scan, spec_lines, split_lines, ScanPred,
};

verus! {

/// Which package source a manifest line selects.
#[derive(Debug, Clone, Copy, PartialEq, Eq, Structural)]
pub enum PackageLineKind {
    /// The standard repository, served by the primary package manager.
    Package,
    /// The alternate (AUR-style) source, served by a helper binary.
    Aur,
}

/// The mathematical content of one parsed manifest line.
pub struct ParsedView {
    pub kind: PackageLineKind,
    pub name: Seq<char>,
}

/// One parsed manifest record: a package name and its source kind.
///
/// Invariant, guaranteed by the parser: the name is non-empty and
/// contains no whitespace.
#[derive(Debug)]
pub struct PackageLine {
    pub kind: PackageLineKind,
    pub name: String,
}

impl View for PackageLine {
    type V = ParsedView;

    open spec fn view(&self) -> ParsedView {
        ParsedView { kind: self.kind, name: self.name@ }
    }
}

/// The kind a marker character selects, if any.
pub open spec fn spec_kind_marker(c: char) -> Option<PackageLineKind> {
    if c == '+' {
        Some(PackageLineKind::Package)
    } else if c == '*' {
        Some(PackageLineKind::Aur)
    } else {
        None
    }
}

/// The meaningful part of a manifest line: everything before the first
/// comment marker or line terminator.
pub open spec fn spec_body(s: Seq<char>) -> Seq<char> {
    s.take(scan(s, 0, ScanPred::Stop))
}

/// What parsing one manifest line yields.
///
/// `Ok(None)` means the line carries no record (blank, whitespace-only,
/// or comment-only).  Otherwise the body must open with a kind marker,
/// followed by whitespace, a name, and at most trailing whitespace.
pub open spec fn spec_parse(s: Seq<char>) -> Result<Option<ParsedView>, PackageLineParseError> {
    let b = spec_body(s);
    if all_space(b) {
        Ok(None)
    } else {
        match spec_kind_marker(b[0]) {
            None => Err(PackageLineParseError::UnknownPackageType(b[0])),
            Some(kind) => {
                let ns = scan(b, 1, ScanPred::NonSpace);
                if ns >= b.len() {
                    Err(PackageLineParseError::ExpectedPackageName)
                } else {
                    let ne = scan(b, ns, ScanPred::Space);
                    let tr = scan(b, ne, ScanPred::NonSpace);
                    if tr < b.len() {
                        Err(PackageLineParseError::UnexpectedString(b[tr]))
                    } else {
                        Ok(Some(ParsedView { kind, name: b.subrange(ns, ne) }))
                    }
                }
            },
        }
    }
}

impl PackageLine {
    /// The package name of this record.
    pub fn name(&self) -> (r: &str)
        ensures
            r@ == self@.name,
    {
        self.name.as_str()
    }

    /// The source kind of this record.
    pub fn kind(&self) -> (r: PackageLineKind)
        ensures
            r == self@.kind,
    {
        self.kind
    }

    /// Parse one manifest line.  Returns `Ok(None)` for a line that
    /// carries no record, `Ok(Some(..))` for a package record, and the
    /// precise reason otherwise.
    pub fn parse(line: &str) -> (r: Result<Option<PackageLine>, PackageLineParseError>)
        ensures
            match r {
                Ok(None) => spec_parse(line@) == Ok::<Option<ParsedView>, PackageLineParseError>(
                    None,
                ),
                Ok(Some(pl)) => spec_parse(line@) == Ok::<
                    Option<ParsedView>,
                    PackageLineParseError,
                >(Some(pl@)),
                Err(e) => spec_parse(line@) == Err::<
                    Option<ParsedView>,
                    PackageLineParseError,
                >(e),
            },
    {
        let n = line.unicode_len();
        let ghost s = line@;

        // The body runs up to the first comment marker or terminator.
        let mut be: usize = 0;
        while be < n && !is_stop_char(line.get_char(be))
            invariant
                s == line@,
                be <= n,
                n == s.len(),
                forall|j: int| 0 <= j < be ==> !pred_holds(ScanPred::Stop, #[trigger] s[j]),
            decreases n - be,
        {
            be += 1;
        }
        proof {
            lemma_scan_is(s, 0, be as int, ScanPred::Stop);
        }
        let ghost b = spec_body(s);
        proof {
            assert(b =~= s.take(be as int));
            assert(forall|j: int| 0 <= j < be ==> b[j] == s[j]);
        }

        // A body of nothing but whitespace carries no record.
        let mut fs: usize = 0;
        while fs < be && is_space_char(line.get_char(fs))
            invariant
                s == line@,
                fs <= be <= n,
                n == s.len(),
                b == spec_body(s),
                b =~= s.take(be as int),
                forall|j: int| 0 <= j < fs ==> is_space(#[trigger] b[j]),
            decreases be - fs,
        {
            fs += 1;
        }
        if fs == be {
            proof {
                assert(all_space(b));
            }
            return Ok(None);
        }
        proof {
            assert(!is_space(b[fs as int]));
            assert(!all_space(b));
        }

        // The first character of the body must be a kind marker.
        let c0 = line.get_char(0);
        let kind = if c0 == '+' {
            PackageLineKind::Package
        } else if c0 == '*' {
            PackageLineKind::Aur
        } else {
            return Err(PackageLineParseError::UnknownPackageType(c0));
        };

        // Whitespace runs until the name begins.
        let mut ns: usize = 1;
        while ns < be && is_space_char(line.get_char(ns))
            invariant
                s == line@,
                1 <= ns <= be <= n,
                n == s.len(),
                b == spec_body(s),
                b =~= s.take(be as int),
                forall|j: int| 1 <= j < ns ==> !pred_holds(ScanPred::NonSpace, #[trigger] b[j]),
            decreases be - ns,
        {
            ns += 1;
        }
        proof {
            lemma_scan_is(b, 1, ns as int, ScanPred::NonSpace);
        }
        if ns == be {
            return Err(PackageLineParseError::ExpectedPackageName);
        }

        // The name extends to the next whitespace character.
        let mut ne: usize = ns;
        while ne < be && !is_space_char(line.get_char(ne))
            invariant
                s == line@,
                ns <= ne <= be <= n,
                n == s.len(),
                b == spec_body(s),
                b =~= s.take(be as int),
                forall|j: int| ns <= j < ne ==> !pred_holds(ScanPred::Space, #[trigger] b[j]),
            decreases be - ne,
        {
            ne += 1;
        }
        proof {
            lemma_scan_is(b, ns as int, ne as int, ScanPred::Space);
        }

        // Only whitespace may follow the name.
        let mut tr: usize = ne;
        while tr < be && is_space_char(line.get_char(tr))
            invariant
                s == line@,
                ne <= tr <= be <= n,
                n == s.len(),
                b == spec_body(s),
                b =~= s.take(be as int),
                forall|j: int| ne <= j < tr ==> !pred_holds(ScanPred::NonSpace, #[trigger] b[j]),
            decreases be - tr,
        {
            tr += 1;
        }
        proof {
            lemma_scan_is(b, ne as int, tr as int, ScanPred::NonSpace);
        }
        if tr < be {
            return Err(PackageLineParseError::UnexpectedString(line.get_char(tr)));
        }

        let name = line.substring_char(ns, ne).to_owned();
        proof {
            assert(name@ =~= b.subrange(ns as int, ne as int));
        }
        Ok(Some(PackageLine { kind, name }))
    }
}

/// A record the parser accepts has a non-empty name that contains no
/// whitespace.
pub proof fn lemma_parsed_name_wellformed(s: Seq<char>)
    ensures
        match spec_parse(s) {
            Ok(Some(v)) => v.name.len() > 0 && forall|i: int|
                0 <= i < v.name.len() ==> !is_space(#[trigger] v.name[i]),
            _ => true,
        },
{
    let b = spec_body(s);
    if !all_space(b) && spec_kind_marker(b[0]) is Some {
        let ns = scan(b, 1, ScanPred::NonSpace);
        lemma_scan_bounds(b, 1, ScanPred::NonSpace);
        if ns < b.len() {
            let ne = scan(b, ns, ScanPred::Space);
            lemma_scan_bounds(b, ns, ScanPred::Space);
            assert(!is_space(b[ns]));
            assert(ne > ns);
            let name = b.subrange(ns, ne);
            assert forall|i: int| 0 <= i < name.len() implies !is_space(#[trigger] name[i]) by {
                assert(name[i] == b[ns + i]);
            }
        }
    }
}

/// What one read step of the manifest yields, mathematically.
pub enum SpecRead {
    /// The stream is exhausted; no further record exists.
    End,
    /// The line numbered `line_no` (1-based) failed to parse.
    Error { line_no: int, err: PackageLineParseError },
    /// The next record, and the index of the line that follows it.
    Record { rec: ParsedView, next: int },
}

/// The first record at or after line index `i`, skipping lines that
/// carry no record, stopping at the first parse error or at the end.
pub open spec fn spec_next_record(lines: Seq<Seq<char>>, i: int) -> SpecRead
    decreases lines.len() - i,
{
    if i < 0 || i >= lines.len() {
        SpecRead::End
    } else {
        match spec_parse(lines[i]) {
            Err(e) => SpecRead::Error { line_no: i + 1, err: e },
            Ok(None) => spec_next_record(lines, i + 1),
            Ok(Some(rec)) => SpecRead::Record { rec, next: i + 1 },
        }
    }
}

/// Like `spec_next_record`, additionally skipping records whose name
/// is a member of `installed`.
pub open spec fn spec_next_missing(
    lines: Seq<Seq<char>>,
    i: int,
    installed: Set<Seq<char>>,
) -> SpecRead
    decreases lines.len() - i,
{
    if i < 0 || i >= lines.len() {
        SpecRead::End
    } else {
        match spec_parse(lines[i]) {
            Err(e) => SpecRead::Error { line_no: i + 1, err: e },
            Ok(None) => spec_next_missing(lines, i + 1, installed),
            Ok(Some(rec)) => if installed.contains(rec.name) {
                spec_next_missing(lines, i + 1, installed)
            } else {
                SpecRead::Record { rec, next: i + 1 }
            },
        }
    }
}

/// A record or an error is always found at a line past `i`, within the
/// manifest.
pub proof fn lemma_next_record_bounds(lines: Seq<Seq<char>>, i: int)
    requires
        0 <= i,
    ensures
        match spec_next_record(lines, i) {
            SpecRead::End => true,
            SpecRead::Error { line_no, err } => i < line_no <= lines.len(),
            SpecRead::Record { rec, next } => i < next <= lines.len(),
        },
    decreases lines.len() - i,
{
    if 0 <= i < lines.len() {
        match spec_parse(lines[i]) {
            Ok(None) => {
                lemma_next_record_bounds(lines, i + 1);
            },
            _ => {},
        }
    }
}

/// Filtering by the installed set only drops the records whose name is
/// installed; every other outcome of the read step carries over.
pub proof fn lemma_missing_step(lines: Seq<Seq<char>>, i: int, installed: Set<Seq<char>>)
    requires
        0 <= i,
    ensures
        match spec_next_record(lines, i) {
            SpecRead::End => spec_next_missing(lines, i, installed) == SpecRead::End,
            SpecRead::Error { line_no, err } => spec_next_missing(lines, i, installed)
                == (SpecRead::Error { line_no, err }),
            SpecRead::Record { rec, next } => if installed.contains(rec.name) {
                spec_next_missing(lines, i, installed) == spec_next_missing(
                    lines,
                    next,
                    installed,
                )
            } else {
                spec_next_missing(lines, i, installed) == (SpecRead::Record { rec, next })
            },
        },
    decreases lines.len() - i,
{
    if 0 <= i < lines.len() {
        match spec_parse(lines[i]) {
            Ok(None) => {
                lemma_missing_step(lines, i + 1, installed);
            },
            _ => {},
        }
    }
}

/// A manifest whose lines all carry no record (each is blank,
/// whitespace-only, or comment-only) yields no records and no errors.
pub proof fn lemma_blank_manifest_reads_nothing(lines: Seq<Seq<char>>, i: int)
    requires
        0 <= i,
        forall|j: int| 0 <= j < lines.len() ==> all_space(spec_body(#[trigger] lines[j])),
    ensures
        spec_next_record(lines, i) == SpecRead::End,
    decreases lines.len() - i,
{
    if i < lines.len() {
        assert(spec_parse(lines[i]) == Ok::<Option<ParsedView>, PackageLineParseError>(None));
        lemma_blank_manifest_reads_nothing(lines, i + 1);
    }
}

/// Reads package records out of manifest text, one at a time, skipping
/// lines that carry no record and reporting parse errors with their
/// 1-based line number.
pub struct PackageListReader {
    /// The manifest, split into lines.
    pub lines: Vec<String>,
    /// The index of the next line to examine.
    pub next_index: usize,
}

impl PackageListReader {
    /// The reader's position never runs past its line count.
    pub open spec fn wf(self) -> bool {
        self.next_index <= self.lines@.len()
    }

    /// Wrap manifest text for reading from its first line.
    pub fn new(content: &str) -> (r: PackageListReader)
        ensures
            r.wf(),
            r.lines.deep_view() == spec_lines(content@),
            r.next_index == 0,
    {
        PackageListReader { lines: split_lines(content), next_index: 0 }
    }

    /// Read the next package record.  Lines that carry no record are
    /// skipped; a line that fails to parse yields an error tagged with
    /// its 1-based line number; `None` means the manifest is exhausted.
    pub fn next_line(&mut self) -> (r: Option<Result<PackageLine, PackageListError>>)
        requires
            old(self).wf(),
        ensures
            final(self).wf(),
            final(self).lines == old(self).lines,
            match spec_next_record(old(self).lines.deep_view(), old(self).next_index as int) {
                SpecRead::End => r is None && final(self).next_index == old(self).lines@.len(),
                SpecRead::Error { line_no, err } => match r {
                    Some(Err(PackageListError::LineParseError(n, e))) => n as int == line_no && e
                        == err && final(self).next_index as int == line_no,
                    _ => false,
                },
                SpecRead::Record { rec, next } => match r {
                    Some(Ok(pl)) => pl@ == rec && final(self).next_index as int == next,
                    _ => false,
                },
            },
    {
        while self.next_index < self.lines.len()
            invariant
                self.wf(),
                self.lines == old(self).lines,
                spec_next_record(self.lines.deep_view(), self.next_index as int)
                    == spec_next_record(
                    old(self).lines.deep_view(),
                    old(self).next_index as int,
                ),
            decreases self.lines@.len() - self.next_index,
        {
            let idx = self.next_index;
            self.next_index = idx + 1;
            proof {
                assert(self.lines.deep_view()[idx as int] == self.lines@[idx as int]@);
            }
            match PackageLine::parse(self.lines[idx].as_str()) {
                Ok(None) => {},
                Ok(Some(pl)) => {
                    return Some(Ok(pl));
                },
                Err(e) => {
                    return Some(Err(PackageListError::LineParseError(idx + 1, e)));
                },
            }
        }
        None
    }

    /// Read the next package record whose name is not in `set`.
    /// Records whose name is installed are discarded; errors and the
    /// end of the manifest are reported as `next_line` reports them.
    pub fn next_line_not_in_set(&mut self, set: &InstalledSet) -> (r: Option<
        Result<PackageLine, PackageListError>,
    >)
        requires
            old(self).wf(),
        ensures
            final(self).wf(),
            final(self).lines == old(self).lines,
            match spec_next_missing(
                old(self).lines.deep_view(),
                old(self).next_index as int,
                set@,
            ) {
                SpecRead::End => r is None,
                SpecRead::Error { line_no, err } => match r {
                    Some(Err(PackageListError::LineParseError(n, e))) => n as int == line_no && e
                        == err && final(self).next_index as int == line_no,
                    _ => false,
                },
                SpecRead::Record { rec, next } => match r {
                    Some(Ok(pl)) => pl@ == rec && final(self).next_index as int == next,
                    _ => false,
                },
            },
    {
        loop
            invariant
                self.wf(),
                self.lines == old(self).lines,
                spec_next_missing(self.lines.deep_view(), self.next_index as int, set@)
                    == spec_next_missing(
                    old(self).lines.deep_view(),
                    old(self).next_index as int,
                    set@,
                ),
            decreases self.lines@.len() - self.next_index,
        {
            let ghost pre = self.next_index as int;
            proof {
                lemma_missing_step(self.lines.deep_view(), pre, set@);
                lemma_next_record_bounds(self.lines.deep_view(), pre);
            }
            match self.next_line() {
                None => {
                    return None;
                },
                Some(Err(e)) => {
                    return Some(Err(e));
                },
                Some(Ok(pl)) => {
                    if !set.contains(pl.name()) {
                        return Some(Ok(pl));
                    }
                },
            }
        }
    }
}

} // verus!
