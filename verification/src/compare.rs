//! The compare engine: structured differences between two byte contents,
//! in binary mode (byte positions) or in one of three text modes (line
//! pairs under a normalization).  A size mismatch is always recorded
//! first; the result is identical exactly when no difference was
//! recorded.

use vstd::prelude::*;
use crate::error::FsError;
use crate::text::{
    chars_eq, chars_to_vec, first_nl, is_ascii_lower, is_ascii_upper, lower_chars,
    spec_lines, spec_lower, split_lines, to_lower_char, trim_chars, trim_spec,
};
use vstd::utf8::{decode_utf8, encode_scalar, encode_utf8, valid_utf8};

verus! {

/// How two files are compared.
#[derive(Debug, Clone, Copy, PartialEq, Eq, Structural)]
pub enum ComparisonType {
    /// Byte-for-byte comparison.
    Binary,
    /// Line-for-line comparison of the exact lines.
    Text,
    /// Line-for-line comparison after trimming surrounding whitespace.
    TextIgnoreWhitespace,
    /// Line-for-line comparison after ASCII case folding.
    TextIgnoreCase,
}

/// One recorded difference.
#[derive(Debug, Clone, PartialEq, Eq)]
pub enum Difference {
    /// The bytes at one offset differ.
    BinaryDiff { offset: u64, left: u8, right: u8 },
    /// The lines at one 1-based line number differ; the recorded lines
    /// are the original, unnormalized ones.
    TextDiff { line: usize, left: String, right: String },
    /// The two contents have different byte sizes.
    SizeDiff { left_size: u64, right_size: u64 },
    /// An entry exists on one side only, or with a different kind.
    TypeDiff { left_type: String, right_type: String },
}

/// The mathematical image of a [`Difference`], with strings as
/// character sequences.
pub enum DiffView {
    BinaryD { offset: u64, left: u8, right: u8 },
    TextD { line: usize, left: Seq<char>, right: Seq<char> },
    SizeD { left_size: u64, right_size: u64 },
    TypeD { left_type: Seq<char>, right_type: Seq<char> },
}

impl View for Difference {
    type V = DiffView;

    open spec fn view(&self) -> DiffView {
        match self {
            Difference::BinaryDiff { offset, left, right } => DiffView::BinaryD {
                offset: *offset,
                left: *left,
                right: *right,
            },
            Difference::TextDiff { line, left, right } => DiffView::TextD {
                line: *line,
                left: left@,
                right: right@,
            },
            Difference::SizeDiff { left_size, right_size } => DiffView::SizeD {
                left_size: *left_size,
                right_size: *right_size,
            },
            Difference::TypeDiff { left_type, right_type } => DiffView::TypeD {
                left_type: left_type@,
                right_type: right_type@,
            },
        }
    }
}

/// The views of a vector of differences.
pub open spec fn diff_views(ds: Seq<Difference>) -> Seq<DiffView> {
    ds.map_values(|d: Difference| d@)
}

/// The outcome of one comparison.
#[derive(Debug, Clone)]
pub struct ComparisonResult {
    /// Whether no difference was recorded.
    pub identical: bool,
    /// Every recorded difference, in order.
    pub differences: Vec<Difference>,
    /// The number of recorded differences.
    pub total_differences: usize,
    /// Elapsed wall-clock milliseconds, filled in by the caller that
    /// timed the surrounding read; 0 as produced here.
    pub time_ms: u64,
}

impl ComparisonResult {
    /// The result's invariant: `identical` holds exactly when the list
    /// is empty, and the count equals the list length.
    pub open spec fn wf(&self) -> bool {
        &&& self.identical == (self.differences@.len() == 0)
        &&& self.total_differences == self.differences@.len()
    }
}

// ---------------------------------------------------------------------
// Binary comparison
// ---------------------------------------------------------------------

/// The binary differences among the first `n` overlapping positions.
pub open spec fn bdiffs_upto(left: Seq<u8>, right: Seq<u8>, n: int) -> Seq<DiffView>
    decreases n,
{
    if n <= 0 {
        Seq::empty()
    } else {
        bdiffs_upto(left, right, n - 1) + (if left[n - 1] != right[n - 1] {
            seq![
                DiffView::BinaryD {
                    offset: (n - 1) as u64,
                    left: left[n - 1],
                    right: right[n - 1],
                },
            ]
        } else {
            Seq::empty()
        })
    }
}

/// All binary differences: one per overlapping byte position at which
/// the contents disagree.
pub open spec fn spec_binary_diffs(left: Seq<u8>, right: Seq<u8>) -> Seq<DiffView> {
    bdiffs_upto(left, right, vstd::math::min(left.len() as int, right.len() as int))
}

// ---------------------------------------------------------------------
// Text comparison
// ---------------------------------------------------------------------

/// The line at index `i`, or the empty line when the side has fewer
/// lines: a side that has ended compares as empty.
pub open spec fn line_at(lines: Seq<Seq<char>>, i: int) -> Seq<char> {
    if 0 <= i < lines.len() {
        lines[i]
    } else {
        Seq::empty()
    }
}

/// The normalization each text mode applies before comparing a line
/// pair.  Binary mode never reaches this.
pub open spec fn spec_normalize(mode: ComparisonType, s: Seq<char>) -> Seq<char> {
    match mode {
        ComparisonType::TextIgnoreWhitespace => trim_spec(s),
        ComparisonType::TextIgnoreCase => spec_lower(s),
        _ => s,
    }
}

/// The text differences among the first `n` line pairs; line numbers
/// are 1-based, and the recorded lines are the unnormalized ones.
pub open spec fn tdiffs_upto(
    left: Seq<Seq<char>>,
    right: Seq<Seq<char>>,
    mode: ComparisonType,
    n: int,
) -> Seq<DiffView>
    decreases n,
{
    if n <= 0 {
        Seq::empty()
    } else {
        tdiffs_upto(left, right, mode, n - 1) + (if spec_normalize(mode, line_at(left, n - 1))
            != spec_normalize(mode, line_at(right, n - 1)) {
            seq![
                DiffView::TextD {
                    line: n as usize,
                    left: line_at(left, n - 1),
                    right: line_at(right, n - 1),
                },
            ]
        } else {
            Seq::empty()
        })
    }
}

/// All text differences between two line lists, compared positionally
/// until both sides are exhausted.
pub open spec fn spec_text_diffs(
    left: Seq<Seq<char>>,
    right: Seq<Seq<char>>,
    mode: ComparisonType,
) -> Seq<DiffView> {
    tdiffs_upto(left, right, mode, vstd::math::max(left.len() as int, right.len() as int))
}

// ---------------------------------------------------------------------
// Whole-file comparison
// ---------------------------------------------------------------------

/// The size difference recorded ahead of the mode-specific comparison,
/// when the byte sizes differ.
pub open spec fn spec_size_diffs(left: Seq<u8>, right: Seq<u8>) -> Seq<DiffView> {
    if left.len() != right.len() {
        seq![
            DiffView::SizeD { left_size: left.len() as u64, right_size: right.len() as u64 },
        ]
    } else {
        Seq::empty()
    }
}

/// The differences `compare_files` records for two byte contents, or
/// `None` when a text mode was asked of contents that are not valid
/// UTF-8.
pub open spec fn spec_compare_files(
    left: Seq<u8>,
    right: Seq<u8>,
    mode: ComparisonType,
) -> Option<Seq<DiffView>> {
    match mode {
        ComparisonType::Binary => Some(spec_size_diffs(left, right) + spec_binary_diffs(left, right)),
        _ => {
            if valid_utf8(left) && valid_utf8(right) {
                Some(
                    spec_size_diffs(left, right) + spec_text_diffs(
                        spec_lines(decode_utf8(left)),
                        spec_lines(decode_utf8(right)),
                        mode,
                    ),
                )
            } else {
                None
            }
        },
    }
}

/// Relies on `String::from_utf8`: succeeds exactly on valid UTF-8 and
/// returns the string of those bytes.
#[verifier::external_body]
fn bytes_to_string(data: &Vec<u8>) -> (r: Option<String>)
    ensures
        (r is Some) == valid_utf8(data@),
        match r {
            Some(s) => s@ == decode_utf8(data@),
            None => !valid_utf8(data@),
        },
{
    String::from_utf8(data.clone()).ok()
}

/// Append one binary difference per overlapping position at which the
/// two contents disagree.
fn push_binary_diffs(left: &Vec<u8>, right: &Vec<u8>, differences: &mut Vec<Difference>)
    ensures
        diff_views(final(differences)@) == diff_views(old(differences)@) + spec_binary_diffs(
            left@,
            right@,
        ),
{
    let n: usize = if left.len() < right.len() {
        left.len()
    } else {
        right.len()
    };
    let mut i: usize = 0;
    proof {
        assert(diff_views(differences@) + bdiffs_upto(left@, right@, 0) =~= diff_views(
            differences@,
        ));
    }
    while i < n
        invariant
            i <= n,
            n == vstd::math::min(left@.len() as int, right@.len() as int),
            diff_views(differences@) == diff_views(old(differences)@) + bdiffs_upto(
                left@,
                right@,
                i as int,
            ),
        decreases n - i,
    {
        let ghost prev = differences@;
        if left[i] != right[i] {
            let d = Difference::BinaryDiff { offset: i as u64, left: left[i], right: right[i] };
            differences.push(d);
            proof {
                assert(diff_views(differences@) =~= diff_views(prev).push(
                    DiffView::BinaryD {
                        offset: i as u64,
                        left: left@[i as int],
                        right: right@[i as int],
                    },
                ));
                assert(bdiffs_upto(left@, right@, i + 1) =~= bdiffs_upto(
                    left@,
                    right@,
                    i as int,
                ).push(
                    DiffView::BinaryD {
                        offset: i as u64,
                        left: left@[i as int],
                        right: right@[i as int],
                    },
                ));
            }
        } else {
            proof {
                assert(bdiffs_upto(left@, right@, i + 1) =~= bdiffs_upto(left@, right@, i as int));
            }
        }
        proof {
            assert(diff_views(differences@) =~= diff_views(old(differences)@) + bdiffs_upto(
                left@,
                right@,
                i + 1,
            ));
        }
        i += 1;
    }
}

/// Whether a line pair is equal under the mode's normalization.
fn lines_equal(mode: ComparisonType, left: &str, right: &str) -> (r: bool)
    ensures
        r == (spec_normalize(mode, left@) == spec_normalize(mode, right@)),
{
    let lv = chars_to_vec(left);
    let rv = chars_to_vec(right);
    match mode {
        ComparisonType::TextIgnoreWhitespace => {
            let lt = trim_chars(&lv);
            let rt = trim_chars(&rv);
            chars_eq(&lt, &rt)
        },
        ComparisonType::TextIgnoreCase => {
            let ll = lower_chars(&lv);
            let rl = lower_chars(&rv);
            chars_eq(&ll, &rl)
        },
        _ => chars_eq(&lv, &rv),
    }
}

/// Append one text difference per line pair that differs under the
/// mode's normalization; the recorded lines are the original ones.
fn push_text_diffs(
    left_lines: &Vec<String>,
    right_lines: &Vec<String>,
    mode: ComparisonType,
    differences: &mut Vec<Difference>,
)
    ensures
        diff_views(final(differences)@) == diff_views(old(differences)@) + spec_text_diffs(
            left_lines.deep_view(),
            right_lines.deep_view(),
            mode,
        ),
{
    let n: usize = if left_lines.len() > right_lines.len() {
        left_lines.len()
    } else {
        right_lines.len()
    };
    let empty_line = String::new();
    let mut i: usize = 0;
    proof {
        assert(diff_views(differences@) + tdiffs_upto(
            left_lines.deep_view(),
            right_lines.deep_view(),
            mode,
            0,
        ) =~= diff_views(differences@));
    }
    while i < n
        invariant
            i <= n,
            n == vstd::math::max(left_lines.deep_view().len() as int, right_lines.deep_view().len() as int),
            left_lines.deep_view().len() == left_lines@.len(),
            right_lines.deep_view().len() == right_lines@.len(),
            empty_line@ == Seq::<char>::empty(),
            diff_views(differences@) == diff_views(old(differences)@) + tdiffs_upto(
                left_lines.deep_view(),
                right_lines.deep_view(),
                mode,
                i as int,
            ),
        decreases n - i,
    {
        let lline: &String = if i < left_lines.len() {
            &left_lines[i]
        } else {
            &empty_line
        };
        let rline: &String = if i < right_lines.len() {
            &right_lines[i]
        } else {
            &empty_line
        };
        proof {
            assert(lline@ == line_at(left_lines.deep_view(), i as int));
            assert(rline@ == line_at(right_lines.deep_view(), i as int));
        }
        let ghost prev = differences@;
        let ghost lv = left_lines.deep_view();
        let ghost rv = right_lines.deep_view();
        if !lines_equal(mode, lline.as_str(), rline.as_str()) {
            let d = Difference::TextDiff {
                line: i + 1,
                left: lline.clone(),
                right: rline.clone(),
            };
            differences.push(d);
            proof {
                assert(diff_views(differences@) =~= diff_views(prev).push(
                    DiffView::TextD {
                        line: (i + 1) as usize,
                        left: line_at(lv, i as int),
                        right: line_at(rv, i as int),
                    },
                ));
                assert(tdiffs_upto(lv, rv, mode, i + 1) =~= tdiffs_upto(lv, rv, mode, i as int).push(
                    DiffView::TextD {
                        line: (i + 1) as usize,
                        left: line_at(lv, i as int),
                        right: line_at(rv, i as int),
                    },
                ));
            }
        } else {
            proof {
                assert(tdiffs_upto(lv, rv, mode, i + 1) =~= tdiffs_upto(lv, rv, mode, i as int));
            }
        }
        proof {
            assert(diff_views(differences@) =~= diff_views(old(differences)@) + tdiffs_upto(
                lv,
                rv,
                mode,
                i + 1,
            ));
        }
        i += 1;
    }
}

/// Compare two byte contents under the chosen mode.  A size mismatch is
/// recorded first in every mode; binary mode then records each
/// differing overlapping byte, and the text modes record each line pair
/// that differs under the mode's normalization, comparing positionally
/// until both sides are exhausted.  A text mode fails exactly when a
/// side is not valid UTF-8; binary mode never fails.
pub fn compare_files(left: &Vec<u8>, right: &Vec<u8>, comparison_type: ComparisonType) -> (r:
    Result<ComparisonResult, FsError>)
    ensures
        (r is Ok) == (spec_compare_files(left@, right@, comparison_type) is Some),
        match r {
            Ok(res) => {
                &&& res.wf()
                &&& Some(diff_views(res.differences@)) == spec_compare_files(
                    left@,
                    right@,
                    comparison_type,
                )
                &&& res.time_ms == 0
            },
            Err(e) => e is Io,
        },
{
    let mut differences: Vec<Difference> = Vec::new();
    if left.len() != right.len() {
        let d = Difference::SizeDiff {
            left_size: left.len() as u64,
            right_size: right.len() as u64,
        };
        differences.push(d);
    }
    proof {
        assert(diff_views(differences@) =~= spec_size_diffs(left@, right@));
    }
    match comparison_type {
        ComparisonType::Binary => {
            push_binary_diffs(left, right, &mut differences);
        },
        _ => {
            let left_text = match bytes_to_string(left) {
                Some(t) => t,
                None => {
                    return Err(FsError::Io("stream did not contain valid UTF-8".to_owned()));
                },
            };
            let right_text = match bytes_to_string(right) {
                Some(t) => t,
                None => {
                    return Err(FsError::Io("stream did not contain valid UTF-8".to_owned()));
                },
            };
            let left_lines = split_lines(left_text.as_str());
            let right_lines = split_lines(right_text.as_str());
            push_text_diffs(&left_lines, &right_lines, comparison_type, &mut differences);
        },
    }
    let identical = differences.len() == 0;
    let total = differences.len();
    Ok(ComparisonResult { identical, differences, total_differences: total, time_ms: 0 })
}

// ---------------------------------------------------------------------
// Directory comparison
// ---------------------------------------------------------------------

/// One entry of a directory tree listing: its path relative to the
/// tree's root, and its byte contents when it is a regular file.
#[derive(Debug, Clone)]
pub struct TreeEntry {
    /// Path relative to the tree root.
    pub rel_path: String,
    /// The file's bytes; `None` for a directory.
    pub content: Option<Vec<u8>>,
}

/// Whether some entry of the listing has the given relative path.
pub open spec fn contains_path(entries: Seq<TreeEntry>, p: Seq<char>) -> bool {
    exists|i: int| 0 <= i < entries.len() && entries[i].rel_path@ == p
}

/// A tree listing names each relative path at most once.
pub open spec fn unique_paths(entries: Seq<TreeEntry>) -> bool {
    forall|i: int, j: int|
        0 <= i < j < entries.len() ==> entries[i].rel_path@ != entries[j].rel_path@
}

/// The entry of the listing with the given relative path.
pub open spec fn entry_at(entries: Seq<TreeEntry>, p: Seq<char>) -> TreeEntry
    recommends
        contains_path(entries, p),
{
    entries[choose|i: int| 0 <= i < entries.len() && entries[i].rel_path@ == p]
}

/// The differences contributed by the left listing, in order: a type
/// difference for each path absent on the right, and for each file pair
/// the whole file comparison; `None` when a file comparison fails.
pub open spec fn dir_diffs_left(
    left: Seq<TreeEntry>,
    right: Seq<TreeEntry>,
    mode: ComparisonType,
) -> Option<Seq<DiffView>>
    decreases left.len(),
{
    if left.len() == 0 {
        Some(Seq::empty())
    } else {
        let e = left[0];
        let head: Option<Seq<DiffView>> = if !contains_path(right, e.rel_path@) {
            Some(seq![DiffView::TypeD { left_type: "file"@, right_type: "missing"@ }])
        } else {
            match (e.content, entry_at(right, e.rel_path@).content) {
                (Some(lc), Some(rc)) => spec_compare_files(lc@, rc@, mode),
                _ => Some(Seq::empty()),
            }
        };
        let tail = dir_diffs_left(left.drop_first(), right, mode);
        if head is Some && tail is Some {
            Some(head->Some_0 + tail->Some_0)
        } else {
            None
        }
    }
}

/// The differences contributed by the right listing: a type difference
/// for each path absent on the left.
pub open spec fn dir_diffs_right(left: Seq<TreeEntry>, right: Seq<TreeEntry>) -> Seq<DiffView>
    decreases right.len(),
{
    if right.len() == 0 {
        Seq::empty()
    } else {
        (if !contains_path(left, right[0].rel_path@) {
            seq![DiffView::TypeD { left_type: "missing"@, right_type: "file"@ }]
        } else {
            Seq::empty()
        }) + dir_diffs_right(left, right.drop_first())
    }
}

/// The differences `compare_directories` records, or `None` when a file
/// comparison fails.
pub open spec fn spec_compare_directories(
    left: Seq<TreeEntry>,
    right: Seq<TreeEntry>,
    mode: ComparisonType,
) -> Option<Seq<DiffView>> {
    match dir_diffs_left(left, right, mode) {
        Some(ds) => Some(ds + dir_diffs_right(left, right)),
        None => None,
    }
}

/// Index of the listing entry with the given path, if any.
fn find_by_path(entries: &Vec<TreeEntry>, path: &String) -> (r: Option<usize>)
    ensures
        match r {
            Some(i) => i < entries@.len() && entries@[i as int].rel_path@ == path@,
            None => !contains_path(entries@, path@),
        },
{
    let mut j: usize = 0;
    while j < entries.len()
        invariant
            j <= entries@.len(),
            forall|k: int| 0 <= k < j ==> entries@[k].rel_path@ != path@,
        decreases entries.len() - j,
    {
        if entries[j].rel_path.eq(path) {
            return Some(j);
        }
        j += 1;
    }
    None
}

/// Compare two directory trees, given as listings of relative paths
/// with file contents.  Every relative path present on one side only
/// yields a type difference; every path present on both sides as a
/// file is compared as a whole file and its differences are merged, in
/// listing order.  A failing file comparison aborts the whole call.
pub fn compare_directories(
    left: &Vec<TreeEntry>,
    right: &Vec<TreeEntry>,
    comparison_type: ComparisonType,
) -> (r: Result<ComparisonResult, FsError>)
    requires
        unique_paths(left@),
        unique_paths(right@),
    ensures
        (r is Ok) == (spec_compare_directories(left@, right@, comparison_type) is Some),
        match r {
            Ok(res) => {
                &&& res.wf()
                &&& Some(diff_views(res.differences@)) == spec_compare_directories(
                    left@,
                    right@,
                    comparison_type,
                )
                &&& res.time_ms == 0
            },
            Err(e) => e is Io,
        },
{
    let mut differences: Vec<Difference> = Vec::new();
    let mut i: usize = 0;
    proof {
        assert(left@.skip(0) =~= left@);
        assert(diff_views(differences@) =~= Seq::<DiffView>::empty());
    }
    while i < left.len()
        invariant
            i <= left@.len(),
            unique_paths(left@),
            unique_paths(right@),
            match dir_diffs_left(left@.skip(i as int), right@, comparison_type) {
                Some(t) => dir_diffs_left(left@, right@, comparison_type) == Some(
                    diff_views(differences@) + t,
                ),
                None => dir_diffs_left(left@, right@, comparison_type) is None,
            },
        decreases left.len() - i,
    {
        let ghost rest = left@.skip(i as int);
        proof {
            assert(rest[0] == left@[i as int]);
            assert(rest.drop_first() =~= left@.skip(i + 1));
        }
        let e: &TreeEntry = &left[i];
        let ghost prev = differences@;
        match find_by_path(right, &e.rel_path) {
            None => {
                let d = Difference::TypeDiff {
                    left_type: "file".to_owned(),
                    right_type: "missing".to_owned(),
                };
                differences.push(d);
                proof {
                    assert(diff_views(differences@) =~= diff_views(prev).push(
                        DiffView::TypeD { left_type: "file"@, right_type: "missing"@ },
                    ));
                }
            },
            Some(ri) => {
                proof {
                    let p = left@[i as int].rel_path@;
                    let k = choose|x: int|
                        0 <= x < right@.len() && right@[x].rel_path@ == p;
                    assert(right@[k].rel_path@ == p && right@[ri as int].rel_path@ == p);
                    assert(k == ri as int);
                    assert(entry_at(right@, p) == right@[ri as int]);
                }
                let re: &TreeEntry = &right[ri];
                match (&e.content, &re.content) {
                    (Some(lc), Some(rc)) => {
                        match compare_files(lc, rc, comparison_type) {
                            Ok(mut res) => {
                                let ghost merged = res.differences@;
                                differences.append(&mut res.differences);
                                proof {
                                    assert(diff_views(differences@) =~= diff_views(prev)
                                        + diff_views(merged));
                                }
                            },
                            Err(err) => {
                                return Err(err);
                            },
                        }
                    },
                    _ => {
                        proof {
                            assert(diff_views(differences@) =~= diff_views(prev)
                                + Seq::<DiffView>::empty());
                        }
                    },
                }
            },
        }
        proof {
            match dir_diffs_left(left@.skip(i + 1), right@, comparison_type) {
                Some(t) => {
                    assert(dir_diffs_left(left@, right@, comparison_type) == Some(
                        diff_views(differences@) + t,
                    )) by {
                        assert(diff_views(differences@) + t =~= diff_views(prev) + (
                        diff_views(differences@).skip(diff_views(prev).len() as int) + t));
                    };
                },
                None => {},
            }
        }
        i += 1;
    }
    proof {
        assert(left@.skip(left@.len() as int) =~= Seq::<TreeEntry>::empty());
        assert(dir_diffs_left(left@, right@, comparison_type) == Some(
            diff_views(differences@) + Seq::<DiffView>::empty(),
        ));
        assert(diff_views(differences@) + Seq::<DiffView>::empty() =~= diff_views(differences@));
    }
    let ghost base = differences@;
    let mut j: usize = 0;
    proof {
        assert(right@.skip(0) =~= right@);
    }
    while j < right.len()
        invariant
            j <= right@.len(),
            dir_diffs_left(left@, right@, comparison_type) == Some(diff_views(base)),
            diff_views(base) + dir_diffs_right(left@, right@) == diff_views(differences@)
                + dir_diffs_right(left@, right@.skip(j as int)),
        decreases right.len() - j,
    {
        let ghost rest = right@.skip(j as int);
        proof {
            assert(rest[0] == right@[j as int]);
            assert(rest.drop_first() =~= right@.skip(j + 1));
        }
        let ghost prev = differences@;
        let re: &TreeEntry = &right[j];
        match find_by_path(left, &re.rel_path) {
            None => {
                let d = Difference::TypeDiff {
                    left_type: "missing".to_owned(),
                    right_type: "file".to_owned(),
                };
                differences.push(d);
                proof {
                    assert(diff_views(differences@) =~= diff_views(prev).push(
                        DiffView::TypeD { left_type: "missing"@, right_type: "file"@ },
                    ));
                    assert(diff_views(prev).push(
                        DiffView::TypeD { left_type: "missing"@, right_type: "file"@ },
                    ) + dir_diffs_right(left@, right@.skip(j + 1)) =~= diff_views(prev)
                        + dir_diffs_right(left@, right@.skip(j as int)));
                }
            },
            Some(li) => {
                proof {
                    assert(contains_path(left@, right@[j as int].rel_path@));
                    assert(diff_views(differences@) + dir_diffs_right(left@, right@.skip(j + 1))
                        =~= diff_views(prev) + dir_diffs_right(left@, right@.skip(j as int)));
                }
            },
        }
        j += 1;
    }
    proof {
        assert(right@.skip(right@.len() as int) =~= Seq::<TreeEntry>::empty());
        assert(dir_diffs_right(left@, right@.skip(right@.len() as int)) =~= Seq::<
            DiffView,
        >::empty());
        assert(diff_views(differences@) + Seq::<DiffView>::empty() =~= diff_views(differences@));
        assert(diff_views(base) + dir_diffs_right(left@, right@) =~= diff_views(differences@));
    }
    let identical = differences.len() == 0;
    let total = differences.len();
    Ok(ComparisonResult { identical, differences, total_differences: total, time_ms: 0 })
}

// ---------------------------------------------------------------------
// Laws
// ---------------------------------------------------------------------

proof fn lemma_bdiffs_self(b: Seq<u8>, n: int)
    ensures
        bdiffs_upto(b, b, n) == Seq::<DiffView>::empty(),
    decreases n,
{
    if n > 0 {
        lemma_bdiffs_self(b, n - 1);
        assert(bdiffs_upto(b, b, n) =~= Seq::<DiffView>::empty());
    } else {
        assert(bdiffs_upto(b, b, n) =~= Seq::<DiffView>::empty());
    }
}

/// Comparing any contents with themselves in binary mode is reflexive:
/// the result is identical and its difference list is empty.
pub proof fn lemma_compare_self_binary(b: Seq<u8>)
    ensures
        spec_compare_files(b, b, ComparisonType::Binary) == Some(Seq::<DiffView>::empty()),
{
    lemma_bdiffs_self(b, vstd::math::min(b.len() as int, b.len() as int));
    assert(spec_size_diffs(b, b) + spec_binary_diffs(b, b) =~= Seq::<DiffView>::empty());
}

proof fn lemma_dir_diffs_left_copy(
    left: Seq<TreeEntry>,
    right: Seq<TreeEntry>,
)
    requires
        forall|i: int|
            0 <= i < left.len() ==> contains_path(right, #[trigger] left[i].rel_path@) && match (
                left[i].content,
                entry_at(right, left[i].rel_path@).content,
            ) {
                (Some(lc), Some(rc)) => lc@ == rc@,
                (None, None) => true,
                _ => false,
            },
    ensures
        dir_diffs_left(left, right, ComparisonType::Binary) == Some(Seq::<DiffView>::empty()),
    decreases left.len(),
{
    if left.len() > 0 {
        assert(contains_path(right, left[0].rel_path@));
        match (left[0].content, entry_at(right, left[0].rel_path@).content) {
            (Some(lc), Some(rc)) => {
                lemma_compare_self_binary(lc@);
            },
            _ => {},
        }
        assert(forall|i: int|
            0 <= i < left.drop_first().len() ==> left.drop_first()[i] == left[i + 1]);
        lemma_dir_diffs_left_copy(left.drop_first(), right);
        assert(Seq::<DiffView>::empty() + Seq::<DiffView>::empty() =~= Seq::<DiffView>::empty());
    }
}

proof fn lemma_dir_diffs_right_covered(left: Seq<TreeEntry>, right: Seq<TreeEntry>)
    requires
        forall|j: int| 0 <= j < right.len() ==> contains_path(left, #[trigger] right[j].rel_path@),
    ensures
        dir_diffs_right(left, right) == Seq::<DiffView>::empty(),
    decreases right.len(),
{
    if right.len() > 0 {
        assert(forall|j: int|
            0 <= j < right.drop_first().len() ==> right.drop_first()[j] == right[j + 1]);
        lemma_dir_diffs_right_covered(left, right.drop_first());
        assert(dir_diffs_right(left, right) =~= Seq::<DiffView>::empty());
    }
}

/// Comparing a tree against a byte-identical copy in binary mode finds
/// nothing: when both listings hold the same relative paths, with the
/// same kind and equal bytes at each path, the result is identical.
pub proof fn lemma_compare_directories_copy(left: Seq<TreeEntry>, right: Seq<TreeEntry>)
    requires
        forall|i: int|
            0 <= i < left.len() ==> contains_path(right, #[trigger] left[i].rel_path@) && match (
                left[i].content,
                entry_at(right, left[i].rel_path@).content,
            ) {
                (Some(lc), Some(rc)) => lc@ == rc@,
                (None, None) => true,
                _ => false,
            },
        forall|j: int| 0 <= j < right.len() ==> contains_path(left, #[trigger] right[j].rel_path@),
    ensures
        spec_compare_directories(left, right, ComparisonType::Binary) == Some(
            Seq::<DiffView>::empty(),
        ),
{
    lemma_dir_diffs_left_copy(left, right);
    lemma_dir_diffs_right_covered(left, right);
    assert(Seq::<DiffView>::empty() + Seq::<DiffView>::empty() =~= Seq::<DiffView>::empty());
}


/// A character with its ASCII case flipped: upper becomes lower,
/// lower becomes upper, everything else is unchanged.
pub open spec fn flip_case_char(c: char) -> char {
    if is_ascii_upper(c) {
        (((c as u8) + 32) as char)
    } else if is_ascii_lower(c) {
        (((c as u8) - 32) as char)
    } else {
        c
    }
}

/// A text with every letter's case flipped.
pub open spec fn spec_flip_case(s: Seq<char>) -> Seq<char> {
    s.map_values(|c: char| flip_case_char(c))
}

proof fn lemma_lower_of_flip(s: Seq<char>)
    ensures
        spec_lower(spec_flip_case(s)) == spec_lower(s),
{
    assert forall|i: int| 0 <= i < s.len() implies to_lower_char(flip_case_char(#[trigger] s[i]))
        == to_lower_char(s[i]) by {
    }
    assert(spec_lower(spec_flip_case(s)) =~= spec_lower(s));
}

proof fn lemma_first_nl_flip(s: Seq<char>)
    ensures
        first_nl(spec_flip_case(s)) == first_nl(s),
    decreases s.len(),
{
    if s.len() > 0 {
        assert(spec_flip_case(s)[0] == flip_case_char(s[0]));
        assert((flip_case_char(s[0]) == '\n') == (s[0] == '\n'));
        if s[0] != '\n' {
            assert(spec_flip_case(s).drop_first() =~= spec_flip_case(s.drop_first()));
            lemma_first_nl_flip(s.drop_first());
        }
    }
}

proof fn lemma_lines_flip(s: Seq<char>)
    ensures
        spec_lines(spec_flip_case(s)) == spec_lines(s).map_values(
            |l: Seq<char>| spec_flip_case(l),
        ),
    decreases s.len(),
{
    let fs = spec_flip_case(s);
    lemma_first_nl_flip(s);
    crate::text::lemma_first_nl_bounds(s);
    if s.len() == 0 {
        assert(fs =~= Seq::<char>::empty());
        assert(spec_lines(fs) =~= spec_lines(s).map_values(|l: Seq<char>| spec_flip_case(l)));
    } else {
        let i = first_nl(s) as int;
        if i >= s.len() {
            assert(spec_lines(fs) =~= seq![fs]);
            assert(spec_lines(s).map_values(|l: Seq<char>| spec_flip_case(l)) =~= seq![fs]);
        } else {
            assert(fs.take(i + 1) =~= spec_flip_case(s.take(i + 1)));
            assert(fs.skip(i + 1) =~= spec_flip_case(s.skip(i + 1)));
            lemma_lines_flip(s.skip(i + 1));
            assert(spec_lines(fs) =~= seq![spec_flip_case(s.take(i + 1))] + spec_lines(
                spec_flip_case(s.skip(i + 1)),
            ));
            assert(spec_lines(fs) =~= spec_lines(s).map_values(
                |l: Seq<char>| spec_flip_case(l),
            ));
        }
    }
}

proof fn lemma_tdiffs_flip(lines: Seq<Seq<char>>, n: int)
    ensures
        tdiffs_upto(
            lines,
            lines.map_values(|l: Seq<char>| spec_flip_case(l)),
            ComparisonType::TextIgnoreCase,
            n,
        ) == Seq::<DiffView>::empty(),
    decreases n,
{
    let flipped = lines.map_values(|l: Seq<char>| spec_flip_case(l));
    if n > 0 {
        lemma_tdiffs_flip(lines, n - 1);
        if 0 <= n - 1 < lines.len() {
            lemma_lower_of_flip(lines[n - 1]);
            assert(line_at(flipped, n - 1) == spec_flip_case(line_at(lines, n - 1)));
        } else {
            assert(line_at(flipped, n - 1) =~= Seq::<char>::empty());
            assert(line_at(lines, n - 1) =~= Seq::<char>::empty());
            assert(spec_flip_case(line_at(lines, n - 1)) =~= Seq::<char>::empty());
            lemma_lower_of_flip(line_at(lines, n - 1));
        }
        assert(spec_normalize(ComparisonType::TextIgnoreCase, line_at(flipped, n - 1))
            == spec_normalize(ComparisonType::TextIgnoreCase, line_at(lines, n - 1))) by {
            lemma_lower_of_flip(line_at(lines, n - 1));
            assert(line_at(flipped, n - 1) =~= spec_flip_case(line_at(lines, n - 1)));
        };
        assert(tdiffs_upto(lines, flipped, ComparisonType::TextIgnoreCase, n) =~= Seq::<
            DiffView,
        >::empty());
    } else {
        assert(tdiffs_upto(lines, flipped, ComparisonType::TextIgnoreCase, n) =~= Seq::<
            DiffView,
        >::empty());
    }
}

proof fn lemma_encode_len_flip(s: Seq<char>)
    ensures
        encode_utf8(spec_flip_case(s)).len() == encode_utf8(s).len(),
    decreases s.len(),
{
    if s.len() > 0 {
        let c = s[0];
        let f = flip_case_char(c);
        assert(spec_flip_case(s)[0] == f);
        assert(spec_flip_case(s).drop_first() =~= spec_flip_case(s.drop_first()));
        lemma_encode_len_flip(s.drop_first());
        assert(encode_scalar(f as u32).len() == encode_scalar(c as u32).len()) by {
            if is_ascii_upper(c) || is_ascii_lower(c) {
                assert((c as u32) < 128);
                assert((f as u32) < 128);
            }
        };
    }
}

/// Flipping every letter's case is invisible to the case-ignoring
/// text comparison: a file and its case-flipped copy compare as
/// identical, with no differences recorded.
pub proof fn lemma_compare_flip_case(text: Seq<char>)
    ensures
        spec_compare_files(
            encode_utf8(text),
            encode_utf8(spec_flip_case(text)),
            ComparisonType::TextIgnoreCase,
        ) == Some(Seq::<DiffView>::empty()),
{
    broadcast use vstd::utf8::encode_utf8_valid_utf8;
    broadcast use vstd::utf8::encode_utf8_decode_utf8;

    let left = encode_utf8(text);
    let right = encode_utf8(spec_flip_case(text));
    assert(valid_utf8(left));
    assert(valid_utf8(right));
    assert(decode_utf8(left) == text);
    assert(decode_utf8(right) == spec_flip_case(text));
    lemma_encode_len_flip(text);
    assert(spec_size_diffs(left, right) =~= Seq::<DiffView>::empty());
    lemma_lines_flip(text);
    let lines = spec_lines(text);
    let flipped = spec_lines(spec_flip_case(text));
    assert(flipped == lines.map_values(|l: Seq<char>| spec_flip_case(l)));
    assert(flipped.len() == lines.len());
    lemma_tdiffs_flip(
        lines,
        vstd::math::max(lines.len() as int, flipped.len() as int),
    );
    assert(spec_size_diffs(left, right) + spec_text_diffs(
        spec_lines(decode_utf8(left)),
        spec_lines(decode_utf8(right)),
        ComparisonType::TextIgnoreCase,
    ) =~= Seq::<DiffView>::empty());
}

} // verus!
