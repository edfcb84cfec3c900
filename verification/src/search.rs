//! The search engine: recursive pattern search over a walked directory
//! tree, with depth cap, extension allow-list, file-name matching and
//! optional per-line content matching, stopping at a result cap.
//!
//! The walk itself happens outside the crate; it hands in one
//! [`SearchCandidate`] per visited entry, in traversal order.  Pattern
//! matching comes from the `regex` crate behind trusted wrappers whose
//! results are named functions of the pattern and text alone.

use vstd::prelude::*;
use crate::entry::FileEntry;
use crate::error::FsError;
use crate::paths::{extension_of, extension_spec, file_name_of, file_name_spec};
use crate::text::{chars_eq, chars_to_vec, lower_chars, spec_lines, spec_lower, split_lines};

verus! {

/// Search configuration, constructed per call and immutable during it.
#[derive(Debug, Clone)]
pub struct SearchOptions {
    /// The regular expression applied to file names (and, per line, to
    /// contents when enabled).
    pub pattern: String,
    /// Whether file contents are searched when the name does not match.
    pub search_contents: bool,
    /// Whether matching is case sensitive.
    pub case_sensitive: bool,
    /// Maximum depth below the root, when capped.
    pub max_depth: Option<usize>,
    /// Extension allow-list: when set, an entry's extension must match
    /// one of these, case-insensitively.
    pub extensions: Option<Vec<String>>,
    /// Maximum number of results, when capped.
    pub max_results: Option<usize>,
}

impl Default for SearchOptions {
    /// The default search: empty case-sensitive pattern, names only,
    /// no depth cap, no extension list, no result cap.
    fn default() -> (r: SearchOptions)
        ensures
            r.pattern@ == Seq::<char>::empty(),
            r.search_contents == false,
            r.case_sensitive == true,
            r.max_depth is None,
            r.extensions is None,
            r.max_results is None,
    {
        SearchOptions {
            pattern: String::new(),
            search_contents: false,
            case_sensitive: true,
            max_depth: None,
            extensions: None,
            max_results: None,
        }
    }
}

/// One entry visited by the walk, as plain values.
#[derive(Debug, Clone)]
pub struct SearchCandidate {
    /// Full path of the entry.
    pub path: String,
    /// Byte size.
    pub size: u64,
    /// Whether the entry is a directory.
    pub is_dir: bool,
    /// Creation time, milliseconds since the Unix epoch.
    pub created: i64,
    /// Modification time, milliseconds since the Unix epoch.
    pub modified: i64,
    /// Depth below the search root; immediate children have depth 1.
    pub depth: usize,
    /// The entry's text contents, when it could be read as text and
    /// content search is wanted; `None` otherwise.
    pub content: Option<String>,
}

/// The mathematical image of a search configuration, with strings as
/// character sequences.
pub struct SearchSpec {
    pub pattern: Seq<char>,
    pub search_contents: bool,
    pub case_sensitive: bool,
    pub max_depth: Option<usize>,
    pub extensions: Option<Seq<Seq<char>>>,
    pub max_results: Option<usize>,
}

impl View for SearchOptions {
    type V = SearchSpec;

    open spec fn view(&self) -> SearchSpec {
        SearchSpec {
            pattern: self.pattern@,
            search_contents: self.search_contents,
            case_sensitive: self.case_sensitive,
            max_depth: self.max_depth,
            extensions: match self.extensions {
                Some(l) => Some(l.deep_view()),
                None => None,
            },
            max_results: self.max_results,
        }
    }
}

// ---------------------------------------------------------------------
// Trusted regular-expression wrappers
// ---------------------------------------------------------------------

/// Whether a pattern is a valid regular expression.
pub uninterp spec fn spec_regex_ok(pattern: Seq<char>) -> bool;

/// Whether a valid pattern matches a text; a function of the pattern
/// and the text alone.
pub uninterp spec fn spec_regex_match(pattern: Seq<char>, text: Seq<char>) -> bool;

/// Relies on `regex::Regex::new`: compilation succeeds exactly on valid
/// patterns; on failure the error's rendering is returned.
#[verifier::external_body]
fn regex_check(pattern: &str) -> (r: Option<String>)
    ensures
        (r is None) == spec_regex_ok(pattern@),
{
    match regex::Regex::new(pattern) {
        Ok(_) => None,
        Err(e) => Some(e.to_string()),
    }
}

/// Relies on `regex::Regex::new` and `regex::Regex::is_match`: for a
/// valid pattern, whether it matches the text; the result depends on
/// the pattern and the text alone.
#[verifier::external_body]
fn regex_is_match(pattern: &str, text: &str) -> (r: bool)
    requires
        spec_regex_ok(pattern@),
    ensures
        r == spec_regex_match(pattern@, text@),
{
    match regex::Regex::new(pattern) {
        Ok(re) => re.is_match(text),
        Err(_) => false,
    }
}

// ---------------------------------------------------------------------
// The matching pipeline
// ---------------------------------------------------------------------

/// The pattern actually compiled: the configured one, prefixed with the
/// case-insensitivity flag when case-insensitive search was asked.
pub open spec fn spec_effective_pattern(options: SearchSpec) -> Seq<char> {
    if options.case_sensitive {
        options.pattern
    } else {
        "(?i)"@ + options.pattern
    }
}

/// The depth cap, when set, admits the candidate.
pub open spec fn spec_depth_ok(options: SearchSpec, c: SearchCandidate) -> bool {
    match options.max_depth {
        Some(d) => c.depth <= d,
        None => true,
    }
}

/// The extension allow-list, when set, admits the candidate: an entry
/// with an extension must match one listed extension case-insensitively;
/// an entry without an extension passes.
pub open spec fn spec_ext_ok(options: SearchSpec, c: SearchCandidate) -> bool {
    match options.extensions {
        Some(list) => match extension_spec(c.path@) {
            Some(e) => exists|k: int|
                0 <= k < list.len() && spec_lower(list[k]) == spec_lower(e),
            None => true,
        },
        None => true,
    }
}

/// The pattern matches the candidate's file name.
pub open spec fn spec_name_hit(options: SearchSpec, c: SearchCandidate) -> bool {
    spec_regex_match(spec_effective_pattern(options), file_name_spec(c.path@))
}

/// The pattern matches some line of the candidate's contents.
pub open spec fn spec_content_hit(options: SearchSpec, c: SearchCandidate) -> bool {
    match c.content {
        Some(t) => exists|k: int|
            0 <= k < spec_lines(t@).len() && spec_regex_match(
                spec_effective_pattern(options),
                spec_lines(t@)[k],
            ),
        None => false,
    }
}

/// Whether a candidate belongs to the result set: it must pass the
/// depth cap and the extension allow-list, and then match by name, or
/// by contents when content search is enabled and it is a file.
pub open spec fn spec_included(options: SearchSpec, c: SearchCandidate) -> bool {
    &&& spec_depth_ok(options, c)
    &&& spec_ext_ok(options, c)
    &&& (spec_name_hit(options, c) || (options.search_contents && !c.is_dir && spec_content_hit(
        options,
        c,
    )))
}

/// The indices of the included candidates, in traversal order.
pub open spec fn included_indices(
    options: SearchSpec,
    cands: Seq<SearchCandidate>,
) -> Seq<int>
    decreases cands.len(),
{
    if cands.len() == 0 {
        Seq::empty()
    } else {
        included_indices(options, cands.drop_last()) + (if spec_included(options, cands.last()) {
            seq![cands.len() - 1]
        } else {
            Seq::empty()
        })
    }
}

/// The indices the search reports: the included ones, truncated to the
/// result cap when one is set.
pub open spec fn spec_selected(options: SearchSpec, cands: Seq<SearchCandidate>) -> Seq<int> {
    let inc = included_indices(options, cands);
    match options.max_results {
        Some(k) => inc.take(vstd::math::min(k as int, inc.len() as int)),
        None => inc,
    }
}

proof fn lemma_included_in_range(opts: SearchSpec, cands: Seq<SearchCandidate>)
    ensures
        forall|j: int|
            0 <= j < included_indices(opts, cands).len() ==> 0 <= #[trigger] included_indices(
                opts,
                cands,
            )[j] < cands.len(),
    decreases cands.len(),
{
    if cands.len() > 0 {
        lemma_included_in_range(opts, cands.drop_last());
        let prev = included_indices(opts, cands.drop_last());
        assert forall|j: int|
            0 <= j < included_indices(opts, cands).len() implies 0 <= #[trigger] included_indices(
            opts,
            cands,
        )[j] < cands.len() by {
            if j < prev.len() {
                assert(included_indices(opts, cands)[j] == prev[j]);
            } else {
                assert(included_indices(opts, cands)[j] == cands.len() - 1);
            }
        }
    }
}

/// Every reported index denotes a candidate: the selected indices all
/// lie within the candidate list.
pub proof fn lemma_selected_bounds(opts: SearchSpec, cands: Seq<SearchCandidate>)
    ensures
        forall|j: int|
            0 <= j < spec_selected(opts, cands).len() ==> 0 <= #[trigger] spec_selected(
                opts,
                cands,
            )[j] < cands.len(),
{
    lemma_included_in_range(opts, cands);
    let inc = included_indices(opts, cands);
    assert forall|j: int|
        0 <= j < spec_selected(opts, cands).len() implies 0 <= #[trigger] spec_selected(
        opts,
        cands,
    )[j] < cands.len() by {
        assert(spec_selected(opts, cands)[j] == inc[j]);
    }
}

/// The reported entry for an included candidate: the snapshot built
/// from the candidate's plain metadata.
pub open spec fn entry_of_candidate(e: FileEntry, c: SearchCandidate) -> bool {
    &&& e.wf()
    &&& e.path@ == c.path@
    &&& e.is_dir == c.is_dir
    &&& e.size == (if c.is_dir {
        0u64
    } else {
        c.size
    })
    &&& e.created == c.created
    &&& e.modified == c.modified
}

/// Whether the pattern matches some line of `text`.
fn content_matches(eff: &str, text: &str) -> (r: bool)
    requires
        spec_regex_ok(eff@),
    ensures
        r == exists|k: int|
            0 <= k < spec_lines(text@).len() && spec_regex_match(eff@, spec_lines(text@)[k]),
{
    let lines = split_lines(text);
    let mut k: usize = 0;
    while k < lines.len()
        invariant
            k <= lines@.len(),
            spec_regex_ok(eff@),
            lines.deep_view() == spec_lines(text@),
            lines.deep_view().len() == lines@.len(),
            forall|m: int| 0 <= m < k ==> !spec_regex_match(eff@, spec_lines(text@)[m]),
        decreases lines.len() - k,
    {
        if regex_is_match(eff, lines[k].as_str()) {
            assert(lines@[k as int]@ == spec_lines(text@)[k as int]);
            return true;
        }
        k += 1;
    }
    false
}

/// Whether the candidate's extension passes the allow-list.
fn ext_allowed(list: &Vec<String>, path: &str) -> (r: bool)
    ensures
        r == match extension_spec(path@) {
            Some(e) => exists|k: int|
                0 <= k < list@.len() && spec_lower(list@[k]@) == spec_lower(e),
            None => true,
        },
{
    match extension_of(path) {
        Some(ext) => {
            let ev = chars_to_vec(ext.as_str());
            let el = lower_chars(&ev);
            let mut k: usize = 0;
            while k < list.len()
                invariant
                    k <= list@.len(),
                    el@ == spec_lower(extension_spec(path@)->Some_0),
                    extension_spec(path@) is Some,
                    forall|m: int|
                        0 <= m < k ==> spec_lower(list@[m]@) != spec_lower(
                            extension_spec(path@)->Some_0,
                        ),
                decreases list.len() - k,
            {
                let lv = chars_to_vec(list[k].as_str());
                let ll = lower_chars(&lv);
                if chars_eq(&ll, &el) {
                    return true;
                }
                k += 1;
            }
            false
        },
        None => true,
    }
}

/// Whether one candidate belongs to the result set.
fn candidate_included(options: &SearchOptions, eff: &str, c: &SearchCandidate) -> (r: bool)
    requires
        spec_regex_ok(eff@),
        eff@ == spec_effective_pattern(options@),
    ensures
        r == spec_included(options@, *c),
{
    let depth_ok: bool = match &options.max_depth {
        Some(d) => c.depth <= *d,
        None => true,
    };
    if !depth_ok {
        return false;
    }
    let ext_ok: bool = match &options.extensions {
        Some(list) => {
            let ok = ext_allowed(list, c.path.as_str());
            proof {
                assert(options@.extensions == Some(list.deep_view()));
                let dv = list.deep_view();
                assert(dv.len() == list@.len());
                assert(forall|k: int| 0 <= k < list@.len() ==> #[trigger] dv[k] == list@[k]@);
                match extension_spec(c.path@) {
                    Some(e) => {
                        if exists|k: int|
                            0 <= k < list@.len() && spec_lower(#[trigger] list@[k]@)
                                == spec_lower(e) {
                            let k = choose|k: int|
                                0 <= k < list@.len() && spec_lower(#[trigger] list@[k]@)
                                    == spec_lower(e);
                            assert(0 <= k < dv.len() && spec_lower(dv[k]) == spec_lower(e));
                        }
                        if exists|k: int|
                            0 <= k < dv.len() && spec_lower(#[trigger] dv[k]) == spec_lower(e) {
                            let k = choose|k: int|
                                0 <= k < dv.len() && spec_lower(#[trigger] dv[k]) == spec_lower(
                                    e,
                                );
                            assert(0 <= k < list@.len() && spec_lower(list@[k]@) == spec_lower(
                                e,
                            ));
                        }
                    },
                    None => {},
                }
                assert(ok == spec_ext_ok(options@, *c));
            }
            ok
        },
        None => true,
    };
    if !ext_ok {
        return false;
    }
    let name = file_name_of(c.path.as_str());
    if regex_is_match(eff, name.as_str()) {
        return true;
    }
    if options.search_contents && !c.is_dir {
        match &c.content {
            Some(t) => content_matches(eff, t.as_str()),
            None => false,
        }
    } else {
        false
    }
}

/// Search the walked tree.  Candidates are filtered in traversal order
/// through the depth cap, the extension allow-list and the pattern
/// (name first, then contents when enabled); the result holds the
/// entries of the included candidates, in order, truncated to the
/// result cap.  The call fails exactly when the effective pattern is
/// not a valid regular expression; with a cap of `k`, never more than
/// `k` entries are returned.
pub fn search_files(options: &SearchOptions, candidates: &Vec<SearchCandidate>) -> (r: Result<
    Vec<FileEntry>,
    FsError,
>)
    ensures
        (r is Ok) == spec_regex_ok(spec_effective_pattern(options@)),
        match r {
            Ok(entries) => {
                let sel = spec_selected(options@, candidates@);
                &&& entries@.len() == sel.len()
                &&& forall|j: int|
                    0 <= j < sel.len() ==> 0 <= sel[j] < candidates@.len()
                        && entry_of_candidate(#[trigger] entries@[j], candidates@[sel[j]])
                &&& match options.max_results {
                    Some(k) => entries@.len() <= k,
                    None => true,
                }
            },
            Err(e) => e is InvalidRegex,
        },
{
    proof {
        lemma_selected_bounds(options@, candidates@);
    }
    let eff: String = if options.case_sensitive {
        options.pattern.clone()
    } else {
        let prefix: String = "(?i)".to_owned();
        prefix.concat(options.pattern.as_str())
    };
    match regex_check(eff.as_str()) {
        Some(msg) => {
            return Err(FsError::InvalidRegex(msg));
        },
        None => {},
    }
    let mut results: Vec<FileEntry> = Vec::new();
    let ghost opts = options@;
    let mut i: usize = 0;
    proof {
        assert(candidates@.take(0) =~= Seq::<SearchCandidate>::empty());
        assert(spec_selected(opts, candidates@.take(0)) =~= Seq::<int>::empty());
    }
    while i < candidates.len()
        invariant
            i <= candidates@.len(),
            opts == options@,
            eff@ == spec_effective_pattern(opts),
            spec_regex_ok(eff@),
            results@.len() == spec_selected(opts, candidates@.take(i as int)).len(),
            forall|j: int|
                0 <= j < results@.len() ==> entry_of_candidate(
                    #[trigger] results@[j],
                    candidates@[spec_selected(opts, candidates@.take(i as int))[j]],
                ),
        decreases candidates.len() - i,
    {
        let full: bool = match &options.max_results {
            Some(k) => results.len() >= *k,
            None => false,
        };
        proof {
            assert(candidates@.take(i + 1).drop_last() =~= candidates@.take(i as int));
            assert(candidates@.take(i + 1).last() == candidates@[i as int]);
        }
        let ghost prev_results = results@;
        if !full {
            let c: &SearchCandidate = &candidates[i];
            if candidate_included(options, eff.as_str(), c) {
                let entry = FileEntry::new(c.path.clone(), c.size, c.is_dir, c.created, c.modified);
                results.push(entry);
                proof {
                    lemma_selected_step_included(opts, candidates@, i as int, results@.len() - 1);
                    let sel_old = spec_selected(opts, candidates@.take(i as int));
                    let sel_new = spec_selected(opts, candidates@.take(i + 1));
                    assert(sel_new == sel_old.push(i as int));
                    assert forall|j: int| 0 <= j < results@.len() implies entry_of_candidate(
                        #[trigger] results@[j],
                        candidates@[sel_new[j]],
                    ) by {
                        if j < results@.len() - 1 {
                            assert(sel_new[j] == sel_old[j]);
                            assert(results@[j] == prev_results[j]);
                            assert(entry_of_candidate(prev_results[j], candidates@[sel_old[j]]));
                        } else {
                            assert(sel_new[j] == i as int);
                            assert(entry_of_candidate(results@[j], candidates@[i as int]));
                        }
                    }
                }
            } else {
                proof {
                    lemma_selected_step_excluded(opts, candidates@, i as int);
                }
            }
        } else {
            proof {
                lemma_selected_step_full(opts, candidates@, i as int, results@.len() as int);
            }
        }
        i += 1;
    }
    proof {
        assert(candidates@.take(candidates@.len() as int) =~= candidates@);
        assert(spec_selected(opts, candidates@.take(candidates@.len() as int)) == spec_selected(
            opts,
            candidates@,
        ));
    }
    Ok(results)
}

proof fn lemma_selected_step_included(
    opts: SearchSpec,
    cands: Seq<SearchCandidate>,
    i: int,
    prev_len: int,
)
    requires
        0 <= i < cands.len(),
        spec_included(opts, cands[i]),
        prev_len == spec_selected(opts, cands.take(i)).len(),
        match opts.max_results {
            Some(k) => prev_len < k,
            None => true,
        },
    ensures
        spec_selected(opts, cands.take(i + 1)) =~= spec_selected(opts, cands.take(i)).push(i),
{
    assert(cands.take(i + 1).drop_last() =~= cands.take(i));
    assert(cands.take(i + 1).last() == cands[i]);
    let inc_prev = included_indices(opts, cands.take(i));
    let inc_next = included_indices(opts, cands.take(i + 1));
    assert(inc_next =~= inc_prev.push(i));
    match opts.max_results {
        Some(k) => {
            lemma_included_len_bound(opts, cands.take(i));
            assert(inc_prev.len() >= spec_selected(opts, cands.take(i)).len());
            if inc_prev.len() <= k {
                assert(spec_selected(opts, cands.take(i)) =~= inc_prev);
                assert(spec_selected(opts, cands.take(i + 1)) =~= inc_prev.push(i));
            } else {
                assert(spec_selected(opts, cands.take(i)).len() == k);
                assert(false);
            }
        },
        None => {},
    }
}

proof fn lemma_selected_step_excluded(opts: SearchSpec, cands: Seq<SearchCandidate>, i: int)
    requires
        0 <= i < cands.len(),
        !spec_included(opts, cands[i]),
    ensures
        spec_selected(opts, cands.take(i + 1)) =~= spec_selected(opts, cands.take(i)),
{
    assert(cands.take(i + 1).drop_last() =~= cands.take(i));
    assert(cands.take(i + 1).last() == cands[i]);
    assert(included_indices(opts, cands.take(i + 1)) =~= included_indices(opts, cands.take(i)));
}

/// Once the cap is reached, further candidates change nothing.
proof fn lemma_selected_step_full(
    opts: SearchSpec,
    cands: Seq<SearchCandidate>,
    i: int,
    cur_len: int,
)
    requires
        0 <= i < cands.len(),
        cur_len == spec_selected(opts, cands.take(i)).len(),
        match opts.max_results {
            Some(k) => cur_len >= k,
            None => false,
        },
    ensures
        spec_selected(opts, cands.take(i + 1)) =~= spec_selected(opts, cands.take(i)),
{
    assert(cands.take(i + 1).drop_last() =~= cands.take(i));
    assert(cands.take(i + 1).last() == cands[i]);
    let k = opts.max_results->Some_0 as int;
    let inc_prev = included_indices(opts, cands.take(i));
    let inc_next = included_indices(opts, cands.take(i + 1));
    lemma_included_len_bound(opts, cands.take(i));
    assert(spec_selected(opts, cands.take(i)).len() <= k);
    assert(cur_len == k);
    assert(inc_prev.len() >= k);
    if spec_included(opts, cands[i]) {
        assert(inc_next =~= inc_prev.push(i));
    } else {
        assert(inc_next =~= inc_prev);
    }
    assert(spec_selected(opts, cands.take(i + 1)) =~= inc_next.take(k));
    assert(inc_next.take(k) =~= inc_prev.take(k));
}

proof fn lemma_included_len_bound(opts: SearchSpec, cands: Seq<SearchCandidate>)
    ensures
        spec_selected(opts, cands).len() <= included_indices(opts, cands).len(),
        match opts.max_results {
            Some(k) => spec_selected(opts, cands).len() == vstd::math::min(
                k as int,
                included_indices(opts, cands).len() as int,
            ),
            None => true,
        },
{
}

// ---------------------------------------------------------------------
// Convenience searches
// ---------------------------------------------------------------------

/// Find entries whose name matches `pattern`, case-insensitively, over
/// the whole walked tree.
pub fn find_files(pattern: &str, candidates: &Vec<SearchCandidate>) -> (r: Result<
    Vec<FileEntry>,
    FsError,
>)
    ensures
        ({
            let opts = spec_find_options(pattern@);
            &&& (r is Ok) == spec_regex_ok(spec_effective_pattern(opts))
            &&& match r {
                Ok(entries) => {
                    let sel = spec_selected(opts, candidates@);
                    &&& entries@.len() == sel.len()
                    &&& forall|j: int|
                        0 <= j < sel.len() ==> 0 <= sel[j] < candidates@.len()
                            && entry_of_candidate(#[trigger] entries@[j], candidates@[sel[j]])
                },
                Err(e) => e is InvalidRegex,
            }
        }),
{
    let options = SearchOptions {
        pattern: pattern.to_owned(),
        search_contents: false,
        case_sensitive: false,
        max_depth: None,
        extensions: None,
        max_results: None,
    };
    let r = search_files(&options, candidates);
    proof {
        assert(options@ == spec_find_options(pattern@));
        lemma_selected_bounds(spec_find_options(pattern@), candidates@);
    }
    r
}

/// The configuration [`find_files`] searches with: the pattern as
/// given, case-insensitive, names only, uncapped.
pub open spec fn spec_find_options(pattern: Seq<char>) -> SearchSpec {
    SearchSpec {
        pattern: pattern,
        search_contents: false,
        case_sensitive: false,
        max_depth: None,
        extensions: None,
        max_results: None,
    }
}

/// The configuration [`find_files_by_extension`] searches with: the
/// anchored pattern for the extension, case-insensitive, and the
/// one-element extension allow-list.
pub open spec fn spec_find_by_extension_options(ext: Seq<char>) -> SearchSpec {
    SearchSpec {
        pattern: "\\."@ + ext + "$"@,
        search_contents: false,
        case_sensitive: false,
        max_depth: None,
        extensions: Some(seq![ext]),
        max_results: None,
    }
}

/// Find entries whose file name ends in `.ext`, case-insensitively.
pub fn find_files_by_extension(extension: &str, candidates: &Vec<SearchCandidate>) -> (r: Result<
    Vec<FileEntry>,
    FsError,
>)
    ensures
        ({
            let opts = spec_find_by_extension_options(extension@);
            &&& (r is Ok) == spec_regex_ok(spec_effective_pattern(opts))
            &&& match r {
                Ok(entries) => {
                    let sel = spec_selected(opts, candidates@);
                    &&& entries@.len() == sel.len()
                    &&& forall|j: int|
                        0 <= j < sel.len() ==> 0 <= sel[j] < candidates@.len()
                            && entry_of_candidate(#[trigger] entries@[j], candidates@[sel[j]])
                },
                Err(e) => e is InvalidRegex,
            }
        }),
{
    let prefix: String = "\\.".to_owned();
    let with_ext = prefix.concat(extension);
    let pattern = with_ext.concat("$");
    let mut exts: Vec<String> = Vec::new();
    exts.push(extension.to_owned());
    let options = SearchOptions {
        pattern,
        search_contents: false,
        case_sensitive: false,
        max_depth: None,
        extensions: Some(exts),
        max_results: None,
    };
    let r = search_files(&options, candidates);
    proof {
        assert(options@.extensions->Some_0 =~= seq![extension@]);
        assert(options@ == spec_find_by_extension_options(extension@));
        lemma_selected_bounds(spec_find_by_extension_options(extension@), candidates@);
    }
    r
}

} // verus!
