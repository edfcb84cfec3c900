//! The monitor engine: typed change events, the declarative filter
//! applied to every raw notification, the bounded insertion-ordered
//! history, and the watch session that debounces rapid repeats per
//! path.
//!
//! The OS-level watch lives outside the crate; it hands every raw
//! notification to [`WatchSession::observe`] as plain values, and polls
//! accepted events back with [`WatchSession::next_event`].

use vstd::prelude::*;
use crate::paths::{extension_of, extension_spec};
use crate::text::chars_eq;
use crate::text::chars_to_vec;
use std::collections::VecDeque;

verus! {

/// The kind of a change event.
#[derive(Debug, Clone, Copy, PartialEq, Eq, Hash, Structural)]
pub enum FsEventType {
    /// An entry was created.
    Create,
    /// An entry's contents changed.
    Modify,
    /// An entry was removed.
    Remove,
    /// An entry was renamed.
    Rename,
    /// An entry was accessed.
    Access,
    /// An entry's metadata changed, or the notification kind was not
    /// recognized.
    Metadata,
}

/// The kind of a raw OS notification, as the watch backend reports it.
#[derive(Debug, Clone, Copy, PartialEq, Eq, Structural)]
pub enum RawEventKind {
    /// Something was created.
    Create,
    /// Contents changed.
    Modify,
    /// A name changed.
    ModifyName,
    /// Something was removed.
    Remove,
    /// Something was accessed.
    Access,
    /// Any other notification.
    Other,
}

/// How raw notification kinds map to event kinds: renames are modify
/// notifications about a name, and unrecognized kinds count as
/// metadata changes.
pub open spec fn spec_map_kind(raw: RawEventKind) -> FsEventType {
    match raw {
        RawEventKind::Create => FsEventType::Create,
        RawEventKind::Modify => FsEventType::Modify,
        RawEventKind::ModifyName => FsEventType::Rename,
        RawEventKind::Remove => FsEventType::Remove,
        RawEventKind::Access => FsEventType::Access,
        RawEventKind::Other => FsEventType::Metadata,
    }
}

/// Map a raw notification kind to the event kind it is reported as.
pub fn map_event_kind(raw: RawEventKind) -> (r: FsEventType)
    ensures
        r == spec_map_kind(raw),
{
    match raw {
        RawEventKind::Create => FsEventType::Create,
        RawEventKind::Modify => FsEventType::Modify,
        RawEventKind::ModifyName => FsEventType::Rename,
        RawEventKind::Remove => FsEventType::Remove,
        RawEventKind::Access => FsEventType::Access,
        RawEventKind::Other => FsEventType::Metadata,
    }
}

/// One accepted change event.  The timestamp is in milliseconds since
/// the Unix epoch, as handed in by the watch; events are never mutated
/// after creation.
#[derive(Debug, Clone)]
pub struct FsEvent {
    /// The kind of change.
    pub event_type: FsEventType,
    /// The affected path.
    pub path: String,
    /// When the event was accepted, in milliseconds since the Unix epoch.
    pub timestamp: u64,
    /// Free-form metadata pairs.
    pub metadata: Vec<(String, String)>,
}

/// The mathematical image of a change event, with strings as
/// character sequences.
pub struct FsEventView {
    pub event_type: FsEventType,
    pub path: Seq<char>,
    pub timestamp: u64,
    pub metadata: Seq<(Seq<char>, Seq<char>)>,
}

impl View for FsEvent {
    type V = FsEventView;

    open spec fn view(&self) -> FsEventView {
        FsEventView {
            event_type: self.event_type,
            path: self.path@,
            timestamp: self.timestamp,
            metadata: self.metadata.deep_view(),
        }
    }
}

/// The views of a sequence of events.
pub open spec fn events_view(s: Seq<FsEvent>) -> Seq<FsEventView> {
    s.map_values(|e: FsEvent| e@)
}

impl FsEvent {
    /// A copy of the event that carries the same values.
    pub fn duplicate(&self) -> (r: FsEvent)
        ensures
            r@ == self@,
    {
        let mut metadata: Vec<(String, String)> = Vec::new();
        let mut i: usize = 0;
        while i < self.metadata.len()
            invariant
                i <= self.metadata@.len(),
                metadata@ == self.metadata@.take(i as int),
            decreases self.metadata.len() - i,
        {
            let pair: &(String, String) = &self.metadata[i];
            metadata.push((pair.0.clone(), pair.1.clone()));
            assert(metadata@ =~= self.metadata@.take(i + 1));
            i += 1;
        }
        assert(metadata@ =~= self.metadata@);
        let out = FsEvent {
            event_type: self.event_type,
            path: self.path.clone(),
            timestamp: self.timestamp,
            metadata,
        };
        proof {
            assert(out.metadata.deep_view() =~= self.metadata.deep_view());
        }
        out
    }
}

// ---------------------------------------------------------------------
// The monitoring filter
// ---------------------------------------------------------------------

/// Whether a glob pattern is well-formed.
pub uninterp spec fn spec_glob_ok(pattern: Seq<char>) -> bool;

/// Whether a well-formed glob pattern matches a path; a function of
/// the pattern and the path alone.
pub uninterp spec fn spec_glob_match(pattern: Seq<char>, path: Seq<char>) -> bool;

/// A pattern accepts a path when it is well-formed and matches it;
/// a malformed pattern accepts nothing.
pub open spec fn spec_glob_accepts(pattern: Seq<char>, path: Seq<char>) -> bool {
    spec_glob_ok(pattern) && spec_glob_match(pattern, path)
}

/// Relies on `glob::Pattern::new` and `glob::Pattern::matches`: a
/// well-formed pattern's match result depends on the pattern and the
/// path alone; a malformed pattern matches nothing.
#[verifier::external_body]
fn glob_accepts(pattern: &str, path: &str) -> (r: bool)
    ensures
        r == (spec_glob_ok(pattern@) && spec_glob_match(pattern@, path@)),
{
    glob::Pattern::new(pattern).map(|p| p.matches(path)).unwrap_or(false)
}

/// The declarative filter a watch applies to each notification's path.
#[derive(Debug, Clone)]
pub struct MonitoringFilter {
    /// Glob patterns of which one must match, when any are given.
    pub include_patterns: Vec<String>,
    /// Glob patterns of which none may match.
    pub exclude_patterns: Vec<String>,
    /// The set of accepted event kinds.
    pub event_types: Vec<FsEventType>,
    /// Minimum size of the affected file, when bounded.
    pub min_size: Option<u64>,
    /// Maximum size of the affected file, when bounded.
    pub max_size: Option<u64>,
    /// The set of accepted extensions; empty accepts every extension.
    pub extensions: Vec<String>,
}

/// Some pattern of the list accepts the path.
pub open spec fn spec_any_glob(patterns: Seq<String>, path: Seq<char>) -> bool {
    exists|i: int| 0 <= i < patterns.len() && spec_glob_accepts(patterns[i]@, path)
}

/// The path-based filter stages: when include patterns exist, one must
/// accept the path; no exclude pattern may accept it; and when the
/// extension set is non-empty, a path that has an extension must have
/// one of the listed ones (a path without an extension passes).
pub open spec fn spec_filter_matches(f: MonitoringFilter, path: Seq<char>) -> bool {
    &&& (f.include_patterns@.len() > 0 ==> spec_any_glob(f.include_patterns@, path))
    &&& !spec_any_glob(f.exclude_patterns@, path)
    &&& (f.extensions@.len() > 0 ==> match extension_spec(path) {
        Some(e) => exists|k: int| 0 <= k < f.extensions@.len() && f.extensions@[k]@ == e,
        None => true,
    })
}

/// Whether some pattern of the list accepts the path.
fn any_glob(patterns: &Vec<String>, path: &str) -> (r: bool)
    ensures
        r == spec_any_glob(patterns@, path@),
{
    let mut i: usize = 0;
    while i < patterns.len()
        invariant
            i <= patterns@.len(),
            forall|j: int| 0 <= j < i ==> !spec_glob_accepts(patterns@[j]@, path@),
        decreases patterns.len() - i,
    {
        if glob_accepts(patterns[i].as_str(), path) {
            return true;
        }
        i += 1;
    }
    false
}

impl MonitoringFilter {
    /// A filter that accepts nothing by kind and everything by path:
    /// no patterns, no size bounds, no extensions, no accepted kinds.
    pub fn new() -> (r: MonitoringFilter)
        ensures
            r.include_patterns@ == Seq::<String>::empty(),
            r.exclude_patterns@ == Seq::<String>::empty(),
            r.event_types@ == Seq::<FsEventType>::empty(),
            r.min_size is None,
            r.max_size is None,
            r.extensions@ == Seq::<String>::empty(),
    {
        MonitoringFilter {
            include_patterns: Vec::new(),
            exclude_patterns: Vec::new(),
            event_types: Vec::new(),
            min_size: None,
            max_size: None,
            extensions: Vec::new(),
        }
    }

    /// Whether the filter's path stages accept this path.
    pub fn matches(&self, path: &str) -> (r: bool)
        ensures
            r == spec_filter_matches(*self, path@),
    {
        if self.include_patterns.len() > 0 {
            if !any_glob(&self.include_patterns, path) {
                return false;
            }
        }
        if any_glob(&self.exclude_patterns, path) {
            return false;
        }
        if self.extensions.len() > 0 {
            match extension_of(path) {
                Some(ext) => {
                    let ev = chars_to_vec(ext.as_str());
                    let mut k: usize = 0;
                    while k < self.extensions.len()
                        invariant
                            k <= self.extensions@.len(),
                            ev@ == extension_spec(path@)->Some_0,
                            extension_spec(path@) is Some,
                            self.include_patterns@.len() > 0 ==> spec_any_glob(
                                self.include_patterns@,
                                path@,
                            ),
                            !spec_any_glob(self.exclude_patterns@, path@),
                            forall|m: int|
                                0 <= m < k ==> self.extensions@[m]@ != extension_spec(
                                    path@,
                                )->Some_0,
                        decreases self.extensions.len() - k,
                    {
                        let lv = chars_to_vec(self.extensions[k].as_str());
                        if chars_eq(&lv, &ev) {
                            assert(self.extensions@[k as int]@ == extension_spec(
                                path@,
                            )->Some_0);
                            assert(spec_filter_matches(*self, path@));
                            return true;
                        }
                        k += 1;
                    }
                    return false;
                },
                None => {},
            }
        }
        true
    }
}

/// A non-empty extension set that lists nothing equal to the path's
/// extension rejects the path, whatever the other stages say.
pub proof fn lemma_filter_extension_excludes(f: MonitoringFilter, path: Seq<char>)
    requires
        f.extensions@.len() > 0,
        extension_spec(path) is Some,
        forall|k: int|
            0 <= k < f.extensions@.len() ==> f.extensions@[k]@ != extension_spec(path)->Some_0,
    ensures
        !spec_filter_matches(f, path),
{
}

/// With no patterns and an empty extension set, every path passes the
/// filter's path stages.
pub proof fn lemma_filter_empty_accepts(f: MonitoringFilter, path: Seq<char>)
    requires
        f.include_patterns@.len() == 0,
        f.exclude_patterns@.len() == 0,
        f.extensions@.len() == 0,
    ensures
        spec_filter_matches(f, path),
{
}

// ---------------------------------------------------------------------
// Monitoring settings
// ---------------------------------------------------------------------

/// The settings of one watch, persisted and restored as a unit.
#[derive(Debug, Clone)]
pub struct MonitoringSettings {
    /// The watched path.
    pub path: String,
    /// Whether the watch covers the whole subtree.
    pub recursive: bool,
    /// The filter applied to each notification.
    pub filter: MonitoringFilter,
    /// The largest number of events the history retains.
    pub max_history: usize,
    /// The debounce interval, in milliseconds.
    pub debounce_ms: u64,
}

// ---------------------------------------------------------------------
// The bounded history
// ---------------------------------------------------------------------

/// The history after appending one event: when the buffer is at or
/// above its bound, the oldest event leaves first.
pub open spec fn spec_add_event(
    events: Seq<FsEventView>,
    max_events: int,
    e: FsEventView,
) -> Seq<FsEventView> {
    if events.len() >= max_events && events.len() > 0 {
        events.drop_first().push(e)
    } else {
        events.push(e)
    }
}

/// The history after appending a whole sequence of events in order.
pub open spec fn spec_fold_add(events: Seq<FsEventView>, max_events: int) -> Seq<FsEventView>
    decreases events.len(),
{
    if events.len() == 0 {
        Seq::empty()
    } else {
        spec_add_event(spec_fold_add(events.drop_last(), max_events), max_events, events.last())
    }
}

/// A fixed-capacity, insertion-ordered buffer of change events.
/// Overflow evicts the oldest entry.
#[derive(Debug, Clone)]
pub struct MonitoringHistory {
    /// The retained events, oldest first.
    pub events: VecDeque<FsEvent>,
    /// The largest number of events retained.
    pub max_events: usize,
}

impl MonitoringHistory {
    /// The buffer never outgrows its bound (a bound of zero still
    /// admits one event, since eviction happens before insertion).
    pub open spec fn wf(&self) -> bool {
        self.events@.len() <= vstd::math::max(self.max_events as int, 1)
    }

    /// An empty history with the given bound.
    pub fn new(max_events: usize) -> (r: MonitoringHistory)
        ensures
            r.events@ == Seq::<FsEvent>::empty(),
            events_view(r.events@) == Seq::<FsEventView>::empty(),
            r.max_events == max_events,
            r.wf(),
    {
        MonitoringHistory { events: VecDeque::with_capacity(max_events), max_events }
    }

    /// Append one event, evicting the oldest entry when the buffer is
    /// full.
    pub fn add_event(&mut self, event: FsEvent)
        ensures
            events_view(final(self).events@) == spec_add_event(
                events_view(old(self).events@),
                old(self).max_events as int,
                event@,
            ),
            final(self).max_events == old(self).max_events,
            old(self).wf() ==> final(self).wf(),
    {
        let ghost before = events_view(self.events@);
        if self.events.len() >= self.max_events {
            let ghost mid = self.events@;
            let _ = self.events.pop_front();
            proof {
                if mid.len() > 0 {
                    assert(events_view(self.events@) =~= before.drop_first());
                }
            }
        }
        let ghost kept = events_view(self.events@);
        self.events.push_back(event);
        proof {
            assert(events_view(self.events@) =~= kept.push(event@));
            assert(events_view(self.events@) =~= spec_add_event(
                before,
                self.max_events as int,
                event@,
            ));
        }
    }

    /// Rebuild a history by appending the given events, oldest first,
    /// under the given bound: exactly how a persisted history is
    /// restored.
    pub fn from_events(events: &Vec<FsEvent>, max_events: usize) -> (r: MonitoringHistory)
        ensures
            events_view(r.events@) == spec_fold_add(events_view(events@), max_events as int),
            r.max_events == max_events,
            r.wf(),
    {
        let mut history = MonitoringHistory::new(max_events);
        let mut i: usize = 0;
        proof {
            assert(events_view(events@).take(0) =~= Seq::<FsEventView>::empty());
            assert(events_view(history.events@) =~= spec_fold_add(
                events_view(events@).take(0),
                max_events as int,
            ));
        }
        while i < events.len()
            invariant
                i <= events@.len(),
                history.max_events == max_events,
                history.wf(),
                events_view(history.events@) == spec_fold_add(
                    events_view(events@).take(i as int),
                    max_events as int,
                ),
            decreases events.len() - i,
        {
            proof {
                assert(events_view(events@).take(i + 1).drop_last() =~= events_view(
                    events@,
                ).take(i as int));
                assert(events_view(events@).take(i + 1).last() == events@[i as int]@);
            }
            history.add_event(events[i].duplicate());
            i += 1;
        }
        proof {
            assert(events_view(events@).take(events@.len() as int) =~= events_view(events@));
        }
        history
    }

    /// The events whose timestamps lie in `[start, end]`, oldest first.
    pub fn get_events_in_range(&self, start: u64, end: u64) -> (r: Vec<FsEvent>)
        ensures
            events_view(r@) == spec_in_range(events_view(self.events@), start, end),
    {
        let ghost all = events_view(self.events@);
        let mut out: Vec<FsEvent> = Vec::new();
        let mut i: usize = 0;
        proof {
            assert(all.take(0) =~= Seq::<FsEventView>::empty());
            assert(events_view(out@) =~= spec_in_range(all.take(0), start, end));
        }
        while i < self.events.len()
            invariant
                i <= self.events@.len(),
                all == events_view(self.events@),
                events_view(out@) == spec_in_range(all.take(i as int), start, end),
            decreases self.events.len() - i,
        {
            proof {
                assert(all.take(i + 1).drop_last() =~= all.take(i as int));
                assert(all.take(i + 1).last() == self.events@[i as int]@);
            }
            let ghost prev = events_view(out@);
            let e: &FsEvent = &self.events[i];
            if e.timestamp >= start && e.timestamp <= end {
                out.push(e.duplicate());
                proof {
                    assert(events_view(out@) =~= prev.push(self.events@[i as int]@));
                }
            }
            proof {
                assert(events_view(out@) =~= spec_in_range(all.take(i + 1), start, end));
            }
            i += 1;
        }
        proof {
            assert(all.take(self.events@.len() as int) =~= all);
        }
        out
    }

    /// The events of one kind, oldest first.
    pub fn get_events_by_type(&self, event_type: &FsEventType) -> (r: Vec<FsEvent>)
        ensures
            events_view(r@) == spec_by_type(events_view(self.events@), *event_type),
    {
        let ghost all = events_view(self.events@);
        let mut out: Vec<FsEvent> = Vec::new();
        let mut i: usize = 0;
        proof {
            assert(all.take(0) =~= Seq::<FsEventView>::empty());
            assert(events_view(out@) =~= spec_by_type(all.take(0), *event_type));
        }
        while i < self.events.len()
            invariant
                i <= self.events@.len(),
                all == events_view(self.events@),
                events_view(out@) == spec_by_type(all.take(i as int), *event_type),
            decreases self.events.len() - i,
        {
            proof {
                assert(all.take(i + 1).drop_last() =~= all.take(i as int));
                assert(all.take(i + 1).last() == self.events@[i as int]@);
            }
            let ghost prev = events_view(out@);
            let e: &FsEvent = &self.events[i];
            if e.event_type == *event_type {
                out.push(e.duplicate());
                proof {
                    assert(events_view(out@) =~= prev.push(self.events@[i as int]@));
                }
            }
            proof {
                assert(events_view(out@) =~= spec_by_type(all.take(i + 1), *event_type));
            }
            i += 1;
        }
        proof {
            assert(all.take(self.events@.len() as int) =~= all);
        }
        out
    }
}

/// The events of a sequence whose timestamps lie in `[start, end]`.
pub open spec fn spec_in_range(events: Seq<FsEventView>, start: u64, end: u64) -> Seq<
    FsEventView,
>
    decreases events.len(),
{
    if events.len() == 0 {
        Seq::empty()
    } else {
        spec_in_range(events.drop_last(), start, end) + (if events.last().timestamp >= start
            && events.last().timestamp <= end {
            seq![events.last()]
        } else {
            Seq::empty()
        })
    }
}

/// The events of a sequence that have the given kind.
pub open spec fn spec_by_type(events: Seq<FsEventView>, event_type: FsEventType) -> Seq<
    FsEventView,
>
    decreases events.len(),
{
    if events.len() == 0 {
        Seq::empty()
    } else {
        spec_by_type(events.drop_last(), event_type) + (if events.last().event_type
            == event_type {
            seq![events.last()]
        } else {
            Seq::empty()
        })
    }
}

/// Bounded retention: appending any events to an empty history of
/// bound `max_events >= 1` retains exactly the most recent
/// `max_events` of them, in their original relative order.
pub proof fn lemma_history_holds_last(events: Seq<FsEventView>, max_events: int)
    requires
        max_events >= 1,
    ensures
        spec_fold_add(events, max_events) == (if events.len() <= max_events {
            events
        } else {
            events.skip(events.len() - max_events)
        }),
    decreases events.len(),
{
    if events.len() > 0 {
        lemma_history_holds_last(events.drop_last(), max_events);
        let prev = spec_fold_add(events.drop_last(), max_events);
        if events.len() - 1 <= max_events {
            assert(prev == events.drop_last());
            if events.len() <= max_events {
                assert(prev.push(events.last()) =~= events);
            } else {
                assert(prev.drop_first().push(events.last()) =~= events.skip(
                    events.len() - max_events,
                ));
            }
        } else {
            assert(prev == events.drop_last().skip(events.len() - 1 - max_events));
            assert(prev.len() == max_events);
            assert(prev.drop_first().push(events.last()) =~= events.skip(
                events.len() - max_events,
            ));
        }
    }
}


// ---------------------------------------------------------------------
// The watch session
// ---------------------------------------------------------------------

/// The last-accepted time recorded for a path: the value of its first
/// entry in the per-path clock list.
pub open spec fn spec_lookup(m: Seq<(String, u64)>, p: Seq<char>) -> Option<u64>
    decreases m.len(),
{
    if m.len() == 0 {
        None
    } else if m[0].0@ == p {
        Some(m[0].1)
    } else {
        spec_lookup(m.drop_first(), p)
    }
}

proof fn lemma_lookup_skip(m: Seq<(String, u64)>, p: Seq<char>, i: int)
    requires
        0 <= i <= m.len(),
        forall|j: int| 0 <= j < i ==> (#[trigger] m[j]).0@ != p,
    ensures
        spec_lookup(m, p) == spec_lookup(m.skip(i), p),
    decreases i,
{
    if i > 0 {
        assert(m.skip(0) =~= m);
        assert(m.drop_first() =~= m.skip(1));
        lemma_lookup_skip(m.skip(1), p, i - 1);
        assert(m.skip(1).skip(i - 1) =~= m.skip(i));
    } else {
        assert(m.skip(0) =~= m);
    }
}

proof fn lemma_lookup_update_hit(m: Seq<(String, u64)>, idx: int, v: (String, u64))
    requires
        0 <= idx < m.len(),
        m[idx].0@ == v.0@,
        forall|j: int| 0 <= j < idx ==> (#[trigger] m[j]).0@ != v.0@,
    ensures
        spec_lookup(m.update(idx, v), v.0@) == Some(v.1),
    decreases idx,
{
    if idx > 0 {
        assert(m.update(idx, v).drop_first() =~= m.drop_first().update(idx - 1, v));
        lemma_lookup_update_hit(m.drop_first(), idx - 1, v);
    }
}

proof fn lemma_lookup_update_frame(m: Seq<(String, u64)>, idx: int, v: (String, u64), q: Seq<char>)
    requires
        0 <= idx < m.len(),
        m[idx].0@ == v.0@,
        q != v.0@,
    ensures
        spec_lookup(m.update(idx, v), q) == spec_lookup(m, q),
    decreases idx,
{
    if idx == 0 {
        assert(m.update(0, v).drop_first() =~= m.drop_first());
    } else {
        assert(m.update(idx, v).drop_first() =~= m.drop_first().update(idx - 1, v));
        lemma_lookup_update_frame(m.drop_first(), idx - 1, v, q);
    }
}

proof fn lemma_lookup_push_hit(m: Seq<(String, u64)>, v: (String, u64))
    requires
        spec_lookup(m, v.0@) is None,
    ensures
        spec_lookup(m.push(v), v.0@) == Some(v.1),
    decreases m.len(),
{
    if m.len() == 0 {
        assert(m.push(v)[0] == v);
    } else {
        assert(m.push(v).drop_first() =~= m.drop_first().push(v));
        lemma_lookup_push_hit(m.drop_first(), v);
    }
}

proof fn lemma_lookup_push_frame(m: Seq<(String, u64)>, v: (String, u64), q: Seq<char>)
    requires
        q != v.0@,
    ensures
        spec_lookup(m.push(v), q) == spec_lookup(m, q),
    decreases m.len(),
{
    if m.len() == 0 {
        assert(m.push(v)[0] == v);
        assert(m.push(v).drop_first() =~= Seq::<(String, u64)>::empty());
        assert(spec_lookup(Seq::<(String, u64)>::empty(), q) is None);
    } else {
        assert(m.push(v)[0] == m[0]);
        assert(m.push(v).drop_first() =~= m.drop_first().push(v));
        lemma_lookup_push_frame(m.drop_first(), v, q);
    }
}

/// Whether a notification is accepted: its path must pass the filter,
/// its mapped kind must be among the accepted kinds, its size (when
/// known) must lie within the bounds, and no event for the same path
/// may have been accepted less than the debounce interval before
/// `now_ms`.
pub open spec fn spec_accepts(
    settings: MonitoringSettings,
    last: Seq<(String, u64)>,
    raw: RawEventKind,
    path: Seq<char>,
    size: Option<u64>,
    now_ms: u64,
) -> bool {
    &&& spec_filter_matches(settings.filter, path)
    &&& settings.filter.event_types@.contains(spec_map_kind(raw))
    &&& (match size {
        Some(sz) => (match settings.filter.min_size {
            Some(m) => sz >= m,
            None => true,
        }) && (match settings.filter.max_size {
            Some(m) => sz <= m,
            None => true,
        }),
        None => true,
    })
    &&& (match spec_lookup(last, path) {
        Some(t) => now_ms >= t + settings.debounce_ms,
        None => true,
    })
}

/// One active watch: it owns the debounce clocks, the bounded history
/// and the queue of accepted events.  Idle is the absence of a
/// session; dropping the session ends the watch.
#[derive(Debug)]
pub struct WatchSession {
    /// The settings the watch was started with.
    pub settings: MonitoringSettings,
    /// The bounded history of accepted events.
    pub history: MonitoringHistory,
    /// The last accepted time per path, in milliseconds.
    pub last_seen: Vec<(String, u64)>,
    /// Accepted events not yet retrieved.
    pub pending: VecDeque<FsEvent>,
}

impl WatchSession {
    /// The session's invariant: the history is bounded by the settings.
    pub open spec fn wf(&self) -> bool {
        &&& self.history.wf()
        &&& self.history.max_events == self.settings.max_history
    }

    /// Start a session: empty history, no debounce clocks, no pending
    /// events.
    pub fn new(settings: MonitoringSettings) -> (r: WatchSession)
        ensures
            r.wf(),
            r.settings == settings,
            r.history.events@ == Seq::<FsEvent>::empty(),
            r.last_seen@ == Seq::<(String, u64)>::empty(),
            r.pending@ == Seq::<FsEvent>::empty(),
    {
        let max_history = settings.max_history;
        WatchSession {
            settings,
            history: MonitoringHistory::new(max_history),
            last_seen: Vec::new(),
            pending: VecDeque::new(),
        }
    }

    /// Handle one raw notification.  The notification is accepted
    /// exactly when the filter, kind, size and debounce stages all
    /// pass; an accepted notification becomes an event with the mapped
    /// kind, the path, the given time and empty metadata, is appended
    /// to the history and the pending queue, and resets the path's
    /// debounce clock.  A rejected notification changes nothing.
    pub fn observe(
        &mut self,
        raw: RawEventKind,
        path: String,
        size: Option<u64>,
        now_ms: u64,
    ) -> (accepted: bool)
        requires
            old(self).wf(),
        ensures
            final(self).wf(),
            final(self).settings == old(self).settings,
            accepted == spec_accepts(
                old(self).settings,
                old(self).last_seen@,
                raw,
                path@,
                size,
                now_ms,
            ),
            accepted ==> ({
                let ev = FsEventView {
                    event_type: spec_map_kind(raw),
                    path: path@,
                    timestamp: now_ms,
                    metadata: Seq::empty(),
                };
                &&& events_view(final(self).history.events@) == spec_add_event(
                    events_view(old(self).history.events@),
                    old(self).settings.max_history as int,
                    ev,
                )
                &&& events_view(final(self).pending@) == events_view(old(self).pending@).push(ev)
                &&& spec_lookup(final(self).last_seen@, path@) == Some(now_ms)
                &&& forall|q: Seq<char>|
                    q != path@ ==> spec_lookup(final(self).last_seen@, q)
                        == #[trigger] spec_lookup(old(self).last_seen@, q)
            }),
            !accepted ==> *final(self) == *old(self),
    {
        if !self.settings.filter.matches(path.as_str()) {
            return false;
        }
        let kind = map_event_kind(raw);
        if !kinds_contain(&self.settings.filter.event_types, kind) {
            return false;
        }
        match size {
            Some(sz) => {
                match &self.settings.filter.min_size {
                    Some(m) => {
                        if sz < *m {
                            return false;
                        }
                    },
                    None => {},
                }
                match &self.settings.filter.max_size {
                    Some(m) => {
                        if sz > *m {
                            return false;
                        }
                    },
                    None => {},
                }
            },
            None => {},
        }
        let found = find_last_seen(&self.last_seen, &path);
        match found {
            Some(idx) => {
                let t: u64 = self.last_seen[idx].1;
                if now_ms < t {
                    return false;
                }
                if now_ms - t < self.settings.debounce_ms {
                    return false;
                }
                let ghost before = self.last_seen@;
                self.last_seen[idx] = (path.clone(), now_ms);
                proof {
                    let v = self.last_seen@[idx as int];
                    lemma_lookup_update_hit(before, idx as int, v);
                    assert forall|q: Seq<char>| q != path@ implies spec_lookup(
                        self.last_seen@,
                        q,
                    ) == #[trigger] spec_lookup(before, q) by {
                        lemma_lookup_update_frame(before, idx as int, v, q);
                    }
                }
            },
            None => {
                let ghost before = self.last_seen@;
                self.last_seen.push((path.clone(), now_ms));
                proof {
                    let v = self.last_seen@.last();
                    lemma_lookup_push_hit(before, v);
                    assert forall|q: Seq<char>| q != path@ implies spec_lookup(
                        self.last_seen@,
                        q,
                    ) == #[trigger] spec_lookup(before, q) by {
                        lemma_lookup_push_frame(before, v, q);
                    }
                }
            },
        }
        let ghost path_view = path@;
        let event = FsEvent {
            event_type: kind,
            path,
            timestamp: now_ms,
            metadata: Vec::new(),
        };
        proof {
            assert(event@.metadata =~= Seq::<(Seq<char>, Seq<char>)>::empty());
            assert(event@ == (FsEventView {
                event_type: spec_map_kind(raw),
                path: path_view,
                timestamp: now_ms,
                metadata: Seq::empty(),
            }));
        }
        let queued = event.duplicate();
        let ghost hist_before = events_view(self.history.events@);
        let ghost pend_before = events_view(self.pending@);
        self.history.add_event(event);
        self.pending.push_back(queued);
        proof {
            assert(events_view(self.pending@) =~= pend_before.push(self.pending@.last()@));
        }
        true
    }

    /// Retrieve the next queued event without blocking, or nothing
    /// when none is pending.
    pub fn next_event(&mut self) -> (r: Option<FsEvent>)
        requires
            old(self).wf(),
        ensures
            final(self).wf(),
            final(self).settings == old(self).settings,
            final(self).history == old(self).history,
            final(self).last_seen@ == old(self).last_seen@,
            match r {
                Some(e) => old(self).pending@.len() > 0 && e == old(self).pending@[0]
                    && final(self).pending@ == old(self).pending@.subrange(
                    1,
                    old(self).pending@.len() as int,
                ),
                None => old(self).pending@.len() == 0 && final(self).pending@ == old(self).pending@,
            },
    {
        self.pending.pop_front()
    }
}

/// Whether a kind is among the accepted ones.
fn kinds_contain(kinds: &Vec<FsEventType>, kind: FsEventType) -> (r: bool)
    ensures
        r == kinds@.contains(kind),
{
    let mut i: usize = 0;
    while i < kinds.len()
        invariant
            i <= kinds@.len(),
            forall|j: int| 0 <= j < i ==> kinds@[j] != kind,
        decreases kinds.len() - i,
    {
        if kinds[i] == kind {
            assert(kinds@.contains(kind));
            return true;
        }
        i += 1;
    }
    assert(!kinds@.contains(kind));
    false
}

/// Index of the first debounce clock recorded for a path, if any.
fn find_last_seen(m: &Vec<(String, u64)>, path: &String) -> (r: Option<usize>)
    ensures
        match r {
            Some(idx) => idx < m@.len() && m@[idx as int].0@ == path@ && (forall|j: int|
                0 <= j < idx ==> (#[trigger] m@[j]).0@ != path@) && spec_lookup(m@, path@)
                == Some(m@[idx as int].1),
            None => (spec_lookup(m@, path@) is None),
        },
{
    let mut i: usize = 0;
    while i < m.len()
        invariant
            i <= m@.len(),
            forall|j: int| 0 <= j < i ==> (#[trigger] m@[j]).0@ != path@,
        decreases m.len() - i,
    {
        if m[i].0.eq(path) {
            proof {
                lemma_lookup_skip(m@, path@, i as int);
                assert(m@.skip(i as int)[0] == m@[i as int]);
            }
            return Some(i);
        }
        i += 1;
    }
    proof {
        lemma_lookup_skip(m@, path@, m@.len() as int);
        assert(m@.skip(m@.len() as int) =~= Seq::<(String, u64)>::empty());
    }
    None
}

} // verus!
