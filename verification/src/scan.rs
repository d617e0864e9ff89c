//! The directory scanner core: which files pass the filter and ignore
//! checks, which directories get announced, and in what order the events
//! come.
//!
//! The surrounding binary walks the file system and hands the walk over as a
//! flat, traversal-ordered list of entries; everything decided here is
//! verified. The ignore verdict of an entry may depend on the file system,
//! so the event machinery is specified over an explicit verdict per entry
//! and proved for every value of those verdicts.

use vstd::prelude::*;

use crate::ignore::is_excluded_fail_open;
use crate::paths::base_name;
use crate::paths::path_is_under;
use crate::paths::spec_base_name;
use crate::paths::spec_is_under;
use crate::pattern::glob_match;
use crate::pattern::FilterPattern;

verus! {

/// One node of the walk, in traversal order: its path, its parent
/// directory's path, whether it is a file, and its depth below the root
/// (direct children of the root have depth 1).
pub struct Entry {
    pub path: String,
    pub parent: String,
    pub is_file: bool,
    pub depth: usize,
}

/// The mathematical image of an [`Entry`].
pub struct EntryV {
    pub path: Seq<char>,
    pub parent: Seq<char>,
    pub is_file: bool,
    pub depth: nat,
}

impl View for Entry {
    type V = EntryV;

    open spec fn view(&self) -> EntryV {
        EntryV {
            path: self.path@,
            parent: self.parent@,
            is_file: self.is_file,
            depth: self.depth as nat,
        }
    }
}

/// An event of the scan: a directory announced before its first kept file,
/// or a kept file.
pub enum ScanEvent {
    Directory(String),
    File(String),
}

/// The mathematical image of a [`ScanEvent`].
pub enum EventV {
    Directory(Seq<char>),
    File(Seq<char>),
}

impl View for ScanEvent {
    type V = EventV;

    open spec fn view(&self) -> EventV {
        match self {
            ScanEvent::Directory(p) => EventV::Directory(p@),
            ScanEvent::File(p) => EventV::File(p@),
        }
    }
}

pub open spec fn entries_view(s: Seq<Entry>) -> Seq<EntryV> {
    s.map_values(|e: Entry| e@)
}

pub open spec fn events_view(s: Seq<ScanEvent>) -> Seq<EventV> {
    s.map_values(|e: ScanEvent| e@)
}

pub open spec fn opt_string_view(o: Option<String>) -> Option<Seq<char>> {
    match o {
        Some(s) => Some(s@),
        None => None,
    }
}

pub open spec fn filter_view(f: Option<&FilterPattern>) -> Option<Seq<char>> {
    match f {
        Some(p) => Some(p@),
        None => None,
    }
}

/// Whether the filter accepts the base name `name`: a missing filter
/// accepts everything, a present one decides by glob match.
pub open spec fn spec_filter_accepts(filter: Option<Seq<char>>, name: Seq<char>) -> bool {
    match filter {
        Some(p) => glob_match(p, name),
        None => true,
    }
}

/// The filtering rule: an excluded path is rejected whatever the filter
/// says; otherwise the filter decides on the base name alone.
pub open spec fn spec_should_process(
    excluded: bool,
    filter: Option<Seq<char>>,
    name: Seq<char>,
) -> bool {
    !excluded && spec_filter_accepts(filter, name)
}

/// The filtering rule on an already-evaluated ignore verdict.
pub fn should_process(excluded: bool, filter: Option<&FilterPattern>, name: &str) -> (r: bool)
    ensures
        r == spec_should_process(excluded, filter_view(filter), name@),
{
    if excluded {
        false
    } else {
        match filter {
            Some(p) => p.matches(name),
            None => true,
        }
    }
}

/// The filtering rule on a path: the ignore rules, when present, are
/// evaluated fail-open, and the filter is matched against the base name.
/// The ignore verdict is not a function of the arguments, so the contract
/// states what holds of every outcome: without ignore rules the result is
/// exact, and a kept path always satisfies the filter.
pub fn should_process_file(
    path: &String,
    filter: Option<&FilterPattern>,
    ignore: Option<&gitignore::File<'_>>,
) -> (r: bool)
    ensures
        ignore is None ==> r == spec_should_process(
            false,
            filter_view(filter),
            spec_base_name(path@),
        ),
        r ==> spec_filter_accepts(filter_view(filter), spec_base_name(path@)),
{
    let excluded = match ignore {
        Some(rules) => is_excluded_fail_open(rules, path.as_str()),
        None => false,
    };
    should_process(excluded, filter, base_name(path.as_str()))
}

/// Whether some file strictly under `dir` carries a true verdict.
pub open spec fn spec_dir_has_match(
    entries: Seq<EntryV>,
    verdicts: Seq<bool>,
    dir: Seq<char>,
) -> bool {
    exists|j: int|
        0 <= j < entries.len() && entries[j].is_file && verdicts[j] && spec_is_under(
            entries[j].path,
            dir,
        )
}

/// Whether the walk below `dir` holds at least one file with a true
/// verdict. `verdicts[j]` is the filtering verdict for `entries[j]`.
pub fn directory_has_matching_files(
    entries: &Vec<Entry>,
    verdicts: &Vec<bool>,
    dir: &str,
) -> (r: bool)
    requires
        verdicts@.len() == entries@.len(),
    ensures
        r == spec_dir_has_match(entries_view(entries@), verdicts@, dir@),
{
    let n = entries.len();
    let mut j: usize = 0;
    while j < n
        invariant
            j <= n,
            n == entries@.len(),
            verdicts@.len() == n,
            forall|k: int|
                0 <= k < j ==> !(entries_view(entries@)[k].is_file && verdicts@[k]
                    && spec_is_under(entries_view(entries@)[k].path, dir@)),
        decreases n - j,
    {
        if entries[j].is_file && verdicts[j] && path_is_under(entries[j].path.as_str(), dir) {
            return true;
        }
        j = j + 1;
    }
    false
}

/// An entry that produces events: a file whose verdict is true, at depth 1
/// unless the scan is recursive.
pub open spec fn spec_active(e: EntryV, v: bool, recursive: bool) -> bool {
    e.is_file && v && (recursive || e.depth <= 1)
}

/// Whether a directory may be announced: always in non-recursive mode, and
/// only when it holds a matching descendant in recursive mode.
pub open spec fn spec_announce_ok(
    entries: Seq<EntryV>,
    verdicts: Seq<bool>,
    recursive: bool,
    dir: Seq<char>,
) -> bool {
    !recursive || spec_dir_has_match(entries, verdicts, dir)
}

/// The scan after the first `i` entries: the events emitted so far and the
/// most recently announced directory. A kept file always yields a file
/// event; its parent directory is announced first when it differs from the
/// last announced directory and the announcement check allows it.
pub open spec fn spec_scan_upto(
    entries: Seq<EntryV>,
    verdicts: Seq<bool>,
    recursive: bool,
    i: int,
) -> (Seq<EventV>, Option<Seq<char>>)
    decreases i,
{
    if i <= 0 {
        (Seq::<EventV>::empty(), None::<Seq<char>>)
    } else {
        let prev = spec_scan_upto(entries, verdicts, recursive, i - 1);
        let e = entries[i - 1];
        if spec_active(e, verdicts[i - 1], recursive) {
            if prev.1 != Some(e.parent) && spec_announce_ok(entries, verdicts, recursive, e.parent) {
                (
                    prev.0 + seq![EventV::Directory(e.parent), EventV::File(e.path)],
                    Some(e.parent),
                )
            } else {
                (prev.0.push(EventV::File(e.path)), prev.1)
            }
        } else {
            prev
        }
    }
}

/// The full event sequence of the scan.
pub open spec fn spec_scan(entries: Seq<EntryV>, verdicts: Seq<bool>, recursive: bool) -> Seq<
    EventV,
> {
    spec_scan_upto(entries, verdicts, recursive, entries.len() as int).0
}

/// Produce the events of a scan whose per-entry verdicts are already known.
pub fn scan_from_verdicts(entries: &Vec<Entry>, verdicts: &Vec<bool>, recursive: bool) -> (out:
    Vec<ScanEvent>)
    requires
        verdicts@.len() == entries@.len(),
    ensures
        events_view(out@) == spec_scan(entries_view(entries@), verdicts@, recursive),
{
    let n = entries.len();
    let mut out: Vec<ScanEvent> = Vec::new();
    let mut last: Option<String> = None;
    let mut i: usize = 0;
    while i < n
        invariant
            i <= n,
            n == entries@.len(),
            verdicts@.len() == n,
            events_view(out@) == spec_scan_upto(
                entries_view(entries@),
                verdicts@,
                recursive,
                i as int,
            ).0,
            opt_string_view(last) == spec_scan_upto(
                entries_view(entries@),
                verdicts@,
                recursive,
                i as int,
            ).1,
        decreases n - i,
    {
        let ghost evs = entries_view(entries@);
        let e = &entries[i];
        if e.is_file && verdicts[i] && (recursive || e.depth <= 1) {
            let same = match &last {
                Some(d) => d.eq(&e.parent),
                None => false,
            };
            proof {
                assert(same == (opt_string_view(last) == Some(evs[i as int].parent)));
            }
            if !same && (!recursive || directory_has_matching_files(
                entries,
                verdicts,
                e.parent.as_str(),
            )) {
                out.push(ScanEvent::Directory(e.parent.clone()));
                out.push(ScanEvent::File(e.path.clone()));
                last = Some(e.parent.clone());
                proof {
                    assert(events_view(out@) =~= spec_scan_upto(evs, verdicts@, recursive, i as int).0
                        + seq![
                            EventV::Directory(evs[i as int].parent),
                            EventV::File(evs[i as int].path),
                        ]);
                }
            } else {
                out.push(ScanEvent::File(e.path.clone()));
                proof {
                    assert(events_view(out@) =~= spec_scan_upto(
                        evs,
                        verdicts@,
                        recursive,
                        i as int,
                    ).0.push(EventV::File(evs[i as int].path)));
                }
            }
        }
        i = i + 1;
    }
    out
}

/// The verdicts of a scan without ignore rules: the filter alone decides,
/// on the base name of each entry.
pub open spec fn spec_default_verdicts(entries: Seq<EntryV>, filter: Option<Seq<char>>) -> Seq<
    bool,
> {
    Seq::new(entries.len(), |j: int| spec_filter_accepts(filter, spec_base_name(entries[j].path)))
}

/// Scan a traversal-ordered list of entries: evaluate the filtering rule on
/// each entry, then produce the events. The ignore verdicts may depend on
/// the file system, so the contract promises the event machinery for some
/// verdict per entry that never contradicts the filter; without ignore
/// rules the verdicts, and so the events, are pinned down exactly.
pub fn scan_events(
    entries: &Vec<Entry>,
    recursive: bool,
    filter: Option<&FilterPattern>,
    ignore: Option<&gitignore::File<'_>>,
) -> (out: Vec<ScanEvent>)
    ensures
        exists|v: Seq<bool>|
            {
                &&& v.len() == entries@.len()
                &&& forall|j: int|
                    0 <= j < v.len() && v[j] ==> spec_filter_accepts(
                        filter_view(filter),
                        spec_base_name(entries_view(entries@)[j].path),
                    )
                &&& events_view(out@) == #[trigger] spec_scan(entries_view(entries@), v, recursive)
            },
        ignore is None ==> events_view(out@) == spec_scan(
            entries_view(entries@),
            spec_default_verdicts(entries_view(entries@), filter_view(filter)),
            recursive,
        ),
{
    let n = entries.len();
    let mut verdicts: Vec<bool> = Vec::new();
    let mut i: usize = 0;
    while i < n
        invariant
            i <= n,
            n == entries@.len(),
            verdicts@.len() == i,
            forall|j: int|
                0 <= j < i && verdicts@[j] ==> spec_filter_accepts(
                    filter_view(filter),
                    spec_base_name(entries_view(entries@)[j].path),
                ),
            ignore is None ==> forall|j: int|
                0 <= j < i ==> verdicts@[j] == spec_filter_accepts(
                    filter_view(filter),
                    spec_base_name(entries_view(entries@)[j].path),
                ),
        decreases n - i,
    {
        let v = should_process_file(&entries[i].path, filter, ignore);
        verdicts.push(v);
        i = i + 1;
    }
    let out = scan_from_verdicts(entries, &verdicts, recursive);
    proof {
        if ignore is None {
            assert(verdicts@ =~= spec_default_verdicts(
                entries_view(entries@),
                filter_view(filter),
            ));
        }
    }
    out
}

} // verus!
