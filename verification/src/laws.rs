//! Laws of the scanner, proved once and for all: the filtering rule's
//! veto and filter clauses, the depth bound of non-recursive scans, the
//! silence of directories without matching descendants, and the
//! one-announcement-per-directory guarantee.

use vstd::prelude::*;

use crate::paths::spec_is_under;
use crate::pattern::glob_match;
use crate::scan::spec_active;
use crate::scan::spec_announce_ok;
use crate::scan::spec_dir_has_match;
use crate::scan::spec_filter_accepts;
use crate::scan::spec_scan;
use crate::scan::spec_scan_upto;
use crate::scan::spec_should_process;
use crate::scan::EntryV;
use crate::scan::EventV;

verus! {

/// Law: an excluded path is rejected, whatever the filter would say.
pub proof fn lemma_excluded_always_rejected(filter: Option<Seq<char>>, name: Seq<char>)
    ensures
        !spec_should_process(true, filter, name),
{
}

/// Law: when nothing excludes the path, the glob filter alone decides on
/// the base name, and a missing filter accepts everything.
pub proof fn lemma_filter_decides(pat: Seq<char>, name: Seq<char>)
    ensures
        spec_should_process(false, Some(pat), name) == glob_match(pat, name),
        spec_should_process(false, None, name),
{
}

/// A list of entries whose paths extend their parents' paths past a `/`,
/// with no further `/` after it: what a real directory walk hands over.
pub open spec fn spec_wf_entry(e: EntryV) -> bool {
    &&& e.path.len() >= e.parent.len() + 2
    &&& e.path.subrange(0, e.parent.len() as int) == e.parent
    &&& e.path[e.parent.len() as int] == '/'
    &&& forall|k: int| e.parent.len() + 1 <= k < e.path.len() ==> e.path[k] != '/'
}

pub open spec fn entries_wf(entries: Seq<EntryV>) -> bool {
    forall|j: int| 0 <= j < entries.len() ==> #[trigger] spec_wf_entry(entries[j])
}

/// A well-formed entry lies strictly under its parent directory.
pub proof fn lemma_wf_under(e: EntryV)
    requires
        spec_wf_entry(e),
    ensures
        spec_is_under(e.path, e.parent),
{
}

/// Every event of the scan stems from a kept file among the first `i`
/// entries: it is that file's event, or the announcement of its parent,
/// and an announcement only happens when the announcement check allows it.
proof fn lemma_scan_upto_origin(
    entries: Seq<EntryV>,
    verdicts: Seq<bool>,
    recursive: bool,
    i: int,
    k: int,
)
    requires
        verdicts.len() == entries.len(),
        0 <= i <= entries.len(),
        0 <= k < spec_scan_upto(entries, verdicts, recursive, i).0.len(),
    ensures
        exists|j: int|
            0 <= j < i && #[trigger] spec_active(entries[j], verdicts[j], recursive) && {
                let ev = spec_scan_upto(entries, verdicts, recursive, i).0[k];
                ||| (ev == EventV::Directory(entries[j].parent) && spec_announce_ok(
                    entries,
                    verdicts,
                    recursive,
                    entries[j].parent,
                ))
                ||| ev == EventV::File(entries[j].path)
            },
    decreases i,
{
    let cur = spec_scan_upto(entries, verdicts, recursive, i);
    if i <= 0 {
    } else {
        let prev = spec_scan_upto(entries, verdicts, recursive, i - 1);
        let e = entries[i - 1];
        if spec_active(e, verdicts[i - 1], recursive) {
            if k < prev.0.len() {
                lemma_scan_upto_origin(entries, verdicts, recursive, i - 1, k);
                let j = choose|j: int|
                    0 <= j < i - 1 && #[trigger] spec_active(entries[j], verdicts[j], recursive)
                        && {
                        let ev = prev.0[k];
                        ||| (ev == EventV::Directory(entries[j].parent) && spec_announce_ok(
                            entries,
                            verdicts,
                            recursive,
                            entries[j].parent,
                        ))
                        ||| ev == EventV::File(entries[j].path)
                    };
                assert(cur.0[k] == prev.0[k]);
                assert(spec_active(entries[j], verdicts[j], recursive));
            } else {
                assert(spec_active(entries[i - 1], verdicts[i - 1], recursive));
                assert(cur.0[k] == EventV::Directory(e.parent) ==> spec_announce_ok(
                    entries,
                    verdicts,
                    recursive,
                    e.parent,
                ));
            }
        } else {
            lemma_scan_upto_origin(entries, verdicts, recursive, i - 1, k);
        }
    }
}

/// Law: in non-recursive mode no event stems from below depth 1. Every
/// event of the scan is the file event of a kept file at depth at most 1,
/// or the announcement of such a file's parent directory.
pub proof fn lemma_non_recursive_depth_capped(entries: Seq<EntryV>, verdicts: Seq<bool>, k: int)
    requires
        verdicts.len() == entries.len(),
        0 <= k < spec_scan(entries, verdicts, false).len(),
    ensures
        exists|j: int|
            0 <= j < entries.len() && #[trigger] spec_active(entries[j], verdicts[j], false)
                && entries[j].depth <= 1 && {
                let ev = spec_scan(entries, verdicts, false)[k];
                ||| ev == EventV::Directory(entries[j].parent)
                ||| ev == EventV::File(entries[j].path)
            },
{
    lemma_scan_upto_origin(entries, verdicts, false, entries.len() as int, k);
}

/// Law: a directory without a kept descendant file produces nothing in a
/// recursive scan: it is never announced, and no file event lies under it.
pub proof fn lemma_no_match_no_events(
    entries: Seq<EntryV>,
    verdicts: Seq<bool>,
    dir: Seq<char>,
    k: int,
)
    requires
        verdicts.len() == entries.len(),
        !spec_dir_has_match(entries, verdicts, dir),
        0 <= k < spec_scan(entries, verdicts, true).len(),
    ensures
        spec_scan(entries, verdicts, true)[k] != EventV::Directory(dir),
        spec_scan(entries, verdicts, true)[k] matches EventV::File(p) ==> !spec_is_under(p, dir),
{
    lemma_scan_upto_origin(entries, verdicts, true, entries.len() as int, k);
    let ev = spec_scan(entries, verdicts, true)[k];
    let j = choose|j: int|
        0 <= j < entries.len() && #[trigger] spec_active(entries[j], verdicts[j], true) && {
            ||| (ev == EventV::Directory(entries[j].parent) && spec_announce_ok(
                entries,
                verdicts,
                true,
                entries[j].parent,
            ))
            ||| ev == EventV::File(entries[j].path)
        };
    if ev == EventV::Directory(dir) {
        assert(spec_announce_ok(entries, verdicts, true, dir));
        assert(false);
    }
    if ev matches EventV::File(p) && spec_is_under(p, dir) {
        assert(entries[j].is_file && verdicts[j] && spec_is_under(entries[j].path, dir));
        assert(false);
    }
}

/// No entry in `[a, b)` produces events.
pub open spec fn spec_no_active_in(
    entries: Seq<EntryV>,
    verdicts: Seq<bool>,
    recursive: bool,
    a: int,
    b: int,
) -> bool {
    forall|k: int| a <= k < b ==> !#[trigger] spec_active(entries[k], verdicts[k], recursive)
}

/// The kept files of one directory come in one contiguous run: between two
/// kept files of the same parent no kept file of another parent appears.
pub open spec fn spec_grouped(entries: Seq<EntryV>, verdicts: Seq<bool>, recursive: bool) -> bool {
    forall|i: int, j: int, k: int|
        0 <= i < j && j < k < entries.len() && #[trigger] spec_active(
            entries[i],
            verdicts[i],
            recursive,
        ) && #[trigger] spec_active(entries[j], verdicts[j], recursive) && #[trigger] spec_active(
            entries[k],
            verdicts[k],
            recursive,
        ) && entries[i].parent == entries[k].parent ==> entries[j].parent == entries[i].parent
}

/// After well-formed entries, the last announced directory is the parent
/// of the most recent kept file, and nothing before the first kept file.
proof fn lemma_scan_upto_last(entries: Seq<EntryV>, verdicts: Seq<bool>, recursive: bool, i: int)
    requires
        verdicts.len() == entries.len(),
        0 <= i <= entries.len(),
        entries_wf(entries),
    ensures
        ({
            let last = spec_scan_upto(entries, verdicts, recursive, i).1;
            if spec_no_active_in(entries, verdicts, recursive, 0, i) {
                last is None
            } else {
                exists|j: int|
                    0 <= j < i && #[trigger] spec_active(entries[j], verdicts[j], recursive)
                        && spec_no_active_in(entries, verdicts, recursive, j + 1, i) && last
                        == Some(entries[j].parent)
            }
        }),
    decreases i,
{
    if i <= 0 {
    } else {
        lemma_scan_upto_last(entries, verdicts, recursive, i - 1);
        let prev = spec_scan_upto(entries, verdicts, recursive, i - 1);
        let cur = spec_scan_upto(entries, verdicts, recursive, i);
        let e = entries[i - 1];
        if spec_active(e, verdicts[i - 1], recursive) {
            assert(spec_wf_entry(entries[i - 1]));
            lemma_wf_under(entries[i - 1]);
            assert(spec_dir_has_match(entries, verdicts, e.parent)) by {
                assert(entries[i - 1].is_file && verdicts[i - 1] && spec_is_under(
                    entries[i - 1].path,
                    e.parent,
                ));
            }
            assert(cur.1 == Some(e.parent));
            assert(spec_active(entries[i - 1], verdicts[i - 1], recursive) && spec_no_active_in(
                entries,
                verdicts,
                recursive,
                i,
                i,
            ) && cur.1 == Some(entries[i - 1].parent));
        } else {
            if spec_no_active_in(entries, verdicts, recursive, 0, i - 1) {
                assert(spec_no_active_in(entries, verdicts, recursive, 0, i));
            } else {
                let j = choose|j: int|
                    0 <= j < i - 1 && #[trigger] spec_active(entries[j], verdicts[j], recursive)
                        && spec_no_active_in(entries, verdicts, recursive, j + 1, i - 1) && prev.1
                        == Some(entries[j].parent);
                assert(spec_no_active_in(entries, verdicts, recursive, j + 1, i));
                assert(!spec_no_active_in(entries, verdicts, recursive, 0, i));
            }
        }
    }
}

/// How many times the scan announces `dir`.
pub open spec fn spec_count_announcements(events: Seq<EventV>, dir: Seq<char>) -> nat
    decreases events.len(),
{
    if events.len() == 0 {
        0
    } else {
        spec_count_announcements(events.drop_last(), dir) + (if events.last()
            == EventV::Directory(dir) {
            1nat
        } else {
            0nat
        })
    }
}

proof fn lemma_count_push(events: Seq<EventV>, x: EventV, dir: Seq<char>)
    ensures
        spec_count_announcements(events.push(x), dir) == spec_count_announcements(events, dir) + (
        if x == EventV::Directory(dir) {
            1nat
        } else {
            0nat
        }),
{
    assert(events.push(x).drop_last() =~= events);
    assert(events.push(x).last() == x);
}

/// Some kept file among the first `i` entries has `dir` as its parent.
pub open spec fn spec_contributes(
    entries: Seq<EntryV>,
    verdicts: Seq<bool>,
    recursive: bool,
    dir: Seq<char>,
    i: int,
) -> bool {
    exists|j: int|
        0 <= j < i && #[trigger] spec_active(entries[j], verdicts[j], recursive) && entries[j].parent
            == dir
}

proof fn lemma_scan_upto_count(
    entries: Seq<EntryV>,
    verdicts: Seq<bool>,
    recursive: bool,
    dir: Seq<char>,
    i: int,
)
    requires
        verdicts.len() == entries.len(),
        0 <= i <= entries.len(),
        entries_wf(entries),
        spec_grouped(entries, verdicts, recursive),
    ensures
        spec_count_announcements(spec_scan_upto(entries, verdicts, recursive, i).0, dir) == (
        if spec_contributes(entries, verdicts, recursive, dir, i) {
            1nat
        } else {
            0nat
        }),
    decreases i,
{
    if i <= 0 {
    } else {
        lemma_scan_upto_count(entries, verdicts, recursive, dir, i - 1);
        let prev = spec_scan_upto(entries, verdicts, recursive, i - 1);
        let cur = spec_scan_upto(entries, verdicts, recursive, i);
        let e = entries[i - 1];
        if !spec_active(e, verdicts[i - 1], recursive) {
            if spec_contributes(entries, verdicts, recursive, dir, i) {
                let j = choose|j: int|
                    0 <= j < i && #[trigger] spec_active(entries[j], verdicts[j], recursive)
                        && entries[j].parent == dir;
                assert(spec_contributes(entries, verdicts, recursive, dir, i - 1));
            }
        } else {
            assert(spec_wf_entry(entries[i - 1]));
            lemma_wf_under(entries[i - 1]);
            assert(spec_dir_has_match(entries, verdicts, e.parent)) by {
                assert(entries[i - 1].is_file && verdicts[i - 1] && spec_is_under(
                    entries[i - 1].path,
                    e.parent,
                ));
            }
            if e.parent == dir {
                assert(spec_contributes(entries, verdicts, recursive, dir, i));
                if prev.1 == Some(e.parent) {
                    // No announcement: the run of `dir` is already open, so an
                    // earlier kept file of `dir` accounts for the single one.
                    lemma_scan_upto_last(entries, verdicts, recursive, i - 1);
                    assert(!spec_no_active_in(entries, verdicts, recursive, 0, i - 1)) by {
                        if spec_no_active_in(entries, verdicts, recursive, 0, i - 1) {
                            assert(prev.1 is None);
                        }
                    }
                    let jm = choose|j: int|
                        0 <= j < i - 1 && #[trigger] spec_active(entries[j], verdicts[j], recursive)
                            && spec_no_active_in(entries, verdicts, recursive, j + 1, i - 1)
                            && prev.1 == Some(entries[j].parent);
                    assert(entries[jm].parent == dir);
                    assert(spec_contributes(entries, verdicts, recursive, dir, i - 1));
                    lemma_count_push(prev.0, EventV::File(e.path), dir);
                } else {
                    // Announcement: no earlier kept file of `dir` can exist,
                    // else grouping traps the most recent kept file between
                    // two of `dir`'s.
                    assert(!spec_contributes(entries, verdicts, recursive, dir, i - 1)) by {
                        if spec_contributes(entries, verdicts, recursive, dir, i - 1) {
                            let j = choose|j: int|
                                0 <= j < i - 1 && #[trigger] spec_active(
                                    entries[j],
                                    verdicts[j],
                                    recursive,
                                ) && entries[j].parent == dir;
                            lemma_scan_upto_last(entries, verdicts, recursive, i - 1);
                            assert(!spec_no_active_in(entries, verdicts, recursive, 0, i - 1));
                            let jm = choose|m: int|
                                0 <= m < i - 1 && #[trigger] spec_active(
                                    entries[m],
                                    verdicts[m],
                                    recursive,
                                ) && spec_no_active_in(entries, verdicts, recursive, m + 1, i - 1)
                                    && prev.1 == Some(entries[m].parent);
                            assert(entries[jm].parent != dir);
                            assert(j < jm);
                            assert(spec_active(entries[j], verdicts[j], recursive) && spec_active(
                                entries[jm],
                                verdicts[jm],
                                recursive,
                            ) && spec_active(entries[i - 1], verdicts[i - 1], recursive));
                            assert(entries[j].parent == entries[i - 1].parent);
                            assert(entries[jm].parent == entries[j].parent);
                            assert(false);
                        }
                    }
                    assert(cur.0 =~= prev.0.push(EventV::Directory(e.parent)).push(
                        EventV::File(e.path),
                    ));
                    lemma_count_push(prev.0, EventV::Directory(e.parent), dir);
                    lemma_count_push(prev.0.push(EventV::Directory(e.parent)), EventV::File(e.path), dir);
                }
            } else {
                // A kept file of another directory: nothing announces `dir`.
                if prev.1 != Some(e.parent) {
                    assert(cur.0 =~= prev.0.push(EventV::Directory(e.parent)).push(
                        EventV::File(e.path),
                    ));
                    lemma_count_push(prev.0, EventV::Directory(e.parent), dir);
                    lemma_count_push(prev.0.push(EventV::Directory(e.parent)), EventV::File(e.path), dir);
                } else {
                    lemma_count_push(prev.0, EventV::File(e.path), dir);
                }
                if spec_contributes(entries, verdicts, recursive, dir, i) {
                    let j = choose|j: int|
                        0 <= j < i && #[trigger] spec_active(entries[j], verdicts[j], recursive)
                            && entries[j].parent == dir;
                    assert(j != i - 1);
                    assert(spec_contributes(entries, verdicts, recursive, dir, i - 1));
                }
            }
        }
    }
}

/// Law: a scan over well-formed entries whose kept files come grouped by
/// parent announces each contributing directory exactly once, and a
/// directory contributing no kept file not at all.
pub proof fn lemma_one_announcement_per_directory(
    entries: Seq<EntryV>,
    verdicts: Seq<bool>,
    recursive: bool,
    dir: Seq<char>,
)
    requires
        verdicts.len() == entries.len(),
        entries_wf(entries),
        spec_grouped(entries, verdicts, recursive),
    ensures
        spec_count_announcements(spec_scan(entries, verdicts, recursive), dir) == (
        if spec_contributes(entries, verdicts, recursive, dir, entries.len() as int) {
            1nat
        } else {
            0nat
        }),
{
    lemma_scan_upto_count(entries, verdicts, recursive, dir, entries.len() as int);
}

/// Events once emitted stay, in place, as the scan goes on.
proof fn lemma_scan_upto_prefix(
    entries: Seq<EntryV>,
    verdicts: Seq<bool>,
    recursive: bool,
    i1: int,
    i2: int,
)
    requires
        verdicts.len() == entries.len(),
        0 <= i1 <= i2 <= entries.len(),
    ensures
        spec_scan_upto(entries, verdicts, recursive, i1).0.len() <= spec_scan_upto(
            entries,
            verdicts,
            recursive,
            i2,
        ).0.len(),
        forall|k: int|
            0 <= k < spec_scan_upto(entries, verdicts, recursive, i1).0.len()
                ==> spec_scan_upto(entries, verdicts, recursive, i2).0[k] == spec_scan_upto(
                entries,
                verdicts,
                recursive,
                i1,
            ).0[k],
    decreases i2 - i1,
{
    if i1 < i2 {
        lemma_scan_upto_prefix(entries, verdicts, recursive, i1, i2 - 1);
    }
}

/// Law: every kept file yields its file event.
pub proof fn lemma_every_kept_file_has_event(
    entries: Seq<EntryV>,
    verdicts: Seq<bool>,
    recursive: bool,
    j: int,
)
    requires
        verdicts.len() == entries.len(),
        0 <= j < entries.len(),
        spec_active(entries[j], verdicts[j], recursive),
    ensures
        exists|k: int|
            0 <= k < spec_scan(entries, verdicts, recursive).len() && spec_scan(
                entries,
                verdicts,
                recursive,
            )[k] == EventV::File(entries[j].path),
{
    let step = spec_scan_upto(entries, verdicts, recursive, j + 1);
    assert(step.0.len() >= 1 && step.0.last() == EventV::File(entries[j].path));
    lemma_scan_upto_prefix(entries, verdicts, recursive, j + 1, entries.len() as int);
    let k = step.0.len() - 1;
    assert(spec_scan(entries, verdicts, recursive)[k] == EventV::File(entries[j].path));
}

} // verus!
