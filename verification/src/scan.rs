//! The slot scan: a fixed-step walk over each work window that keeps every
//! start whose padded candidate interval touches no occupied time.
//!
//! All instants are seconds from midnight of the scanned day. The one
//! algorithmic primitive that must be exactly right is the half-open
//! disjointness test: a candidate `[c, c + dur + buf)` conflicts with an
//! occupied `[start, end)` unless `c + dur + buf <= start` or `c >= end`.

use vstd::prelude::*;
use crate::occupancy::OccupiedInterval;
use crate::schedule::WorkWindow;

verus! {

/// Whether the padded candidate starting at `c` overlaps the occupied
/// interval `o`. Touching at a boundary is not overlapping.
pub open spec fn spec_conflicts(c: int, dur: int, buf: int, o: OccupiedInterval) -> bool {
    !(c + dur + buf <= o.start || c >= o.end)
}

/// Whether the padded candidate starting at `c` is clear of every occupied
/// interval.
pub open spec fn spec_slot_free(c: int, dur: int, buf: int, occ: Seq<OccupiedInterval>) -> bool {
    forall|j: int| 0 <= j < occ.len() ==> !spec_conflicts(c, dur, buf, #[trigger] occ[j])
}

/// The starts the scan keeps, walking from `cursor` in steps of `gran`
/// while a candidate of `dur` seconds still ends by `wend`. The cursor
/// advances by the full step whether or not a candidate was kept.
pub open spec fn spec_scan_starts(
    cursor: int,
    wend: int,
    dur: int,
    buf: int,
    gran: int,
    occ: Seq<OccupiedInterval>,
) -> Seq<i64>
    decreases wend - cursor + gran,
{
    if dur < 0 || gran < 1 || cursor + dur > wend {
        Seq::empty()
    } else if spec_slot_free(cursor, dur, buf, occ) {
        seq![cursor as i64] + spec_scan_starts(cursor + gran, wend, dur, buf, gran, occ)
    } else {
        spec_scan_starts(cursor + gran, wend, dur, buf, gran, occ)
    }
}

/// No accepted slot overlaps any occupied interval: every start the scan
/// keeps is clear of all of them. This is the engine's core correctness
/// invariant.
pub proof fn lemma_scan_starts_free(
    cursor: int,
    wend: int,
    dur: int,
    buf: int,
    gran: int,
    occ: Seq<OccupiedInterval>,
)
    requires
        i64::MIN <= cursor <= i64::MAX,
        wend <= 1000000000000000,
        1 <= gran <= 1000000000000000,
    ensures
        forall|i: int|
            0 <= i < spec_scan_starts(cursor, wend, dur, buf, gran, occ).len()
                ==> spec_slot_free(
                #[trigger] spec_scan_starts(cursor, wend, dur, buf, gran, occ)[i] as int,
                dur,
                buf,
                occ,
            ),
    decreases wend - cursor + gran,
{
    if dur < 0 || gran < 1 || cursor + dur > wend {
    } else {
        lemma_scan_starts_free(cursor + gran, wend, dur, buf, gran, occ);
        let s = spec_scan_starts(cursor, wend, dur, buf, gran, occ);
        let rest = spec_scan_starts(cursor + gran, wend, dur, buf, gran, occ);
        if spec_slot_free(cursor, dur, buf, occ) {
            assert(s == seq![cursor as i64] + rest);
            assert forall|i: int| 0 <= i < s.len() implies spec_slot_free(
                s[i] as int,
                dur,
                buf,
                occ,
            ) by {
                if i == 0 {
                    assert(s[0] == cursor as i64);
                } else {
                    assert(s[i] == rest[i - 1]);
                }
            }
        } else {
            assert(s == rest);
        }
    }
}

/// Any accepted slot and any occupied interval are disjoint in the
/// half-open sense: the candidate ends by the occupied start, or begins at
/// or after the occupied end.
pub proof fn lemma_slots_avoid_occupied(
    cursor: int,
    wend: int,
    dur: int,
    buf: int,
    gran: int,
    occ: Seq<OccupiedInterval>,
    i: int,
    j: int,
)
    requires
        i64::MIN <= cursor <= i64::MAX,
        wend <= 1000000000000000,
        1 <= gran <= 1000000000000000,
        0 <= i < spec_scan_starts(cursor, wend, dur, buf, gran, occ).len(),
        0 <= j < occ.len(),
    ensures
        spec_scan_starts(cursor, wend, dur, buf, gran, occ)[i] + dur + buf <= occ[j].start
            || spec_scan_starts(cursor, wend, dur, buf, gran, occ)[i] >= occ[j].end,
{
    lemma_scan_starts_free(cursor, wend, dur, buf, gran, occ);
}

/// Touching is not overlapping: a candidate whose padded end equals an
/// occupied interval's start does not conflict with it.
pub proof fn lemma_touching_is_free(c: int, dur: int, buf: int, o: OccupiedInterval)
    requires
        c + dur + buf == o.start,
    ensures
        !spec_conflicts(c, dur, buf, o),
{
}

/// A window shorter than the requested duration yields no slots at all.
pub proof fn lemma_window_shorter_than_duration(
    wstart: int,
    wend: int,
    dur: int,
    buf: int,
    gran: int,
    occ: Seq<OccupiedInterval>,
)
    requires
        dur > wend - wstart,
    ensures
        spec_scan_starts(wstart, wend, dur, buf, gran, occ) == Seq::<i64>::empty(),
{
}

/// Whether the padded candidate starting at `c` is clear of every interval
/// in `occ`.
pub fn slot_livre(c: i64, dur: i64, buf: i64, occ: &Vec<OccupiedInterval>) -> (free: bool)
    requires
        0 <= c,
        0 <= dur,
        0 <= buf,
        c + dur + buf <= i64::MAX,
    ensures
        free == spec_slot_free(c as int, dur as int, buf as int, occ@),
{
    let need_end: i64 = c + dur + buf;
    let mut j: usize = 0;
    while j < occ.len()
        invariant
            j <= occ@.len(),
            need_end == c + dur + buf,
            forall|k: int|
                0 <= k < j ==> !spec_conflicts(c as int, dur as int, buf as int, #[trigger] occ@[k]),
        decreases occ@.len() - j,
    {
        let o = occ[j];
        if !(need_end <= o.start || c >= o.end) {
            return false;
        }
        j = j + 1;
    }
    true
}

/// Scans one window: walks the cursor from `wstart` in steps of `gran` and
/// keeps every start whose padded candidate is clear of all occupied time.
pub fn escanear_janela(
    wstart: i64,
    wend: i64,
    dur: i64,
    buf: i64,
    gran: i64,
    occ: &Vec<OccupiedInterval>,
) -> (slots: Vec<i64>)
    requires
        0 <= wstart <= 86400,
        0 <= wend <= 86400,
        0 <= dur <= 6000000000,
        0 <= buf <= 6000000000,
        1 <= gran <= 6000000000,
    ensures
        slots@ == spec_scan_starts(
            wstart as int,
            wend as int,
            dur as int,
            buf as int,
            gran as int,
            occ@,
        ),
{
    let mut slots: Vec<i64> = Vec::new();
    let mut cursor: i64 = wstart;
    while cursor + dur <= wend
        invariant
            0 <= wstart <= cursor <= 86400 + 6000000000,
            0 <= wend <= 86400,
            0 <= dur <= 6000000000,
            0 <= buf <= 6000000000,
            1 <= gran <= 6000000000,
            spec_scan_starts(wstart as int, wend as int, dur as int, buf as int, gran as int, occ@)
                == slots@ + spec_scan_starts(
                cursor as int,
                wend as int,
                dur as int,
                buf as int,
                gran as int,
                occ@,
            ),
        decreases wend + gran - cursor,
    {
        let ghost before = slots@;
        let ghost tail = spec_scan_starts(
            cursor as int,
            wend as int,
            dur as int,
            buf as int,
            gran as int,
            occ@,
        );
        let ghost rest = spec_scan_starts(
            cursor as int + gran as int,
            wend as int,
            dur as int,
            buf as int,
            gran as int,
            occ@,
        );
        if slot_livre(cursor, dur, buf, occ) {
            slots.push(cursor);
            proof {
                assert(tail == seq![cursor] + rest);
                assert((before + tail) =~= (before.push(cursor) + rest));
            }
        } else {
            proof {
                assert(tail == rest);
            }
        }
        cursor = cursor + gran;
    }
    proof {
        assert(spec_scan_starts(
            cursor as int,
            wend as int,
            dur as int,
            buf as int,
            gran as int,
            occ@,
        ) == Seq::<i64>::empty());
        assert((slots@ + Seq::<i64>::empty()) =~= slots@);
    }
    slots
}

/// The concatenated scan of the first `n` windows, in window order.
pub open spec fn spec_scan_windows_upto(
    windows: Seq<WorkWindow>,
    occ: Seq<OccupiedInterval>,
    dur: int,
    buf: int,
    gran: int,
    n: int,
) -> Seq<i64>
    decreases n,
{
    if n <= 0 {
        Seq::empty()
    } else {
        spec_scan_windows_upto(windows, occ, dur, buf, gran, n - 1) + spec_scan_starts(
            windows[n - 1].start_min * 60,
            windows[n - 1].end_min * 60,
            dur,
            buf,
            gran,
            occ,
        )
    }
}

/// Slots across all windows, concatenated in window order; there is no
/// cross-window merging or deduplication.
pub open spec fn spec_scan_windows(
    windows: Seq<WorkWindow>,
    occ: Seq<OccupiedInterval>,
    dur: int,
    buf: int,
    gran: int,
) -> Seq<i64> {
    spec_scan_windows_upto(windows, occ, dur, buf, gran, windows.len() as int)
}

/// Every start the multi-window scan keeps is clear of every occupied
/// interval.
pub proof fn lemma_scan_windows_free(
    windows: Seq<WorkWindow>,
    occ: Seq<OccupiedInterval>,
    dur: int,
    buf: int,
    gran: int,
    n: int,
)
    requires
        forall|k: int| 0 <= k < windows.len() ==> (#[trigger] windows[k]).wf(),
        1 <= gran <= 1000000000000000,
        n <= windows.len(),
    ensures
        forall|i: int|
            0 <= i < spec_scan_windows_upto(windows, occ, dur, buf, gran, n).len()
                ==> spec_slot_free(
                #[trigger] spec_scan_windows_upto(windows, occ, dur, buf, gran, n)[i] as int,
                dur,
                buf,
                occ,
            ),
    decreases n,
{
    if n > 0 {
        lemma_scan_windows_free(windows, occ, dur, buf, gran, n - 1);
        lemma_scan_starts_free(
            windows[n - 1].start_min * 60,
            windows[n - 1].end_min * 60,
            dur,
            buf,
            gran,
            occ,
        );
        let s = spec_scan_windows_upto(windows, occ, dur, buf, gran, n);
        let init = spec_scan_windows_upto(windows, occ, dur, buf, gran, n - 1);
        let part = spec_scan_starts(
            windows[n - 1].start_min * 60,
            windows[n - 1].end_min * 60,
            dur,
            buf,
            gran,
            occ,
        );
        assert(s == init + part);
        assert forall|i: int| 0 <= i < s.len() implies spec_slot_free(
            #[trigger] s[i] as int,
            dur,
            buf,
            occ,
        ) by {
            if i < init.len() {
                assert(s[i] == init[i]);
            } else {
                assert(s[i] == part[i - init.len()]);
            }
        }
    }
}

/// The core correctness invariant at the engine's level: any slot the scan
/// of all windows accepts and any occupied interval are disjoint — the
/// padded candidate ends by the occupied start, or begins at or after the
/// occupied end.
pub proof fn lemma_scan_windows_avoid_occupied(
    windows: Seq<WorkWindow>,
    occ: Seq<OccupiedInterval>,
    dur: int,
    buf: int,
    gran: int,
    i: int,
    j: int,
)
    requires
        forall|k: int| 0 <= k < windows.len() ==> (#[trigger] windows[k]).wf(),
        1 <= gran <= 1000000000000000,
        0 <= i < spec_scan_windows(windows, occ, dur, buf, gran).len(),
        0 <= j < occ.len(),
    ensures
        spec_scan_windows(windows, occ, dur, buf, gran)[i] + dur + buf <= occ[j].start
            || spec_scan_windows(windows, occ, dur, buf, gran)[i] >= occ[j].end,
{
    lemma_scan_windows_free(windows, occ, dur, buf, gran, windows.len() as int);
}

/// Scans every window in order and concatenates the accepted starts.
pub fn escanear_janelas(
    windows: &Vec<WorkWindow>,
    occ: &Vec<OccupiedInterval>,
    dur: i64,
    buf: i64,
    gran: i64,
) -> (slots: Vec<i64>)
    requires
        forall|i: int| 0 <= i < windows@.len() ==> (#[trigger] windows@[i]).wf(),
        0 <= dur <= 6000000000,
        0 <= buf <= 6000000000,
        1 <= gran <= 6000000000,
    ensures
        slots@ == spec_scan_windows(windows@, occ@, dur as int, buf as int, gran as int),
{
    let mut slots: Vec<i64> = Vec::new();
    let mut i: usize = 0;
    while i < windows.len()
        invariant
            i <= windows@.len(),
            forall|k: int| 0 <= k < windows@.len() ==> (#[trigger] windows@[k]).wf(),
            0 <= dur <= 6000000000,
            0 <= buf <= 6000000000,
            1 <= gran <= 6000000000,
            slots@ == spec_scan_windows_upto(
                windows@,
                occ@,
                dur as int,
                buf as int,
                gran as int,
                i as int,
            ),
        decreases windows@.len() - i,
    {
        let w = windows[i];
        let mut part = escanear_janela(
            (w.start_min as i64) * 60,
            (w.end_min as i64) * 60,
            dur,
            buf,
            gran,
            occ,
        );
        slots.append(&mut part);
        i = i + 1;
    }
    slots
}

} // verus!
