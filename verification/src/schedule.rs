//! Configured work windows: the `HH:MM` storage format, the per-weekday
//! window list, and the default window that stands in when a weekday has
//! none configured.

use vstd::prelude::*;
use crate::dates::{digit_value, is_digit_char};

verus! {

/// Minutes in a day; every time of day lies strictly below it.
pub const MINUTES_PER_DAY: u32 = 1440;

/// Start of the fallback window, 08:00, in minutes from midnight.
pub const DEFAULT_WINDOW_START_MIN: u32 = 480;

/// End of the fallback window, 18:00, in minutes from midnight.
pub const DEFAULT_WINDOW_END_MIN: u32 = 1080;

/// One bookable range of a day, in minutes from midnight.
///
/// Windows read from configuration always satisfy `wf`; whether the start
/// lies before the end is the configurer's responsibility, and a backwards
/// window simply yields no slots.
#[derive(Clone, Copy, Debug, PartialEq, Eq, Structural)]
pub struct WorkWindow {
    pub start_min: u32,
    pub end_min: u32,
}

impl WorkWindow {
    /// Both bounds are times of day.
    pub open spec fn wf(self) -> bool {
        self.start_min < MINUTES_PER_DAY && self.end_min < MINUTES_PER_DAY
    }
}

pub open spec fn spec_default_window() -> WorkWindow {
    WorkWindow { start_min: DEFAULT_WINDOW_START_MIN, end_min: DEFAULT_WINDOW_END_MIN }
}

/// The window scanned when a weekday has no configuration: 08:00 to 18:00.
pub fn default_window() -> (w: WorkWindow)
    ensures
        w == spec_default_window(),
        w.wf(),
{
    WorkWindow { start_min: DEFAULT_WINDOW_START_MIN, end_min: DEFAULT_WINDOW_END_MIN }
}

/// The `HH:MM` storage grammar: five characters, two-digit hour below 24,
/// a colon, two-digit minute below 60.
pub open spec fn is_hhmm_string(s: Seq<char>) -> bool {
    &&& s.len() == 5
    &&& is_digit_char(s[0]) && is_digit_char(s[1])
    &&& s[2] == ':'
    &&& is_digit_char(s[3]) && is_digit_char(s[4])
    &&& digit_value(s[0]) * 10 + digit_value(s[1]) <= 23
    &&& digit_value(s[3]) * 10 + digit_value(s[4]) <= 59
}

/// The minute of the day a well-formed `HH:MM` string names.
pub open spec fn spec_hhmm_minutes(s: Seq<char>) -> int {
    (digit_value(s[0]) * 10 + digit_value(s[1])) * 60 + digit_value(s[3]) * 10 + digit_value(s[4])
}

/// Parses a stored time of day. Returns the minute of the day exactly when
/// the input matches the `HH:MM` grammar.
pub fn parse_hhmm(s: &str) -> (r: Option<u32>)
    ensures
        r is Some <==> is_hhmm_string(s@),
        r is Some ==> r->0 == spec_hhmm_minutes(s@) && r->0 < MINUTES_PER_DAY,
{
    if s.unicode_len() != 5 {
        return None;
    }
    if s.get_char(2) != ':' {
        return None;
    }
    let h0: char = s.get_char(0);
    let h1: char = s.get_char(1);
    let m0: char = s.get_char(3);
    let m1: char = s.get_char(4);
    if !('0' <= h0 && h0 <= '9' && '0' <= h1 && h1 <= '9' && '0' <= m0 && m0 <= '9' && '0' <= m1
        && m1 <= '9') {
        return None;
    }
    let hour: u32 = (h0 as u32 - 48) * 10 + (h1 as u32 - 48);
    let minute: u32 = (m0 as u32 - 48) * 10 + (m1 as u32 - 48);
    if hour <= 23 && minute <= 59 {
        Some(hour * 60 + minute)
    } else {
        None
    }
}

/// The windows obtained from the first `n` stored `(start, end)` text rows:
/// a row contributes a window exactly when both of its fields parse.
pub open spec fn spec_windows_upto(rows: Seq<(String, String)>, n: int) -> Seq<WorkWindow>
    decreases n,
{
    if n <= 0 {
        Seq::empty()
    } else {
        let init = spec_windows_upto(rows, n - 1);
        let row = rows[n - 1];
        if is_hhmm_string(row.0@) && is_hhmm_string(row.1@) {
            init.push(
                WorkWindow {
                    start_min: spec_hhmm_minutes(row.0@) as u32,
                    end_min: spec_hhmm_minutes(row.1@) as u32,
                },
            )
        } else {
            init
        }
    }
}

pub open spec fn spec_windows_from_rows(rows: Seq<(String, String)>) -> Seq<WorkWindow> {
    spec_windows_upto(rows, rows.len() as int)
}

/// Builds the window list from stored `(start, end)` text rows, in row
/// order, silently dropping rows whose times do not parse — a malformed
/// configuration row never blocks the scan.
pub fn windows_from_rows(rows: &Vec<(String, String)>) -> (ws: Vec<WorkWindow>)
    ensures
        ws@ == spec_windows_from_rows(rows@),
        forall|i: int| 0 <= i < ws@.len() ==> (#[trigger] ws@[i]).wf(),
{
    let mut ws: Vec<WorkWindow> = Vec::new();
    let mut i: usize = 0;
    while i < rows.len()
        invariant
            i <= rows.len(),
            ws@ == spec_windows_upto(rows@, i as int),
            forall|k: int| 0 <= k < ws@.len() ==> (#[trigger] ws@[k]).wf(),
        decreases rows.len() - i,
    {
        let start = parse_hhmm(rows[i].0.as_str());
        let end = parse_hhmm(rows[i].1.as_str());
        match (start, end) {
            (Some(s), Some(e)) => {
                ws.push(WorkWindow { start_min: s, end_min: e });
            }
            _ => {}
        }
        i = i + 1;
    }
    ws
}

/// Windows in non-decreasing order of start time.
pub open spec fn windows_sorted(s: Seq<WorkWindow>) -> bool {
    forall|i: int, j: int| 0 <= i <= j < s.len() ==> s[i].start_min <= s[j].start_min
}

/// `w` placed after every window of `s` that does not start later — the
/// insertion step of a stable sort by start time.
pub open spec fn spec_insert_window(w: WorkWindow, s: Seq<WorkWindow>) -> Seq<WorkWindow>
    decreases s.len(),
{
    if s.len() == 0 {
        seq![w]
    } else if s[0].start_min <= w.start_min {
        seq![s[0]] + spec_insert_window(w, s.drop_first())
    } else {
        seq![w] + s
    }
}

/// The first `n` windows, insertion-sorted by start time; ties keep their
/// configured order.
pub open spec fn spec_sort_windows_upto(s: Seq<WorkWindow>, n: int) -> Seq<WorkWindow>
    decreases n,
{
    if n <= 0 {
        Seq::empty()
    } else {
        spec_insert_window(s[n - 1], spec_sort_windows_upto(s, n - 1))
    }
}

pub open spec fn spec_sort_windows(s: Seq<WorkWindow>) -> Seq<WorkWindow> {
    spec_sort_windows_upto(s, s.len() as int)
}

/// Inserting into a sorted run at the first strictly later start is what
/// `spec_insert_window` does.
proof fn lemma_insert_at_position(w: WorkWindow, s: Seq<WorkWindow>, i: int)
    requires
        0 <= i <= s.len(),
        forall|k: int| 0 <= k < i ==> s[k].start_min <= w.start_min,
        i < s.len() ==> s[i].start_min > w.start_min,
    ensures
        spec_insert_window(w, s) == s.take(i) + seq![w] + s.skip(i),
    decreases s.len(),
{
    if s.len() == 0 {
        assert(spec_insert_window(w, s) =~= s.take(i) + seq![w] + s.skip(i));
    } else if s[0].start_min <= w.start_min {
        lemma_insert_at_position(w, s.drop_first(), i - 1);
        assert(s.drop_first().take(i - 1) =~= s.take(i).drop_first());
        assert(s.drop_first().skip(i - 1) =~= s.skip(i));
        assert(seq![s[0]] + (s.take(i).drop_first() + seq![w] + s.skip(i)) =~= s.take(i)
            + seq![w] + s.skip(i));
    } else {
        assert(seq![w] + s =~= s.take(i) + seq![w] + s.skip(i));
    }
}

/// Sorts windows by start time, keeping the configured order of windows
/// that start together: scan order, and with it slot order, becomes
/// deterministic whatever order the store returned.
pub fn ordenar_janelas(windows: &Vec<WorkWindow>) -> (sorted: Vec<WorkWindow>)
    ensures
        sorted@ == spec_sort_windows(windows@),
        windows_sorted(sorted@),
        sorted@.len() == windows@.len(),
        (forall|i: int| 0 <= i < windows@.len() ==> (#[trigger] windows@[i]).wf()) ==> (forall|
            k: int,
        | 0 <= k < sorted@.len() ==> (#[trigger] sorted@[k]).wf()),
{
    let mut sorted: Vec<WorkWindow> = Vec::new();
    let mut n: usize = 0;
    while n < windows.len()
        invariant
            n <= windows@.len(),
            sorted@ == spec_sort_windows_upto(windows@, n as int),
            windows_sorted(sorted@),
            sorted@.len() == n,
            (forall|q: int| 0 <= q < windows@.len() ==> (#[trigger] windows@[q]).wf()) ==> (
            forall|k: int| 0 <= k < sorted@.len() ==> (#[trigger] sorted@[k]).wf()),
        decreases windows@.len() - n,
    {
        let w = windows[n];
        let ghost old_sorted = sorted@;
        let mut i: usize = 0;
        while i < sorted.len() && sorted[i].start_min <= w.start_min
            invariant
                i <= sorted@.len(),
                sorted@ == old_sorted,
                forall|k: int| 0 <= k < i ==> (#[trigger] sorted@[k]).start_min <= w.start_min,
            decreases sorted@.len() - i,
        {
            i = i + 1;
        }
        sorted.insert(i, w);
        proof {
            lemma_insert_at_position(w, old_sorted, i as int);
            let pos: int = i as int;
            assert(sorted@ =~= old_sorted.take(pos) + seq![w] + old_sorted.skip(pos));
            assert forall|a: int, b: int|
                0 <= a <= b < sorted@.len() implies (#[trigger] sorted@[a]).start_min <= (
            #[trigger] sorted@[b]).start_min by {
                if a < pos {
                    assert(sorted@[a] == old_sorted[a]);
                } else if a == pos {
                    assert(sorted@[a] == w);
                } else {
                    assert(sorted@[a] == old_sorted[a - 1]);
                }
                if b < pos {
                    assert(sorted@[b] == old_sorted[b]);
                } else if b == pos {
                    assert(sorted@[b] == w);
                } else {
                    assert(sorted@[b] == old_sorted[b - 1]);
                }
            }
        }
        n = n + 1;
    }
    proof {
        assert(spec_sort_windows_upto(windows@, windows@.len() as int) == spec_sort_windows(
            windows@,
        ));
    }
    sorted
}

} // verus!
