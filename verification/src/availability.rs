//! The availability pipeline: from a request date and the day's data to
//! the ordered list of bookable start times, and the separate exact-start
//! conflict test used at booking time.

use vstd::prelude::*;
use crate::dates::{CalendarDate, is_date_string, parse_data, spec_parsed_date};
use crate::occupancy::{
    Appointment, OccupiedInterval, ServiceDuration, intervalos_ocupados, spec_occupied,
    wf_appointments, wf_catalog,
};
use crate::render::{render_slot, spec_render_slot};
use crate::scan::{escanear_janelas, spec_scan_starts, spec_scan_windows, spec_scan_windows_upto};
use crate::schedule::{WorkWindow, default_window, spec_default_window};

verus! {

/// Why an availability request was rejected before any scan ran.
#[derive(Clone, Copy, Debug, PartialEq, Eq, Structural)]
pub enum AvailabilityError {
    /// The request date does not name a `YYYY-MM-DD` calendar date.
    DataInvalida,
    /// Duration or buffer below zero, or a granularity below one minute —
    /// a zero granularity would never advance the scan.
    ParametroInvalido,
}

/// The minute parameters a scan accepts: non-negative duration and buffer,
/// strictly positive granularity.
pub open spec fn valid_params(dur_min: int, buf_min: int, gran_min: int) -> bool {
    dur_min >= 0 && buf_min >= 0 && gran_min >= 1
}

/// The windows actually scanned: the configured ones, or the single
/// default window when the weekday has none.
pub open spec fn spec_effective_windows(windows: Seq<WorkWindow>) -> Seq<WorkWindow> {
    if windows.len() == 0 {
        seq![spec_default_window()]
    } else {
        windows
    }
}

/// Applies the fallback policy to the configured window list.
pub fn janelas_efetivas(windows: &Vec<WorkWindow>) -> (eff: Vec<WorkWindow>)
    requires
        forall|i: int| 0 <= i < windows@.len() ==> (#[trigger] windows@[i]).wf(),
    ensures
        eff@ == spec_effective_windows(windows@),
        forall|i: int| 0 <= i < eff@.len() ==> (#[trigger] eff@[i]).wf(),
{
    let mut eff: Vec<WorkWindow> = Vec::new();
    if windows.len() == 0 {
        eff.push(default_window());
    } else {
        let mut i: usize = 0;
        while i < windows.len()
            invariant
                i <= windows@.len(),
                eff@ == windows@.take(i as int),
            decreases windows@.len() - i,
        {
            eff.push(windows[i]);
            i = i + 1;
        }
        proof {
            assert(windows@.take(windows@.len() as int) =~= windows@);
        }
    }
    eff
}

/// Everything the engine promises about one request: the slot strings, in
/// scan order, obtained by scanning the effective windows against the
/// occupied intervals of the day's pending appointments.
pub open spec fn spec_availability(
    date: CalendarDate,
    dur_min: int,
    buf_min: int,
    gran_min: int,
    windows: Seq<WorkWindow>,
    appointments: Seq<Appointment>,
    catalog: Seq<ServiceDuration>,
) -> Seq<Seq<char>> {
    let starts = spec_scan_windows(
        spec_effective_windows(windows),
        spec_occupied(appointments, catalog, buf_min),
        dur_min * 60,
        buf_min * 60,
        gran_min * 60,
    );
    Seq::new(starts.len(), |i: int| spec_render_slot(date, starts[i] as int))
}

/// Every start a single-window scan keeps is a second of the scanned day.
proof fn lemma_scan_starts_in_day(
    cursor: int,
    wend: int,
    dur: int,
    buf: int,
    gran: int,
    occ: Seq<OccupiedInterval>,
)
    requires
        0 <= cursor,
        wend <= 86340,
        1 <= gran <= 6000000000,
    ensures
        forall|i: int|
            0 <= i < spec_scan_starts(cursor, wend, dur, buf, gran, occ).len() ==> 0 <= (
            #[trigger] spec_scan_starts(cursor, wend, dur, buf, gran, occ)[i]) < 86400,
    decreases wend - cursor + gran,
{
    if dur < 0 || gran < 1 || cursor + dur > wend {
    } else {
        lemma_scan_starts_in_day(cursor + gran, wend, dur, buf, gran, occ);
        let s = spec_scan_starts(cursor, wend, dur, buf, gran, occ);
        let rest = spec_scan_starts(cursor + gran, wend, dur, buf, gran, occ);
        if crate::scan::spec_slot_free(cursor, dur, buf, occ) {
            assert(s == seq![cursor as i64] + rest);
            assert forall|i: int| 0 <= i < s.len() implies 0 <= #[trigger] s[i] < 86400 by {
                if i == 0 {
                    assert(s[0] == cursor as i64);
                } else {
                    assert(s[i] == rest[i - 1]);
                }
            }
        } else {
            assert(s == rest);
        }
    }
}

/// Every start a multi-window scan keeps is a second of the scanned day.
proof fn lemma_scan_windows_in_day(
    windows: Seq<WorkWindow>,
    occ: Seq<OccupiedInterval>,
    dur: int,
    buf: int,
    gran: int,
    n: int,
)
    requires
        forall|i: int| 0 <= i < windows.len() ==> (#[trigger] windows[i]).wf(),
        1 <= gran <= 6000000000,
        n <= windows.len(),
    ensures
        forall|i: int|
            0 <= i < spec_scan_windows_upto(windows, occ, dur, buf, gran, n).len() ==> 0 <= (
            #[trigger] spec_scan_windows_upto(windows, occ, dur, buf, gran, n)[i]) < 86400,
    decreases n,
{
    if n > 0 {
        lemma_scan_windows_in_day(windows, occ, dur, buf, gran, n - 1);
        lemma_scan_starts_in_day(
            windows[n - 1].start_min * 60,
            windows[n - 1].end_min * 60,
            dur,
            buf,
            gran,
            occ,
        );
        let s = spec_scan_windows_upto(windows, occ, dur, buf, gran, n);
        let init = spec_scan_windows_upto(windows, occ, dur, buf, gran, n - 1);
        let part = spec_scan_starts(
            windows[n - 1].start_min * 60,
            windows[n - 1].end_min * 60,
            dur,
            buf,
            gran,
            occ,
        );
        assert(s == init + part);
        assert forall|i: int| 0 <= i < s.len() implies 0 <= #[trigger] s[i] < 86400 by {
            if i < init.len() {
                assert(s[i] == init[i]);
            } else {
                assert(s[i] == part[i - init.len()]);
            }
        }
    }
}

/// Computes the bookable start times of one date.
///
/// The date must be a well-formed `YYYY-MM-DD` string naming a real
/// calendar date, the duration and buffer non-negative, the granularity at
/// least one minute; each violation is reported, the date checked first.
/// On success the result is exactly the scan of the effective windows, as
/// `spec_availability` states it.
pub fn calcular_disponibilidade(
    data_str: &str,
    duracao_min: i64,
    buffer_min: i64,
    granularity_min: i64,
    windows: &Vec<WorkWindow>,
    appointments: &Vec<Appointment>,
    catalog: &Vec<ServiceDuration>,
) -> (r: Result<Vec<String>, AvailabilityError>)
    requires
        duracao_min <= 100000000,
        buffer_min <= 100000000,
        granularity_min <= 100000000,
        forall|i: int| 0 <= i < windows@.len() ==> (#[trigger] windows@[i]).wf(),
        wf_appointments(appointments@),
        wf_catalog(catalog@),
    ensures
        !is_date_string(data_str@) ==> r == Err::<Vec<String>, AvailabilityError>(
            AvailabilityError::DataInvalida,
        ),
        is_date_string(data_str@) && !valid_params(
            duracao_min as int,
            buffer_min as int,
            granularity_min as int,
        ) ==> r == Err::<Vec<String>, AvailabilityError>(AvailabilityError::ParametroInvalido),
        is_date_string(data_str@) && valid_params(
            duracao_min as int,
            buffer_min as int,
            granularity_min as int,
        ) ==> r is Ok,
        r is Ok ==> r->Ok_0@.len() == spec_availability(
            spec_parsed_date(data_str@),
            duracao_min as int,
            buffer_min as int,
            granularity_min as int,
            windows@,
            appointments@,
            catalog@,
        ).len(),
        r is Ok ==> forall|i: int|
            0 <= i < r->Ok_0@.len() ==> (#[trigger] r->Ok_0@[i])@ == spec_availability(
                spec_parsed_date(data_str@),
                duracao_min as int,
                buffer_min as int,
                granularity_min as int,
                windows@,
                appointments@,
                catalog@,
            )[i],
{
    let date: CalendarDate = match parse_data(data_str) {
        Some(d) => d,
        None => {
            return Err(AvailabilityError::DataInvalida);
        }
    };
    if !(duracao_min >= 0 && buffer_min >= 0 && granularity_min >= 1) {
        return Err(AvailabilityError::ParametroInvalido);
    }
    let eff = janelas_efetivas(windows);
    let occ = intervalos_ocupados(appointments, catalog, buffer_min);
    let starts = escanear_janelas(&eff, &occ, duracao_min * 60, buffer_min * 60, granularity_min * 60);
    proof {
        lemma_scan_windows_in_day(
            eff@,
            occ@,
            duracao_min as int * 60,
            buffer_min as int * 60,
            granularity_min as int * 60,
            eff@.len() as int,
        );
    }
    let ghost expected = spec_availability(
        spec_parsed_date(data_str@),
        duracao_min as int,
        buffer_min as int,
        granularity_min as int,
        windows@,
        appointments@,
        catalog@,
    );
    let mut slots: Vec<String> = Vec::new();
    let mut i: usize = 0;
    while i < starts.len()
        invariant
            i <= starts@.len(),
            date.valid(),
            forall|k: int| 0 <= k < starts@.len() ==> 0 <= (#[trigger] starts@[k]) < 86400,
            expected.len() == starts@.len(),
            forall|k: int|
                0 <= k < starts@.len() ==> expected[k] == spec_render_slot(
                    date,
                    starts@[k] as int,
                ),
            slots@.len() == i,
            forall|k: int| 0 <= k < i ==> (#[trigger] slots@[k])@ == expected[k],
        decreases starts@.len() - i,
    {
        let s = render_slot(&date, starts[i]);
        slots.push(s);
        i = i + 1;
    }
    Ok(slots)
}

/// Whether some pending appointment starts at exactly `start_sec` seconds
/// into the day.
pub open spec fn spec_has_start_conflict(appointments: Seq<Appointment>, start_sec: int) -> bool {
    exists|i: int|
        0 <= i < appointments.len() && !(#[trigger] appointments[i]).concluido
            && appointments[i].start_sec == start_sec
}

/// The booking-time guard: whether a pending appointment already starts at
/// the proposed instant. Deliberately weaker than the scan's interval
/// test — only exact start equality counts, never mere overlap.
pub fn verificar_conflito(appointments: &Vec<Appointment>, start_sec: u32) -> (b: bool)
    ensures
        b == spec_has_start_conflict(appointments@, start_sec as int),
{
    let mut i: usize = 0;
    while i < appointments.len()
        invariant
            i <= appointments@.len(),
            forall|k: int|
                0 <= k < i ==> (#[trigger] appointments@[k]).concluido
                    || appointments@[k].start_sec != start_sec,
        decreases appointments@.len() - i,
    {
        if !appointments[i].concluido && appointments[i].start_sec == start_sec {
            return true;
        }
        i = i + 1;
    }
    false
}

/// Running the scan twice on identical inputs yields the identical ordered
/// slot list: the result is a function of the inputs alone.
pub proof fn lemma_disponibilidade_deterministica(
    date: CalendarDate,
    dur_min: int,
    buf_min: int,
    gran_min: int,
    windows: Seq<WorkWindow>,
    appointments: Seq<Appointment>,
    catalog: Seq<ServiceDuration>,
    r1: Seq<Seq<char>>,
    r2: Seq<Seq<char>>,
)
    requires
        r1 == spec_availability(date, dur_min, buf_min, gran_min, windows, appointments, catalog),
        r2 == spec_availability(date, dur_min, buf_min, gran_min, windows, appointments, catalog),
    ensures
        r1 == r2,
{
}

/// A weekday with no configured window behaves exactly like one whose
/// single configured window is the default 08:00 to 18:00.
pub proof fn lemma_fallback_igual_janela_padrao(
    date: CalendarDate,
    dur_min: int,
    buf_min: int,
    gran_min: int,
    appointments: Seq<Appointment>,
    catalog: Seq<ServiceDuration>,
)
    ensures
        spec_availability(
            date,
            dur_min,
            buf_min,
            gran_min,
            Seq::<WorkWindow>::empty(),
            appointments,
            catalog,
        ) == spec_availability(
            date,
            dur_min,
            buf_min,
            gran_min,
            seq![spec_default_window()],
            appointments,
            catalog,
        ),
{
    assert(spec_effective_windows(Seq::<WorkWindow>::empty()) =~= spec_effective_windows(
        seq![spec_default_window()],
    ));
}

} // verus!
