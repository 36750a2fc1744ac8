//! From the day's appointments to the intervals of time they occupy.
//!
//! Only appointments not yet marked completed occupy the calendar — a
//! completed appointment is treated as already in the past. Each pending
//! appointment occupies from its start for the summed duration of its
//! services plus the trailing buffer; no padding is added in front.

use vstd::prelude::*;

verus! {

/// Seconds in a day; appointment starts are seconds from midnight of the
/// scanned day and lie strictly below it.
pub const SECONDS_PER_DAY: u32 = 86400;

/// Minutes substituted when an appointment's services resolve to a total
/// duration of zero (no services found, or all of zero duration).
pub const FALLBACK_DURATION_MIN: u32 = 30;

/// Ceiling on a single service duration, in minutes: the widest value the
/// catalog's storage column can hold.
pub const MAX_SERVICE_MIN: u32 = 2147483647;

/// Ceiling on the number of service references one appointment may carry.
pub const MAX_SERVICES_PER_APPOINTMENT: usize = 100000;

/// One catalog entry: a service reference and its duration in minutes.
#[derive(Clone, Copy, Debug, PartialEq, Eq, Structural)]
pub struct ServiceDuration {
    pub id: i32,
    pub duracao_min: u32,
}

impl ServiceDuration {
    pub open spec fn wf(self) -> bool {
        self.duracao_min <= MAX_SERVICE_MIN
    }
}

pub open spec fn wf_catalog(catalog: Seq<ServiceDuration>) -> bool {
    forall|i: int| 0 <= i < catalog.len() ==> (#[trigger] catalog[i]).wf()
}

/// The engine's read-only view of one appointment of the scanned day.
#[derive(Debug)]
pub struct Appointment {
    /// Seconds from midnight of the scanned day.
    pub start_sec: u32,
    /// References into the service catalog.
    pub servicos_ids: Vec<i32>,
    /// Completed appointments no longer occupy the calendar.
    pub concluido: bool,
}

impl Appointment {
    pub open spec fn wf(self) -> bool {
        self.start_sec < SECONDS_PER_DAY && self.servicos_ids@.len()
            <= MAX_SERVICES_PER_APPOINTMENT as int
    }
}

pub open spec fn wf_appointments(appointments: Seq<Appointment>) -> bool {
    forall|i: int| 0 <= i < appointments.len() ==> (#[trigger] appointments[i]).wf()
}

/// A span of occupied time, in seconds from midnight of the scanned day,
/// half-open: the instant `end` itself is already free.
#[derive(Clone, Copy, Debug, PartialEq, Eq, Structural)]
pub struct OccupiedInterval {
    pub start: i64,
    pub end: i64,
}

/// Duration of the first catalog entry carrying `id`, searched from
/// position `from` on.
pub open spec fn spec_lookup_from(catalog: Seq<ServiceDuration>, id: i32, from: int) -> Option<u32>
    decreases catalog.len() - from,
{
    if from < 0 || from >= catalog.len() {
        None
    } else if catalog[from].id == id {
        Some(catalog[from].duracao_min)
    } else {
        spec_lookup_from(catalog, id, from + 1)
    }
}

pub open spec fn spec_lookup(catalog: Seq<ServiceDuration>, id: i32) -> Option<u32> {
    spec_lookup_from(catalog, id, 0)
}

/// Duration of the catalog entry carrying `id`, if any.
pub fn duracao_do_servico(catalog: &Vec<ServiceDuration>, id: i32) -> (r: Option<u32>)
    ensures
        r == spec_lookup(catalog@, id),
{
    let mut i: usize = 0;
    while i < catalog.len()
        invariant
            i <= catalog.len(),
            spec_lookup(catalog@, id) == spec_lookup_from(catalog@, id, i as int),
        decreases catalog.len() - i,
    {
        if catalog[i].id == id {
            return Some(catalog[i].duracao_min);
        }
        i = i + 1;
    }
    None
}

/// Summed duration, in minutes, of the service references `ids[from..]`
/// resolve to; a reference missing from the catalog contributes nothing.
pub open spec fn spec_total_minutes_from(
    catalog: Seq<ServiceDuration>,
    ids: Seq<i32>,
    from: int,
) -> int
    decreases ids.len() - from,
{
    if from < 0 || from >= ids.len() {
        0
    } else {
        (match spec_lookup(catalog, ids[from]) {
            Some(d) => d as int,
            None => 0,
        }) + spec_total_minutes_from(catalog, ids, from + 1)
    }
}

pub open spec fn spec_total_minutes(catalog: Seq<ServiceDuration>, ids: Seq<i32>) -> int {
    spec_total_minutes_from(catalog, ids, 0)
}

/// Minutes an appointment's services occupy: the resolved sum, or the
/// 30-minute fallback when that sum is zero.
pub open spec fn spec_occupancy_minutes(catalog: Seq<ServiceDuration>, ids: Seq<i32>) -> int {
    if spec_total_minutes(catalog, ids) == 0 {
        FALLBACK_DURATION_MIN as int
    } else {
        spec_total_minutes(catalog, ids)
    }
}

proof fn lemma_total_minutes_bound(catalog: Seq<ServiceDuration>, ids: Seq<i32>, from: int)
    requires
        wf_catalog(catalog),
        0 <= from <= ids.len(),
    ensures
        0 <= spec_total_minutes_from(catalog, ids, from) <= (ids.len() - from) * (
        MAX_SERVICE_MIN as int),
    decreases ids.len() - from,
{
    if from < ids.len() {
        lemma_total_minutes_bound(catalog, ids, from + 1);
        lemma_lookup_bound(catalog, ids[from], 0);
    }
}

proof fn lemma_lookup_bound(catalog: Seq<ServiceDuration>, id: i32, from: int)
    requires
        wf_catalog(catalog),
    ensures
        spec_lookup_from(catalog, id, from) matches Some(d) ==> d <= MAX_SERVICE_MIN,
    decreases catalog.len() - from,
{
    if 0 <= from < catalog.len() && catalog[from].id != id {
        lemma_lookup_bound(catalog, id, from + 1);
    }
}

/// Summed duration, in minutes, of the services an appointment references.
pub fn total_minutos(catalog: &Vec<ServiceDuration>, ids: &Vec<i32>) -> (t: u64)
    requires
        wf_catalog(catalog@),
        ids@.len() <= MAX_SERVICES_PER_APPOINTMENT as int,
    ensures
        t == spec_total_minutes(catalog@, ids@),
        t <= ids@.len() * (MAX_SERVICE_MIN as int),
{
    proof {
        lemma_total_minutes_bound(catalog@, ids@, 0);
    }
    let ghost total: int = spec_total_minutes(catalog@, ids@);
    let mut acc: u64 = 0;
    let mut i: usize = 0;
    while i < ids.len()
        invariant
            i <= ids@.len(),
            ids@.len() <= MAX_SERVICES_PER_APPOINTMENT as int,
            wf_catalog(catalog@),
            acc + spec_total_minutes_from(catalog@, ids@, i as int) == total,
            0 <= spec_total_minutes_from(catalog@, ids@, i as int) <= (ids@.len() - i) * (
            MAX_SERVICE_MIN as int),
            acc <= i * (MAX_SERVICE_MIN as int),
        decreases ids@.len() - i,
    {
        let d: u64 = match duracao_do_servico(catalog, ids[i]) {
            Some(d) => {
                proof {
                    lemma_lookup_bound(catalog@, ids@[i as int], 0);
                }
                d as u64
            }
            None => 0,
        };
        proof {
            lemma_total_minutes_bound(catalog@, ids@, i as int + 1);
        }
        acc = acc + d;
        i = i + 1;
    }
    acc
}

/// The interval a pending appointment occupies: from its start, for the
/// resolved service minutes plus the trailing buffer. Only the back is
/// padded.
pub open spec fn spec_interval_of(
    a: Appointment,
    catalog: Seq<ServiceDuration>,
    buffer_min: int,
) -> OccupiedInterval {
    OccupiedInterval {
        start: a.start_sec as i64,
        end: (a.start_sec + (spec_occupancy_minutes(catalog, a.servicos_ids@) + buffer_min)
            * 60) as i64,
    }
}

/// The occupied intervals contributed by the first `n` appointments:
/// completed ones contribute nothing, the rest one interval each, in
/// appointment order.
pub open spec fn spec_occupied_upto(
    appointments: Seq<Appointment>,
    catalog: Seq<ServiceDuration>,
    buffer_min: int,
    n: int,
) -> Seq<OccupiedInterval>
    decreases n,
{
    if n <= 0 {
        Seq::empty()
    } else {
        let init = spec_occupied_upto(appointments, catalog, buffer_min, n - 1);
        if appointments[n - 1].concluido {
            init
        } else {
            init.push(spec_interval_of(appointments[n - 1], catalog, buffer_min))
        }
    }
}

pub open spec fn spec_occupied(
    appointments: Seq<Appointment>,
    catalog: Seq<ServiceDuration>,
    buffer_min: int,
) -> Seq<OccupiedInterval> {
    spec_occupied_upto(appointments, catalog, buffer_min, appointments.len() as int)
}

/// Derives the day's occupied intervals from its appointments.
pub fn intervalos_ocupados(
    appointments: &Vec<Appointment>,
    catalog: &Vec<ServiceDuration>,
    buffer_min: i64,
) -> (occ: Vec<OccupiedInterval>)
    requires
        wf_catalog(catalog@),
        wf_appointments(appointments@),
        0 <= buffer_min <= 100000000,
    ensures
        occ@ == spec_occupied(appointments@, catalog@, buffer_min as int),
{
    let mut occ: Vec<OccupiedInterval> = Vec::new();
    let mut i: usize = 0;
    while i < appointments.len()
        invariant
            i <= appointments@.len(),
            wf_catalog(catalog@),
            wf_appointments(appointments@),
            0 <= buffer_min <= 100000000,
            occ@ == spec_occupied_upto(appointments@, catalog@, buffer_min as int, i as int),
        decreases appointments@.len() - i,
    {
        let a = &appointments[i];
        if !a.concluido {
            let total: u64 = total_minutos(catalog, &a.servicos_ids);
            let minutes: i64 = if total == 0 {
                FALLBACK_DURATION_MIN as i64
            } else {
                total as i64
            };
            let start: i64 = a.start_sec as i64;
            let end: i64 = start + (minutes + buffer_min) * 60;
            occ.push(OccupiedInterval { start, end });
        }
        i = i + 1;
    }
    occ
}

} // verus!
