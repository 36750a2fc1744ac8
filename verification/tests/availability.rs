use agenda::availability::{calcular_disponibilidade, verificar_conflito, AvailabilityError};
use agenda::occupancy::{Appointment, ServiceDuration};
use agenda::schedule::WorkWindow;

fn window(start_min: u32, end_min: u32) -> WorkWindow {
    WorkWindow { start_min, end_min }
}

fn service(id: i32, duracao_min: u32) -> ServiceDuration {
    ServiceDuration { id, duracao_min }
}

fn appointment(start_sec: u32, servicos_ids: Vec<i32>, concluido: bool) -> Appointment {
    Appointment { start_sec, servicos_ids, concluido }
}

#[test]
fn scenario_morning_window_with_one_pending_appointment() {
    // Window 09:00-12:00, a pending appointment at 10:00 using a 30-minute
    // service, buffer 15, granularity 15. The appointment occupies
    // [10:00, 10:45); candidates need 45 padded minutes clear.
    let windows = vec![window(540, 720)];
    let catalog = vec![service(1, 30)];
    let appointments = vec![appointment(10 * 3600, vec![1], false)];
    let slots =
        calcular_disponibilidade("2025-12-01", 30, 15, 15, &windows, &appointments, &catalog)
            .unwrap();
    assert_eq!(
        slots,
        vec![
            "2025-12-01T09:00:00".to_string(),
            "2025-12-01T09:15:00".to_string(),
            "2025-12-01T10:45:00".to_string(),
            "2025-12-01T11:00:00".to_string(),
            "2025-12-01T11:15:00".to_string(),
            "2025-12-01T11:30:00".to_string(),
        ]
    );
}

#[test]
fn scenario_empty_day_hourly_slots_at_half_hour_steps() {
    // Window 08:00-18:00, duration 60, buffer 0, granularity 30, no
    // appointments: every half hour from 08:00 through 17:00 fits.
    let windows = vec![window(480, 1080)];
    let catalog: Vec<ServiceDuration> = Vec::new();
    let appointments: Vec<Appointment> = Vec::new();
    let slots =
        calcular_disponibilidade("2025-12-02", 60, 0, 30, &windows, &appointments, &catalog)
            .unwrap();
    let mut expected: Vec<String> = Vec::new();
    for half_hours in 0..19 {
        let minutes = 480 + 30 * half_hours;
        expected.push(format!("2025-12-02T{:02}:{:02}:00", minutes / 60, minutes % 60));
    }
    assert_eq!(slots.len(), 19);
    assert_eq!(slots, expected);
}

#[test]
fn scenario_completed_appointment_does_not_block() {
    // A completed appointment at 14:00 occupying an hour does not block the
    // 14:00 slot; the same appointment still pending does.
    let windows = vec![window(840, 960)];
    let catalog = vec![service(7, 60)];
    let done = vec![appointment(14 * 3600, vec![7], true)];
    let slots = calcular_disponibilidade("2025-12-03", 60, 0, 60, &windows, &done, &catalog)
        .unwrap();
    assert_eq!(slots, vec!["2025-12-03T14:00:00".to_string(), "2025-12-03T15:00:00".to_string()]);

    let pending = vec![appointment(14 * 3600, vec![7], false)];
    let slots = calcular_disponibilidade("2025-12-03", 60, 0, 60, &windows, &pending, &catalog)
        .unwrap();
    assert_eq!(slots, vec!["2025-12-03T15:00:00".to_string()]);
}

#[test]
fn candidate_touching_occupied_start_is_accepted() {
    // Half-open semantics: a candidate whose padded end equals the occupied
    // start is kept. Appointment at 10:00 for 60 minutes, buffer 0; the
    // 09:00 slot of 60 minutes ends exactly at 10:00 and is accepted.
    let windows = vec![window(540, 720)];
    let catalog = vec![service(1, 60)];
    let appointments = vec![appointment(10 * 3600, vec![1], false)];
    let slots =
        calcular_disponibilidade("2025-12-04", 60, 0, 60, &windows, &appointments, &catalog)
            .unwrap();
    assert_eq!(slots, vec!["2025-12-04T09:00:00".to_string(), "2025-12-04T11:00:00".to_string()]);
}

#[test]
fn duration_longer_than_window_yields_no_slots() {
    // Window 09:00-10:00 cannot host 90 minutes.
    let windows = vec![window(540, 600)];
    let catalog: Vec<ServiceDuration> = Vec::new();
    let appointments: Vec<Appointment> = Vec::new();
    let slots =
        calcular_disponibilidade("2025-12-05", 90, 0, 15, &windows, &appointments, &catalog)
            .unwrap();
    assert!(slots.is_empty());
}

#[test]
fn no_configured_windows_behaves_like_default_window() {
    // A weekday with no windows scans exactly as if 08:00-18:00 were its
    // one configured window.
    let catalog = vec![service(2, 45)];
    let appointments = vec![appointment(9 * 3600, vec![2], false)];
    let none: Vec<WorkWindow> = Vec::new();
    let default_only = vec![window(480, 1080)];
    let from_fallback =
        calcular_disponibilidade("2025-12-06", 30, 15, 15, &none, &appointments, &catalog)
            .unwrap();
    let from_configured =
        calcular_disponibilidade("2025-12-06", 30, 15, 15, &default_only, &appointments, &catalog)
            .unwrap();
    assert_eq!(from_fallback, from_configured);
    assert_eq!(from_fallback.first().unwrap(), "2025-12-06T08:00:00");
    assert_eq!(from_fallback.last().unwrap(), "2025-12-06T17:30:00");
}

#[test]
fn scan_is_idempotent_on_identical_inputs() {
    let windows = vec![window(540, 720), window(780, 1080)];
    let catalog = vec![service(1, 30), service(2, 45)];
    let appointments =
        vec![appointment(10 * 3600, vec![1, 2], false), appointment(15 * 3600, vec![2], false)];
    let first =
        calcular_disponibilidade("2025-12-01", 30, 15, 15, &windows, &appointments, &catalog)
            .unwrap();
    let second =
        calcular_disponibilidade("2025-12-01", 30, 15, 15, &windows, &appointments, &catalog)
            .unwrap();
    assert_eq!(first, second);
}

#[test]
fn multi_window_slots_concatenate_in_window_order() {
    let windows = vec![window(540, 660), window(840, 960)];
    let catalog: Vec<ServiceDuration> = Vec::new();
    let appointments: Vec<Appointment> = Vec::new();
    let slots =
        calcular_disponibilidade("2025-12-01", 60, 0, 60, &windows, &appointments, &catalog)
            .unwrap();
    assert_eq!(
        slots,
        vec![
            "2025-12-01T09:00:00".to_string(),
            "2025-12-01T10:00:00".to_string(),
            "2025-12-01T14:00:00".to_string(),
            "2025-12-01T15:00:00".to_string(),
        ]
    );
}

#[test]
fn appointment_with_unresolved_services_occupies_thirty_minutes() {
    // The referenced service is missing from the catalog: the appointment
    // still occupies the documented 30-minute fallback (plus buffer).
    let windows = vec![window(540, 660)];
    let catalog: Vec<ServiceDuration> = Vec::new();
    let appointments = vec![appointment(9 * 3600, vec![99], false)];
    let slots =
        calcular_disponibilidade("2025-12-01", 30, 0, 30, &windows, &appointments, &catalog)
            .unwrap();
    // Occupied [09:00, 09:30): the 09:00 and (nothing at 09:15 probed,
    // granularity 30) slots resume at 09:30.
    assert_eq!(slots, vec!["2025-12-01T09:30:00".to_string(), "2025-12-01T10:00:00".to_string(),
        "2025-12-01T10:30:00".to_string()]);
}

#[test]
fn zero_duration_services_also_occupy_thirty_minutes() {
    let windows = vec![window(540, 660)];
    let catalog = vec![service(1, 0)];
    let appointments = vec![appointment(9 * 3600, vec![1], false)];
    let slots =
        calcular_disponibilidade("2025-12-01", 30, 0, 30, &windows, &appointments, &catalog)
            .unwrap();
    assert_eq!(slots, vec!["2025-12-01T09:30:00".to_string(), "2025-12-01T10:00:00".to_string(),
        "2025-12-01T10:30:00".to_string()]);
}

#[test]
fn multi_service_appointment_occupies_the_summed_duration() {
    // Two services of 30 and 45 minutes: the appointment at 10:00 occupies
    // [10:00, 11:15) with buffer 0.
    let windows = vec![window(600, 720)];
    let catalog = vec![service(1, 30), service(2, 45)];
    let appointments = vec![appointment(10 * 3600, vec![1, 2], false)];
    let slots =
        calcular_disponibilidade("2025-12-01", 15, 0, 15, &windows, &appointments, &catalog)
            .unwrap();
    assert_eq!(
        slots,
        vec!["2025-12-01T11:15:00".to_string(), "2025-12-01T11:30:00".to_string(),
            "2025-12-01T11:45:00".to_string()]
    );
}

#[test]
fn malformed_date_is_rejected_before_anything_else() {
    let windows: Vec<WorkWindow> = Vec::new();
    let catalog: Vec<ServiceDuration> = Vec::new();
    let appointments: Vec<Appointment> = Vec::new();
    let r = calcular_disponibilidade("01/12/2025", 30, 15, 15, &windows, &appointments, &catalog);
    assert_eq!(r.unwrap_err(), AvailabilityError::DataInvalida);
    let r = calcular_disponibilidade("2025-02-30", 30, 15, 15, &windows, &appointments, &catalog);
    assert_eq!(r.unwrap_err(), AvailabilityError::DataInvalida);
    // The date is checked first, even when the parameters are bad too.
    let r = calcular_disponibilidade("nonsense", 30, 15, 0, &windows, &appointments, &catalog);
    assert_eq!(r.unwrap_err(), AvailabilityError::DataInvalida);
}

#[test]
fn degenerate_parameters_are_rejected() {
    let windows: Vec<WorkWindow> = Vec::new();
    let catalog: Vec<ServiceDuration> = Vec::new();
    let appointments: Vec<Appointment> = Vec::new();
    let r = calcular_disponibilidade("2025-12-01", 30, 15, 0, &windows, &appointments, &catalog);
    assert_eq!(r.unwrap_err(), AvailabilityError::ParametroInvalido);
    let r = calcular_disponibilidade("2025-12-01", -1, 15, 15, &windows, &appointments, &catalog);
    assert_eq!(r.unwrap_err(), AvailabilityError::ParametroInvalido);
    let r = calcular_disponibilidade("2025-12-01", 30, -5, 15, &windows, &appointments, &catalog);
    assert_eq!(r.unwrap_err(), AvailabilityError::ParametroInvalido);
    // Zero duration and zero buffer are valid.
    let r = calcular_disponibilidade("2025-12-01", 0, 0, 30, &windows, &appointments, &catalog);
    assert!(r.is_ok());
}

#[test]
fn booking_guard_matches_exact_pending_starts_only() {
    let appointments = vec![
        appointment(10 * 3600, vec![1], false),
        appointment(14 * 3600, vec![1], true),
    ];
    // A pending appointment at exactly 10:00 conflicts.
    assert!(verificar_conflito(&appointments, 10 * 3600));
    // One second off is no conflict: the guard is exact-start only.
    assert!(!verificar_conflito(&appointments, 10 * 3600 + 1));
    // A completed appointment never conflicts.
    assert!(!verificar_conflito(&appointments, 14 * 3600));
}
