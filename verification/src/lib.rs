//! Availability engine for a single-location booking system.
//!
//! The engine answers one question: given a calendar date, a requested
//! duration, a trailing buffer and a scan granularity, which start times fit
//! entirely inside the configured work windows without touching the time
//! already occupied by pending appointments?
//!
//! Every computation here is pure: callers fetch the day's appointments, the
//! configured work windows and the service catalog from whatever store they
//! use, hand them over as plain values, and receive the ordered list of
//! bookable start times back.

pub mod availability;
pub mod dates;
pub mod models;
pub mod occupancy;
pub mod render;
pub mod scan;
pub mod schedule;
