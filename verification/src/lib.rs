//! Deadline-coalescing timer multiplexer.
//!
//! A fixed set of events, identified by small integer ordinals, shares one
//! reprogrammable single-shot alarm. Each event owns a slot that may hold an
//! absolute deadline; repeated registrations for the same event coalesce to
//! the soonest deadline requested. The armed cursor always points at the
//! occupied slot with the minimum deadline, which is what the single alarm is
//! programmed to.

pub mod model;
pub mod timer;
