//! The heartbeat event stream: a periodic event whose payload is the current
//! timestamp, whose id counts up monotonically, and which carries a fixed
//! reconnect hint.

use crate::decimal::{dec_rep, u64_to_decimal};
use vstd::prelude::*;
use vstd::string::StringExecFns;

verus! {

/// One server-sent heartbeat event.
pub struct SseEvent {
    /// The current timestamp, in RFC 3339 form.
    pub data: String,
    /// The event id: the decimal value of the stream's counter.
    pub id: String,
    /// The reconnect hint handed to the client, in milliseconds.
    pub retry_ms: u64,
}

#[verifier::external_type_specification]
#[verifier::external_body]
pub struct ExSystemTime(std::time::SystemTime);

/// Relies on std::time::SystemTime::now: reads the system clock. The result
/// depends on the machine, so nothing is promised of it.
#[verifier::external_body]
fn system_clock_now() -> (t: std::time::SystemTime) {
    std::time::SystemTime::now()
}

/// Relies on SystemTime::duration_since: the time since the Unix epoch, as
/// whole seconds and the leftover nanoseconds, or nothing when the clock is
/// set before the epoch. The call reports that case as an error rather than
/// panicking, and the result depends on the clock, so nothing further is
/// promised of it.
#[verifier::external_body]
fn unix_time(t: std::time::SystemTime) -> (r: Option<(u64, u32)>) {
    match t.duration_since(std::time::UNIX_EPOCH) {
        Ok(d) => Some((d.as_secs(), d.subsec_nanos())),
        Err(_) => None,
    }
}

/// Relies on chrono::DateTime::from_timestamp and DateTime::to_rfc3339: the
/// given Unix time rendered in RFC 3339 form, or nothing when chrono cannot
/// represent the instant (from_timestamp returns `None` then; neither call
/// panics). An RFC 3339 timestamp is never empty.
#[verifier::external_body]
fn timestamp_rfc3339(secs: u64, nanos: u32) -> (r: Option<String>)
    ensures
        r matches Some(s) ==> s@.len() > 0,
{
    match chrono::DateTime::from_timestamp(secs as i64, nanos) {
        Some(dt) => Some(dt.to_rfc3339()),
        None => None,
    }
}

/// The payload used when the system clock cannot be read or represented:
/// the epoch itself, in RFC 3339 form.
fn fallback_timestamp() -> (s: String)
    ensures
        s@ == "1970-01-01T00:00:00+00:00"@,
        s@.len() > 0,
{
    proof {
        reveal_strlit("1970-01-01T00:00:00+00:00");
    }
    String::from_str("1970-01-01T00:00:00+00:00")
}

/// Builds the heartbeat event for one tick: the current timestamp as the
/// payload (falling back to the epoch when the clock is unreadable or out of
/// range), the counter as the event id, and a 500 ms reconnect hint. The
/// payload is never empty.
pub fn sse_counter(counter: u64) -> (e: SseEvent)
    ensures
        e.id@ == dec_rep(counter as nat),
        e.retry_ms == 500,
        e.data@.len() > 0,
{
    let data = match unix_time(system_clock_now()) {
        Some(parts) => match timestamp_rfc3339(parts.0, parts.1) {
            Some(text) => text,
            None => fallback_timestamp(),
        },
        None => fallback_timestamp(),
    };
    SseEvent { data, id: u64_to_decimal(counter), retry_ms: 500 }
}

/// Advances the stream's counter and builds the next heartbeat, so event ids
/// increase monotonically along the stream.
pub fn next_heartbeat(counter: &mut u64) -> (e: SseEvent)
    requires
        *old(counter) < u64::MAX,
    ensures
        *final(counter) == *old(counter) + 1,
        e.id@ == dec_rep(*final(counter) as nat),
        e.retry_ms == 500,
        e.data@.len() > 0,
{
    *counter = *counter + 1;
    sse_counter(*counter)
}

} // verus!
