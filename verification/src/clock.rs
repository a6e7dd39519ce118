//! The wall clock and timestamp display. The clock is read through std's
//! `SystemTime`, without the panic chrono's `now` hides behind it; the
//! rendering of a given second comes from chrono and is a fixed text, named
//! but not spelled out.

use vstd::prelude::*;

use chrono::DateTime;
use chrono::Utc;

verus! {

/// Relies on std's `SystemTime::now` measured against `UNIX_EPOCH`: a clock
/// set before the epoch gives an error, a reading beyond `i64` milliseconds
/// does not convert, and every reading that comes back is non-negative.
#[verifier::external_body]
fn clock_millis() -> (r: Option<i64>)
    ensures
        r is Some ==> r->0 >= 0,
{
    match std::time::SystemTime::now().duration_since(std::time::UNIX_EPOCH) {
        Ok(elapsed) => i64::try_from(elapsed.as_millis()).ok(),
        Err(_) => None,
    }
}

/// Milliseconds since the epoch, never negative: a clock reading the wrapper
/// cannot use — one set before the epoch, or absurdly far beyond it — counts
/// as the epoch itself, whose records the queue treats as unusable.
pub(crate) fn now_millis() -> (r: i64)
    ensures
        r >= 0,
{
    match clock_millis() {
        Some(millis) => millis,
        None => 0,
    }
}

/// The text chrono renders for a UTC time given in whole seconds. It depends
/// on the seconds alone.
pub uninterp spec fn spec_utc_time_text(secs: int) -> Seq<char>;

/// Relies on chrono's `DateTime::from_timestamp` and the `Display` of
/// `DateTime<Utc>`: for an in-range number of seconds the result is the fixed
/// UTC rendering of that second; out-of-range seconds give nothing, without
/// panicking. The source states the range only through its calendar limits,
/// so when `Some` is owed is not claimed here.
#[verifier::external_body]
pub(crate) fn utc_time_text(secs: i64) -> (r: Option<String>)
    ensures
        r is Some ==> r->0@ == spec_utc_time_text(secs as int),
{
    DateTime::<Utc>::from_timestamp(secs, 0).map(|dt| dt.to_string())
}

} // verus!
