//! The wall clock, as text.

use crate::constants::UNIX_EPOCH_TIMESTAMP;
use vstd::prelude::*;
use vstd::string::StringExecFns;

verus! {

/// What `DateTime::to_rfc3339` writes for the instant that lies `secs`
/// seconds and `nanos` nanoseconds after the Unix epoch, in UTC; `None`
/// where `DateTime::from_timestamp` knows no such instant.
pub uninterp spec fn rfc3339_text(secs: int, nanos: int) -> Option<Seq<char>>;

/// `SystemTime::elapsed` on `UNIX_EPOCH`: the whole seconds and the
/// nanoseconds beyond them that have passed since the Unix epoch, or
/// `None` where the system clock stands before it. Nothing is claimed of
/// the numbers: they differ from call to call.
#[verifier::external_body]
pub(crate) fn since_unix_epoch() -> (r: Option<(u64, u32)>) {
    let elapsed = std::time::UNIX_EPOCH.elapsed().ok()?;
    Some((elapsed.as_secs(), elapsed.subsec_nanos()))
}

/// `chrono::DateTime::from_timestamp`, rendered by `DateTime::to_rfc3339`:
/// the instant as text, or `None` where the seconds are out of range or
/// the nanoseconds are no part of a second.
#[verifier::external_body]
pub(crate) fn rfc3339_at(secs: i64, nanos: u32) -> (r: Option<String>)
    ensures
        crate::model::optional_text(r) == rfc3339_text(secs as int, nanos as int),
{
    let instant = chrono::DateTime::from_timestamp(secs, nanos)?;
    Some(instant.to_rfc3339())
}

/// The timestamp for a reading of the clock: the instant as text, and the
/// Unix epoch as text where the clock gave no reading or the reading is no
/// instant that can be written.
pub open spec fn timestamp_for(reading: Option<(u64, u32)>) -> Seq<char> {
    match reading {
        Some((secs, nanos)) => if secs <= i64::MAX {
            match rfc3339_text(secs as int, nanos as int) {
                Some(text) => text,
                None => UNIX_EPOCH_TIMESTAMP@,
            }
        } else {
            UNIX_EPOCH_TIMESTAMP@
        },
        None => UNIX_EPOCH_TIMESTAMP@,
    }
}

/// Whether a text is the timestamp for some reading of the clock.
pub open spec fn is_timestamp(text: Seq<char>) -> bool {
    exists|reading: Option<(u64, u32)>| text == timestamp_for(reading)
}

/// The timestamp for a reading of the clock.
pub fn timestamp_of(reading: Option<(u64, u32)>) -> (r: String)
    ensures
        r@ == timestamp_for(reading),
{
    match reading {
        Some((secs, nanos)) => {
            if secs <= 9223372036854775807u64 {
                match rfc3339_at(secs as i64, nanos) {
                    Some(text) => text,
                    None => String::from_str(UNIX_EPOCH_TIMESTAMP),
                }
            } else {
                String::from_str(UNIX_EPOCH_TIMESTAMP)
            }
        },
        None => String::from_str(UNIX_EPOCH_TIMESTAMP),
    }
}

/// The timestamp for the clock as it stands now.
pub fn timestamp_now() -> (r: String)
    ensures
        is_timestamp(r@),
{
    let reading = since_unix_epoch();
    let text = timestamp_of(reading);
    assert(text@ == timestamp_for(reading));
    text
}

} // verus!
