//! The time of a verification.

use vstd::prelude::*;

use crate::error::{TlsError, TlsErrorView};

verus! {

/// Nanoseconds in a second.
pub const NANOSECONDS_PER_SECOND: i128 = 1_000_000_000;

/// The first second of the year -9999 (UTC), counted from the start of 1970.
pub const FIRST_SECOND: i64 = -377_705_116_800;

/// The last second of the year 9999 (UTC), counted from the start of 1970.
pub const LAST_SECOND: i64 = 253_402_300_799;

/// Calls `x509_parser::time::ASN1Time::from_timestamp`. Claimed: it takes the seconds of the years
/// from -9999 to 9999 and no others, and the time it makes is that many seconds after the start of
/// 1970.
#[verifier::external_body]
pub(crate) fn asn1_time_from_timestamp(seconds: i64) -> (nanoseconds: Option<i128>)
    ensures
        nanoseconds == if FIRST_SECOND <= seconds <= LAST_SECOND {
            Some((seconds * NANOSECONDS_PER_SECOND) as i128)
        } else {
            None
        },
{
    let time = x509_parser::time::ASN1Time::from_timestamp(seconds);
    time.ok().map(|time| time.to_datetime().unix_timestamp_nanos())
}

/// The time for verification that the seconds since the start of 1970 give; no seconds stand for a
/// clock that is set before 1970.
pub open spec fn verification_time(unix_seconds: Option<u64>) -> Result<i128, TlsErrorView> {
    match unix_seconds {
        None => Err(TlsErrorView::General("system time predates UNIX_EPOCH"@)),
        Some(seconds) => if seconds > i64::MAX {
            Err(
                TlsErrorView::General(
                    "system time exceeds supported certificate verification range"@,
                ),
            )
        } else if seconds > LAST_SECOND {
            Err(
                TlsErrorView::General(
                    "failed to convert system time for certificate verification"@,
                ),
            )
        } else {
            Ok((seconds * NANOSECONDS_PER_SECOND) as i128)
        },
    }
}

/// Converts the reading of the system clock to a time for verification.
pub fn asn1_time_from_system(unix_seconds: Option<u64>) -> (result: Result<i128, TlsError>)
    ensures
        match result {
            Ok(time) => verification_time(unix_seconds) == Ok::<i128, TlsErrorView>(time),
            Err(error) => verification_time(unix_seconds) == Err::<i128, TlsErrorView>(error@),
        },
{
    match unix_seconds {
        None => Err(TlsError::General("system time predates UNIX_EPOCH".to_owned())),
        Some(seconds) => {
            if seconds > i64::MAX as u64 {
                return Err(
                    TlsError::General(
                        "system time exceeds supported certificate verification range".to_owned(),
                    ),
                );
            }
            match asn1_time_from_timestamp(seconds as i64) {
                Some(time) => Ok(time),
                None => Err(
                    TlsError::General(
                        "failed to convert system time for certificate verification".to_owned(),
                    ),
                ),
            }
        },
    }
}

/// A clock reading is taken if and only if it is there and not after the year 9999, and then counts
/// in nanoseconds.
pub proof fn law_readings_up_to_the_year_9999_are_taken(seconds: u64)
    ensures
        verification_time(Some(seconds)) is Ok <==> seconds <= 253_402_300_799,
        verification_time(Some(seconds)) matches Ok(time) ==> time == seconds * 1_000_000_000,
        verification_time(None) == Err::<i128, TlsErrorView>(
            TlsErrorView::General("system time predates UNIX_EPOCH"@),
        ),
        253_402_300_799 < seconds <= 0x7fff_ffff_ffff_ffff ==> verification_time(Some(seconds))
            == Err::<i128, TlsErrorView>(
            TlsErrorView::General("failed to convert system time for certificate verification"@),
        ),
        seconds > 0x7fff_ffff_ffff_ffff ==> verification_time(Some(seconds)) == Err::<
            i128,
            TlsErrorView,
        >(TlsErrorView::General("system time exceeds supported certificate verification range"@)),
{
}

/// A later reading of the clock is a later time.
pub proof fn law_time_goes_on(earlier: u64, later: u64)
    requires
        earlier < later,
        verification_time(Some(later)) is Ok,
    ensures
        verification_time(Some(earlier)) is Ok,
        verification_time(Some(earlier))->Ok_0 < verification_time(Some(later))->Ok_0,
{
}

} // verus!
