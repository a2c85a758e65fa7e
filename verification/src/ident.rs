//! Fresh identifiers and the clock: the values that differ from one call to
//! the next.

use std::collections::hash_map::DefaultHasher;
use std::hash::{Hash, Hasher};
use std::time::{Duration, SystemTime, SystemTimeError};
use uuid::Uuid;
use vstd::prelude::*;

verus! {

/// `uuid::Uuid`: 128 bits, opaque here.
#[verifier::external_type_specification]
#[verifier::external_body]
pub struct ExUuid(Uuid);

/// `std::time::SystemTime`: a reading of the system clock, opaque here.
#[verifier::external_type_specification]
#[verifier::external_body]
pub struct ExSystemTime(SystemTime);

/// `std::time::SystemTimeError`: says that a reading lies before the time it
/// was measured from.
#[verifier::external_type_specification]
#[verifier::external_body]
pub struct ExSystemTimeError(SystemTimeError);

/// `Uuid::new_v4` draws a random identifier from the system's generator.
/// Two draws are unrelated: nothing is claimed of the result.
pub assume_specification[ Uuid::new_v4 ]() -> (id: Uuid)
;

/// `SystemTime::now` reads the clock. Nothing is claimed of the reading.
pub assume_specification[ SystemTime::now ]() -> (now: SystemTime)
;

/// `SystemTime::duration_since` measures `time` from `earlier`, and fails
/// where `time` lies before it. Nothing is claimed of the result.
pub assume_specification[ SystemTime::duration_since ](
    time: &SystemTime,
    earlier: SystemTime,
) -> (elapsed: Result<Duration, SystemTimeError>)
;

/// `Duration::as_secs` gives the whole seconds of a duration. Nothing is
/// claimed of the number.
pub assume_specification[ Duration::as_secs ](elapsed: &Duration) -> (secs: u64)
;

/// `std::time::UNIX_EPOCH`, the start of 1970 in UTC.
#[verifier::external_body]
fn unix_epoch() -> SystemTime {
    std::time::UNIX_EPOCH
}

/// Feeds the identifier to the hasher, through `Uuid`'s `Hash`. What the
/// hasher then holds is not stated.
#[verifier::external_body]
fn feed_uuid(id: &Uuid, state: &mut DefaultHasher) {
    id.hash(state)
}

/// A fresh identifier in text form: 32 hexadecimal digits in lower case,
/// in groups of 8, 4, 4, 4 and 12 with a `-` between them.
pub fn fresh_id() -> (id: String)
    ensures
        is_uuid_text(id@),
{
    let id = Uuid::new_v4();
    uuid_text(&id)
}

/// A fresh 64-bit number: the hash of a fresh identifier.
pub fn fresh_hash() -> u64 {
    let id = Uuid::new_v4();
    let mut state = DefaultHasher::new();
    feed_uuid(&id, &mut state);
    state.finish()
}

/// The seconds since the start of 1970 on the system clock; 0 where the
/// clock stands before that.
pub fn unix_seconds() -> u64 {
    let now = SystemTime::now();
    match now.duration_since(unix_epoch()) {
        Ok(elapsed) => elapsed.as_secs(),
        Err(_) => 0,
    }
}

/// Whether `c` is a hexadecimal digit in lower case.
pub open spec fn is_lower_hex(c: char) -> bool {
    ('0' <= c && c <= '9') || ('a' <= c && c <= 'f')
}

/// Whether `text` has the form of an identifier: 36 characters, of which
/// those at 8, 13, 18 and 23 are a `-` and all others hexadecimal digits in
/// lower case.
pub open spec fn is_uuid_text(text: Seq<char>) -> bool {
    &&& text.len() == 36
    &&& forall|i: int|
        #![trigger text[i]]
        0 <= i < 36 ==> if i == 8 || i == 13 || i == 18 || i == 23 {
            text[i] == '-'
        } else {
            is_lower_hex(text[i])
        }
}

/// `Uuid`'s `Display`, through `to_string`: whatever the identifier, its
/// text is the hyphenated form in lower case.
#[verifier::external_body]
fn uuid_text(id: &Uuid) -> (text: String)
    ensures
        is_uuid_text(text@),
{
    id.to_string()
}

} // verus!
