//! Random numbers, random identifiers, the clock, and values of the event loop.

use vstd::prelude::*;

verus! {

/// `mio::Token`, the name of a socket in the event loop. It is only carried along.
#[verifier::external_type_specification]
#[verifier::external_body]
pub struct ExToken(mio::Token);

/// `mio::timer::Timeout`, a timer that has been set. It is only carried along.
#[verifier::external_type_specification]
#[verifier::external_body]
pub struct ExTimeout(mio::timer::Timeout);

/// A lowercase hexadecimal digit.
pub open spec fn is_hex(c: char) -> bool {
    '0' <= c <= '9' || 'a' <= c <= 'f'
}

/// The hyphenated form of a random UUID: groups of 8, 4, 4, 4 and 12 lowercase hexadecimal
/// digits, with the version 4 and the variant of RFC 4122.
pub open spec fn is_random_uuid(text: Seq<char>) -> bool {
    &&& text.len() == 36
    &&& forall|i: int|
        0 <= i < 36 ==> if i == 8 || i == 13 || i == 18 || i == 23 {
            #[trigger] text[i] == '-'
        } else {
            is_hex(text[i])
        }
    &&& text[14] == '4'
    &&& text[19] == '8' || text[19] == '9' || text[19] == 'a' || text[19] == 'b'
}

/// `uuid::Uuid::new_v4` draws a random UUID, and `hyphenated` writes it as text. Which one is
/// drawn is left to chance; its form is not.
#[verifier::external_body]
pub(crate) fn new_request_id() -> (id: String)
    ensures
        is_random_uuid(id@),
{
    uuid::Uuid::new_v4().hyphenated().to_string()
}

/// `rand::random` draws any number of the type. Nothing is known of which one.
#[verifier::external_body]
pub(crate) fn random_usize() -> usize {
    rand::random::<usize>()
}

/// `time::precise_time_ns` reads the clock, in nanoseconds from some point in time. Nothing is
/// known of the value.
pub assume_specification[ time::precise_time_ns ]() -> u64
;

} // verus!
