//! Fresh identifiers for rooms and connections.
//!
//! Both kinds come from random generators outside this library. Nothing is
//! claimed about which identifier comes out, only about its shape, so two
//! calls are free to differ and free to collide; callers that need a fresh
//! key test it against what they hold.

use vstd::prelude::*;

verus! {

/// The characters a connection id is made of: letters, digits, `_` and `-`.
pub open spec fn is_id_char(c: char) -> bool {
    ||| c == '_'
    ||| c == '-'
    ||| ('0' <= c && c <= '9')
    ||| ('a' <= c && c <= 'z')
    ||| ('A' <= c && c <= 'Z')
}

/// The shape of a connection id: 21 characters of the id alphabet.
pub open spec fn is_connection_id(id: Seq<char>) -> bool {
    &&& id.len() == 21
    &&& forall|i: int| 0 <= i < id.len() ==> is_id_char(#[trigger] id[i])
}

/// A lower-case hexadecimal digit.
pub open spec fn is_lower_hex(c: char) -> bool {
    ('0' <= c && c <= '9') || ('a' <= c && c <= 'f')
}

/// The places of the hyphens in a room id.
pub open spec fn is_hyphen_place(i: int) -> bool {
    i == 8 || i == 13 || i == 18 || i == 23
}

/// The shape of a room id: 36 characters, hyphens at places 8, 13, 18 and
/// 23, lower-case hexadecimal digits elsewhere.
pub open spec fn is_room_id(id: Seq<char>) -> bool {
    &&& id.len() == 36
    &&& forall|i: int|
        0 <= i < id.len() ==> if is_hyphen_place(i) {
            #[trigger] id[i] == '-'
        } else {
            is_lower_hex(id[i])
        }
}

/// `nanoid::format` with the crate's default random source, its `SAFE`
/// alphabet and a size of 21: what the `nanoid!()` macro expands to. The
/// result has 21 characters, each one from that alphabet.
#[verifier::external_body]
pub(crate) fn fresh_connection_id() -> (id: String)
    ensures
        is_connection_id(id@),
{
    nanoid::format(nanoid::rngs::default, &nanoid::alphabet::SAFE, 21)
}

/// `uuid::Uuid::new_v4`, written out with `to_string`: a random UUID in the
/// hyphenated lower-case form.
#[verifier::external_body]
pub(crate) fn fresh_room_id() -> (id: String)
    ensures
        is_room_id(id@),
{
    uuid::Uuid::new_v4().to_string()
}

} // verus!
