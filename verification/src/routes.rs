//! What the HTTP endpoints of a hub and a relay answer.

use crate::http::{with_header, HeaderModel, Response};
use crate::relay_registry::CreateRoomError;
use crate::text::join3;
use vstd::prelude::*;
use vstd::string::StringSliceAdditionalSpecFns;
use vstd::utf8::encode_utf8;

verus! {

/// The headers of a response that sets none of its own.
pub open spec fn plain_headers() -> Seq<HeaderModel> {
    with_header(
        with_header(
            with_header(Seq::empty(), "Access-Control-Allow-Origin"@, "*"@),
            "Access-Control-Allow-Methods"@,
            "GET, POST, PUT, DELETE, OPTIONS"@,
        ),
        "Access-Control-Allow-Headers"@,
        "Accept, Accept-Language, Content-Language,  Origin, Content-Type, Authorization"@,
    )
}

/// `GET /healthcheck` on a relay: status 200 and no body. A hub probes this
/// before it registers the relay.
pub fn healthcheck() -> (r: Response)
    ensures
        r.code() == 200,
        r.content().len() == 0,
        r.headers() == plain_headers(),
{
    Response::empty()
}

/// `GET /ping`: status 200 and no body.
pub fn ping() -> (r: Response)
    ensures
        r.code() == 200,
        r.content().len() == 0,
        r.headers() == plain_headers(),
{
    Response::empty()
}

/// `POST /session`: status 200 and no body.
pub fn session() -> (r: Response)
    ensures
        r.code() == 200,
        r.content().len() == 0,
        r.headers() == plain_headers(),
{
    Response::empty()
}

/// `GET /greet/{name}`: a greeting by name.
pub fn greet(name: &str) -> (text: String)
    ensures
        text@ == "Hello, "@ + name@ + "!"@,
{
    join3("Hello, ", name, "!")
}

/// `POST /room/create` on a relay that created the room: status 201, and
/// the room as JSON, which the caller encoded.
pub fn relay_room_created(json: String) -> (r: Response)
    ensures
        r.code() == 201,
        r.content() == encode_utf8(json@),
        r.headers() == plain_headers(),
{
    Response::empty().status(201).body(json)
}

/// `POST /room/create` on a relay that is full: status 500 and a line of
/// text.
pub fn relay_room_refused() -> (r: Response)
    ensures
        r.code() == 500,
        r.content() == encode_utf8("no rooms available"@),
        r.headers() == plain_headers(),
{
    Response::empty().status(500).text(String::from_str("no rooms available"))
}

/// `POST /room/create` on the hub, when a relay created the room: status
/// 200, and the room with its relay's address as JSON, which the caller
/// encoded.
pub fn hub_room_created(json: String) -> (r: Response)
    ensures
        r.code() == 200,
        r.content() == encode_utf8(json@),
        r.headers() == plain_headers(),
{
    Response::empty().status(200).body(json)
}

/// `POST /room/create` on the hub, when no room was created: status 500
/// with the text `no rooms available` when no relay could take the room,
/// status 400 when a relay's answer could not be read.
pub fn hub_room_failed(error: CreateRoomError) -> (r: Response)
    ensures
        r.code() == error.spec_status(),
        error == CreateRoomError::NoCapacity ==> r.content() == encode_utf8("no rooms available"@),
        error == CreateRoomError::MalformedReply ==> r.content() == encode_utf8(
            "malformed relay reply"@,
        ),
        r.headers() == plain_headers(),
{
    Response::empty().status(error.status()).text(String::from_str(error.message()))
}

} // verus!
