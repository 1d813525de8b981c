//! The HTTP endpoints a hub calls on a relay.

use crate::text::join3;
use vstd::prelude::*;

verus! {

/// An endpoint of the relay at the given address.
pub enum Endpoint {
    /// `POST /room/create`: asks the relay to open a room.
    CreateRoom(String),
    /// `GET /healthcheck`: the liveness probe made before a relay is
    /// registered.
    Healthcheck(String),
}

impl Endpoint {
    /// The address of the relay.
    pub open spec fn address(self) -> Seq<char> {
        match self {
            Endpoint::CreateRoom(addr) => addr@,
            Endpoint::Healthcheck(addr) => addr@,
        }
    }

    /// The path of the endpoint on the relay.
    pub open spec fn path(self) -> Seq<char> {
        match self {
            Endpoint::CreateRoom(_) => "/room/create"@,
            Endpoint::Healthcheck(_) => "/healthcheck"@,
        }
    }

    /// The URL to call: plain HTTP, the relay's address, then the path.
    pub fn url(&self) -> (u: String)
        ensures
            u@ == "http://"@ + self.address() + self.path(),
    {
        match self {
            Endpoint::CreateRoom(addr) => join3("http://", addr.as_str(), "/room/create"),
            Endpoint::Healthcheck(addr) => join3("http://", addr.as_str(), "/healthcheck"),
        }
    }
}

} // verus!
