//! Responses: what the server answers.
use vstd::prelude::*;

verus! {

/// Whether the server took a request on.
#[derive(Debug, Clone, Copy, PartialEq, Eq, Structural)]
pub enum Status {
    Accepted,
    Rejected,
}

/// A response as it is sent over a connection.
#[derive(Debug, Clone, Copy, PartialEq, Eq, Structural)]
pub struct SocketResponse {
    status: Status,
}

impl SocketResponse {
    /// What the response says.
    pub closed spec fn outcome(&self) -> Status {
        self.status
    }

    pub fn new(status: Status) -> (response: Self)
        ensures
            response.outcome() == status,
    {
        Self { status }
    }

    /// What the response says.
    pub fn status(&self) -> (status: Status)
        ensures
            status == self.outcome(),
    {
        self.status
    }
}

} // verus!
