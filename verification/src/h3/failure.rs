//! How a request fails, and what is done with its stream when it is given up.

use crate::error::Error;
use crate::h3::code::Code;
use vstd::prelude::*;

verus! {

/// The first failure of a request.
#[derive(Clone, Copy, Debug, PartialEq, Eq, Structural)]
pub struct Failure {
    error: Option<Error>,
}

impl View for Failure {
    type V = Option<Error>;

    closed spec fn view(&self) -> Option<Error> {
        self.error
    }
}

/// The failure after another one was noticed: the first one stays. Closing the transport
/// can produce secondary errors, so the cause that the connection has published counts
/// more than the error at hand.
pub open spec fn first_failure(
    known: Option<Error>,
    published: Option<Error>,
    error: Error,
) -> Option<Error> {
    if known is Some {
        known
    } else if published is Some {
        published
    } else {
        Some(error)
    }
}

/// The error to report: the first failure, or else that of the connection.
pub open spec fn reported(known: Option<Error>, connection: Error) -> Error {
    match known {
        Some(error) => error,
        None => connection,
    }
}

impl Failure {
    /// A request that has not failed.
    pub fn new() -> (f: Failure)
        ensures
            f@ is None,
    {
        Failure { error: None }
    }

    /// Notes a failure.
    pub fn set(&mut self, published: Option<Error>, error: Error)
        ensures
            final(self)@ == first_failure(old(self)@, published, error),
    {
        if self.error.is_none() {
            self.error = match published {
                Some(cause) => Some(cause),
                None => Some(error),
            };
        }
    }

    /// The error to report.
    pub fn get(&self, connection: Error) -> (error: Error)
        ensures
            error == reported(self@, connection),
    {
        match self.error {
            Some(error) => error,
            None => connection,
        }
    }
}

/// Once a request has failed, later failures do not change what is reported.
pub proof fn lemma_first_failure_stays(
    known: Option<Error>,
    published: Option<Error>,
    first: Error,
    later_published: Option<Error>,
    later: Error,
    connection: Error,
)
    ensures
        ({
            let failed = first_failure(known, published, first);
            reported(first_failure(failed, later_published, later), connection) == reported(
                failed,
                connection,
            )
        }),
{
}

/// A request that fails after the connection published a cause reports that cause.
pub proof fn lemma_published_cause_is_reported(cause: Error, secondary: Error, connection: Error)
    ensures
        reported(first_failure(None, Some(cause), secondary), connection) == cause,
{
}

/// The caller's place to receive the response. It is used once.
#[derive(Clone, Copy, Debug, PartialEq, Eq, Structural)]
pub struct ResponseGuard {
    pub waiting: bool,
}

impl ResponseGuard {
    /// Takes the place for a response. Returns whether it was still free.
    pub fn take(&mut self) -> (free: bool)
        ensures
            free == old(self).waiting,
            !final(self).waiting,
    {
        let free = self.waiting;
        self.waiting = false;
        free
    }

    /// Gives the request up: a caller that still waits is told why.
    pub fn release(&self, failure: &Failure, connection: Error) -> (answer: Option<Error>)
        ensures
            answer == if self.waiting {
                Some(reported(failure@, connection))
            } else {
                None
            },
    {
        if self.waiting {
            Some(failure.get(connection))
        } else {
            None
        }
    }
}

/// A response body that is being filled.
#[derive(Clone, Copy, Debug, PartialEq, Eq, Structural)]
pub struct BodyGuard {
    pub open: bool,
}

impl BodyGuard {
    /// Gives the body up: a reader of an unfinished body gets an error, not its end.
    pub fn release(&self, failure: &Failure, connection: Error) -> (error: Option<Error>)
        ensures
            error == if self.open {
                Some(reported(failure@, connection))
            } else {
                None
            },
    {
        if self.open {
            Some(failure.get(connection))
        } else {
            None
        }
    }
}

/// The code with which a direction of a stream is given up.
pub open spec fn abort_code(invalid: bool, code: Code) -> Code {
    if invalid {
        Code::DatagramError
    } else {
        code
    }
}

/// The send direction of a request.
#[derive(Clone, Copy, Debug, PartialEq, Eq, Structural)]
pub struct SendGuard {
    pub finished: bool,
}

impl SendGuard {
    /// Gives the direction up. Returns the code to reset it with; none if it had ended.
    /// `invalid` says that the request received a Datagram without declaring semantics.
    pub fn release(&self, invalid: bool) -> (code: Option<Code>)
        ensures
            code == if self.finished {
                None
            } else {
                Some(abort_code(invalid, Code::RequestCancelled))
            },
    {
        if self.finished {
            None
        } else if invalid {
            Some(Code::DatagramError)
        } else {
            Some(Code::RequestCancelled)
        }
    }
}

/// The receive direction of a request.
#[derive(Clone, Copy, Debug, PartialEq, Eq, Structural)]
pub struct RecvGuard {
    pub finished: bool,
    pub code: Code,
}

impl RecvGuard {
    /// A direction that has not ended.
    pub fn new() -> (g: RecvGuard)
        ensures
            g == (RecvGuard { finished: false, code: Code::RequestCancelled }),
    {
        RecvGuard { finished: false, code: Code::RequestCancelled }
    }

    /// Whether the request's Datagram receive direction ends when this one is given up: late
    /// Datagrams are discarded, and an upload that is under way goes on.
    pub fn closes_datagrams(&self) -> (b: bool)
        ensures
            b == !self.finished,
    {
        !self.finished
    }

    /// Gives the direction up. Returns the code to stop the peer with; none if it had
    /// ended.
    pub fn release(&self, invalid: bool) -> (code: Option<Code>)
        ensures
            code == if self.finished {
                None
            } else {
                Some(abort_code(invalid, self.code))
            },
    {
        if self.finished {
            None
        } else if invalid {
            Some(Code::DatagramError)
        } else {
            Some(self.code)
        }
    }
}

} // verus!
