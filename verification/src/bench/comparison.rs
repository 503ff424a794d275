//! The cases of the HTTP/3 client comparison, and what its clients expect of an answer.

use vstd::prelude::*;

verus! {

/// The sort of client that is measured.
#[derive(Clone, Copy, Debug, PartialEq, Eq, Structural)]
pub enum Client {
    /// The protocol library.
    Proto,
    /// The plain client.
    Direct,
    /// The plain client, cloned for every request.
    Cloned,
    /// The plain client, with a task for every request.
    Task,
}

impl Client {
    /// The name of the client in a report.
    pub open spec fn text(self) -> Seq<char> {
        match self {
            Client::Proto => "netty"@,
            Client::Direct => "http3"@,
            Client::Cloned => "http3-clone"@,
            Client::Task => "http3-task"@,
        }
    }

    /// The name of the client in a report.
    pub fn name(self) -> (text: &'static str)
        ensures
            text@ == self.text(),
    {
        match self {
            Client::Proto => "netty",
            Client::Direct => "http3",
            Client::Cloned => "http3-clone",
            Client::Task => "http3-task",
        }
    }
}

/// Diagnostic modes of the comparison.
#[derive(Clone, Copy, Debug, PartialEq, Eq, Structural)]
pub struct Diagnostics {
    /// Add a task to every request of the plain client.
    pub direct_tasks: bool,
    /// Measure the plain client cloned for every request, too.
    pub direct_clone: bool,
    /// Observe polls and wakes.
    pub profiling: bool,
}

impl Diagnostics {
    /// Whether the modes can be combined: one at a time.
    pub open spec fn valid(self) -> bool {
        &&& !(self.direct_tasks && self.direct_clone)
        &&& !(self.profiling && (self.direct_tasks || self.direct_clone))
    }

    /// Whether the modes can be combined.
    pub fn is_valid(&self) -> (b: bool)
        ensures
            b == self.valid(),
    {
        !(self.direct_tasks && self.direct_clone) && !(self.profiling && (self.direct_tasks
            || self.direct_clone))
    }

    /// The plain client as it is measured in these modes.
    pub open spec fn plain(self) -> Client {
        if self.direct_tasks {
            Client::Task
        } else {
            Client::Direct
        }
    }

    /// The clients of an even round, in order.
    pub open spec fn clients(self) -> Seq<Client> {
        if self.direct_clone {
            seq![
                self.plain(),
                if self.direct_tasks {
                    Client::Task
                } else {
                    Client::Cloned
                },
                Client::Proto,
            ]
        } else {
            seq![self.plain(), Client::Proto]
        }
    }

    /// The clients of a round, in the order in which they are measured; odd rounds turn it
    /// around.
    pub fn clients_of_round(&self, round: u64) -> (v: Vec<Client>)
        ensures
            v@ == if round % 2 == 0 {
                self.clients()
            } else {
                self.clients().reverse()
            },
    {
        let plain = if self.direct_tasks {
            Client::Task
        } else {
            Client::Direct
        };
        let cloned = if self.direct_tasks {
            Client::Task
        } else {
            Client::Cloned
        };
        let mut v: Vec<Client> = Vec::new();
        if round % 2 == 0 {
            v.push(plain);
            if self.direct_clone {
                v.push(cloned);
            }
            v.push(Client::Proto);
        } else {
            v.push(Client::Proto);
            if self.direct_clone {
                v.push(cloned);
            }
            v.push(plain);
        }
        assert(v@ =~= if round % 2 == 0 {
            self.clients()
        } else {
            self.clients().reverse()
        });
        v
    }
}

/// The byte of which every body consists.
pub const FILL: u8 = 7;

/// Whether some bytes are all [`FILL`].
pub open spec fn filled(data: Seq<u8>) -> bool {
    forall|i: int| 0 <= i < data.len() ==> #[trigger] data[i] == FILL
}

/// A body that must come back as it was sent.
pub struct Echo {
    expected: usize,
    received: usize,
}

impl View for Echo {
    type V = (usize, usize);

    closed spec fn view(&self) -> (usize, usize) {
        (self.expected, self.received)
    }
}

impl Echo {
    /// A body of `expected` bytes, of which none has come back.
    pub fn new(expected: usize) -> (e: Echo)
        ensures
            e@ == (expected, 0usize),
    {
        Echo { expected, received: 0 }
    }

    /// Takes a chunk. Returns whether it can be a part of the body: right in every byte, and
    /// not more than is missing.
    pub fn data(&mut self, chunk: &[u8]) -> (good: bool)
        requires
            old(self)@.1 <= old(self)@.0,
        ensures
            good == (filled(chunk@) && chunk@.len() <= old(self)@.0 - old(self)@.1),
            final(self)@ == if good {
                (old(self)@.0, (old(self)@.1 + chunk@.len()) as usize)
            } else {
                old(self)@
            },
            final(self)@.1 <= final(self)@.0,
    {
        for i in 0..chunk.len()
            invariant
                forall|k: int| 0 <= k < i ==> #[trigger] chunk@[k] == FILL,
                self@ == old(self)@,
                old(self)@.1 <= old(self)@.0,
        {
            if chunk[i] != FILL {
                assert(!filled(chunk@)) by {
                    assert(chunk@[i as int] != FILL);
                }
                return false;
            }
        }
        if chunk.len() > self.expected - self.received {
            return false;
        }
        self.received = self.received + chunk.len();
        true
    }

    /// Whether the whole body has come back.
    pub fn is_complete(&self) -> (b: bool)
        ensures
            b == (self@.0 == self@.1),
    {
        self.received == self.expected
    }
}

/// Whether the server's count of answered requests is that of the recorded samples: those of
/// the warm-up and those of the measurement.
pub fn accounts(completed: u64, warmup: u64, measured: u64) -> (b: bool)
    ensures
        b == (completed == warmup + measured),
{
    match warmup.checked_add(measured) {
        Some(recorded) => completed == recorded,
        None => false,
    }
}

} // verus!
