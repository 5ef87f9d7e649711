//! The settings of a message server.
use vstd::prelude::*;

verus! {

/// A message server, known by the port it listens on.
pub struct MessageApp {
    port: u16,
}

impl MessageApp {
    pub closed spec fn port_spec(&self) -> u16 {
        self.port
    }

    /// A server that will listen on `port`.
    pub fn new(port: u16) -> (r: Self)
        ensures
            r.port_spec() == port,
    {
        MessageApp { port }
    }

    /// The port the server listens on.
    pub fn port(&self) -> (r: u16)
        ensures
            r == self.port_spec(),
    {
        self.port
    }
}

} // verus!
