//! Card transports: the interface through which raw APDU bytes reach a card,
//! and an in-memory transport that replays prepared responses.
use vstd::prelude::*;

use crate::error::TransportError;
use crate::response::bytes_to_vec;

verus! {

/// Trait for basic card transports, implemented by the users of the library for their readers.
///
/// A transport sends raw APDU bytes and returns the raw response bytes; nothing is assumed of
/// what a card answers.
pub trait CardTransport {
    /// Whether the transport is connected to a card
    spec fn connected_view(&self) -> bool;

    /// What sending `command` does: the transport before and after the exchange and the answer,
    /// as each transport defines it
    spec fn transmits(&self, after: &Self, command: Seq<u8>, res: Result<Vec<u8>, TransportError>) -> bool;

    /// Internal implementation of transmit_raw
    fn do_transmit_raw(&mut self, command: &[u8]) -> (res: Result<Vec<u8>, TransportError>)
        ensures
            old(self).transmits(final(self), command@, res),
    ;

    /// Send raw APDU bytes to the card and return the response bytes
    fn transmit_raw(&mut self, command: &[u8]) -> (res: Result<Vec<u8>, TransportError>)
        ensures
            old(self).transmits(final(self), command@, res),
    {
        self.do_transmit_raw(command)
    }

    /// Check if the transport is connected to a physical card
    fn is_connected(&self) -> (res: bool)
        ensures
            res == self.connected_view(),
    ;

    /// Reset the transport connection
    fn reset(&mut self) -> Result<(), TransportError>;
}

/// Transport that records the commands sent and answers with prepared responses: the last
/// remaining response is repeated, earlier ones are consumed in order.
#[derive(Debug, Clone)]
pub struct MockTransport {
    /// Mock responses to return
    pub responses: Vec<Vec<u8>>,
    /// Commands that were sent
    pub commands: Vec<Vec<u8>>,
    /// Whether the transport is connected
    pub connected: bool,
}

/// The byte views of a vector of byte vectors
pub open spec fn seq_views(v: Seq<Vec<u8>>) -> Seq<Seq<u8>> {
    Seq::new(v.len(), |i: int| v[i]@)
}

impl MockTransport {
    /// Create a new mock transport with the given responses
    pub fn new(responses: Vec<Vec<u8>>) -> (res: Self)
        ensures
            res.responses@ == responses@,
            res.commands@.len() == 0,
            res.connected,
    {
        MockTransport { responses, commands: Vec::new(), connected: true }
    }

    /// Create a new mock transport that always returns the given response
    pub fn with_response(response: Vec<u8>) -> (res: Self)
        ensures
            res.responses@.len() == 1,
            res.responses@[0] == response,
            res.commands@.len() == 0,
            res.connected,
    {
        let mut responses: Vec<Vec<u8>> = Vec::new();
        responses.push(response);
        MockTransport { responses, commands: Vec::new(), connected: true }
    }

    /// Create a new mock transport that always returns success (90 00)
    pub fn with_success() -> (res: Self)
        ensures
            res.responses@.len() == 1,
            res.responses@[0]@ == seq![0x90u8, 0x00u8],
            res.commands@.len() == 0,
            res.connected,
    {
        let mut ok: Vec<u8> = Vec::new();
        ok.push(0x90);
        ok.push(0x00);
        Self::with_response(ok)
    }
}

impl CardTransport for MockTransport {
    open spec fn connected_view(&self) -> bool {
        self.connected
    }

    /// Disconnected: a connection error and no change. Connected: the command is recorded;
    /// no response left gives a transmission error, the last response is repeated and earlier
    /// ones are consumed in order.
    open spec fn transmits(&self, after: &Self, command: Seq<u8>, res: Result<Vec<u8>, TransportError>) -> bool {
        &&& !self.connected ==> res == Err::<Vec<u8>, TransportError>(TransportError::Connection) && *after == *self
        &&& self.connected ==> seq_views(after.commands@) == seq_views(self.commands@).push(command)
        &&& self.connected && self.responses@.len() == 0 ==> res == Err::<Vec<u8>, TransportError>(TransportError::Transmission)
        &&& self.connected && self.responses@.len() == 1 ==> (res matches Ok(r) && r@ == self.responses@[0]@
            && after.responses@ == self.responses@)
        &&& self.connected && self.responses@.len() > 1 ==> (res matches Ok(r) && r@ == self.responses@[0]@
            && after.responses@ == self.responses@.drop_first())
        &&& after.connected == self.connected
    }

    fn do_transmit_raw(&mut self, command: &[u8]) -> (res: Result<Vec<u8>, TransportError>)
        ensures
            !old(self).connected ==> res == Err::<Vec<u8>, TransportError>(TransportError::Connection)
                && *final(self) == *old(self),
            old(self).connected ==> seq_views(final(self).commands@) == seq_views(old(self).commands@).push(command@),
            old(self).connected && old(self).responses@.len() == 0 ==> res == Err::<Vec<u8>, TransportError>(TransportError::Transmission),
            old(self).connected && old(self).responses@.len() == 1 ==> (res matches Ok(r) && r@ == old(self).responses@[0]@
                && final(self).responses@ == old(self).responses@),
            old(self).connected && old(self).responses@.len() > 1 ==> (res matches Ok(r) && r@ == old(self).responses@[0]@
                && final(self).responses@ == old(self).responses@.drop_first()),
            final(self).connected == old(self).connected,
    {
        if !self.connected {
            return Err(TransportError::Connection);
        }
        let ghost before = self.commands@;
        self.commands.push(bytes_to_vec(command));
        proof {
            assert(seq_views(self.commands@) =~= seq_views(before).push(command@));
        }
        if self.responses.len() == 0 {
            return Err(TransportError::Transmission);
        }
        if self.responses.len() == 1 {
            Ok(bytes_to_vec(self.responses[0].as_slice()))
        } else {
            Ok(self.responses.remove(0))
        }
    }

    fn is_connected(&self) -> (res: bool)
        ensures
            res == self.connected,
    {
        self.connected
    }

    fn reset(&mut self) -> (res: Result<(), TransportError>)
        ensures
            res is Ok,
            final(self).connected,
            final(self).commands@.len() == 0,
            final(self).responses@ == old(self).responses@,
    {
        self.connected = true;
        self.commands.clear();
        Ok(())
    }
}

} // verus!
