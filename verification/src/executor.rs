//! Card executor: a transport combined with a chain of command processors, with
//! security level checks before commands are sent.
use vstd::prelude::*;

use crate::command::{spec_command_from_bytes, spec_command_to_bytes, Command, CommandView};
use crate::error::{Error, ProcessorError, ResponseError, SecureProtocolError, TransportError};
use crate::processor::{exchanges_of, BaseSecureChannel, CommandProcessor, GetResponseProcessor, IdentityProcessor};
use crate::response::{bytes_to_vec, Response, spec_response_from_bytes, spec_response_to_bytes};
use crate::security::{level, max_level, spec_max_level, spec_satisfies, LevelView, SecurityLevel};
use crate::transport::CardTransport;

verus! {

/// The command processors an executor can chain
#[derive(Debug, Clone)]
pub enum Processor {
    /// Passes commands through unchanged
    Identity(IdentityProcessor),
    /// Follows 61xx answers with GET RESPONSE
    GetResponse(GetResponseProcessor),
    /// Base secure channel (passthrough once established)
    Secure(BaseSecureChannel),
}

impl Processor {
    /// Whether the processor is active
    pub open spec fn active_view(&self) -> bool {
        match self {
            Processor::Secure(s) => s.is_established_view(),
            _ => true,
        }
    }

    /// Check if this processor is active/ready
    pub fn is_active(&self) -> (res: bool)
        ensures
            res == self.active_view(),
    {
        match self {
            Processor::Identity(p) => p.is_active(),
            Processor::GetResponse(p) => p.is_active(),
            Processor::Secure(p) => p.is_active(),
        }
    }

    /// The security level this processor provides (none for the processors of this crate)
    pub fn security_level(&self) -> (res: SecurityLevel)
        ensures
            res@ == level(false, false, false),
    {
        SecurityLevel::none()
    }

    /// What processing a command does, as the processor's own kind defines it; the kind stays
    pub open spec fn processes(
        &self,
        after: &Self,
        command: CommandView,
        exchanges: spec_fn(Seq<Seq<u8>>, Seq<Result<Vec<u8>, TransportError>>) -> bool,
        res: Result<Response, ProcessorError>,
    ) -> bool {
        match (*self, *after) {
            (Processor::Identity(p), Processor::Identity(q)) => p.processes(&q, command, exchanges, res),
            (Processor::GetResponse(p), Processor::GetResponse(q)) => p.processes(&q, command, exchanges, res),
            (Processor::Secure(p), Processor::Secure(q)) => p.processes(&q, command, exchanges, res),
            _ => false,
        }
    }

    /// Process a command through this processor
    pub fn process_command<T: CardTransport>(&mut self, command: &Command, transport: &mut T) -> (res: Result<Response, ProcessorError>)
        ensures
            old(self).processes(final(self), command@, exchanges_of(old(transport), final(transport)), res),
    {
        match self {
            Processor::Identity(p) => p.do_process_command(command, transport),
            Processor::GetResponse(p) => p.do_process_command(command, transport),
            Processor::Secure(p) => p.do_process_command(command, transport),
        }
    }
}

/// The highest level of the active processors (no security when none is active)
pub open spec fn active_levels(ps: Seq<Processor>) -> Seq<LevelView>
    decreases ps.len(),
{
    if ps.len() == 0 {
        Seq::empty()
    } else if ps.last().active_view() {
        active_levels(ps.drop_last()).push(level(false, false, false))
    } else {
        active_levels(ps.drop_last())
    }
}

/// Executors that name their error type
pub trait ApduExecutorErrors {
    /// Error type used by the executor
    type Error;
}

/// Executors that keep the last response they received
pub trait ResponseAwareExecutor {
    /// The last response received, if any
    spec fn last_response_bytes(&self) -> Option<Seq<u8>>;

    /// Get the last response received; an error when there is none
    fn last_response(&self) -> (res: Result<&Vec<u8>, TransportError>)
        ensures
            res is Ok <==> self.last_response_bytes() is Some,
            res matches Ok(r) ==> self.last_response_bytes() == Some(r@),
    ;
}

/// Card executor implementation that combines a transport with command processors
pub struct CardExecutor<T: CardTransport> {
    /// The transport used for communication
    transport: T,
    /// Command processors chain (the last active one processes commands)
    processors: Vec<Processor>,
    /// The last response received
    last_response: Option<Vec<u8>>,
}

/// No processor of the chain is active
pub open spec fn none_active(ps: Seq<Processor>) -> bool {
    forall|i: int| 0 <= i < ps.len() ==> !(#[trigger] ps[i]).active_view()
}

/// The executor's answer to a reply `r0` of the transport: the reply bytes, or the
/// transport's error
pub open spec fn raw_result(r0: Result<Vec<u8>, TransportError>, res: Result<Vec<u8>, Error>) -> bool {
    match r0 {
        Ok(b) => res matches Ok(r) && r@ == b@,
        Err(e) => res == Err::<Vec<u8>, Error>(Error::Transport(e)),
    }
}

/// The parsed answer to a reply `r0` of the transport: the response, an incomplete response
/// when the reply is shorter than a status word, or the transport's error
pub open spec fn parsed_result(r0: Result<Vec<u8>, TransportError>, res: Result<Response, Error>) -> bool {
    match r0 {
        Ok(b) => match spec_response_from_bytes(b@) {
            Some(v) => res matches Ok(r) && r@ == v,
            None => res == Err::<Response, Error>(Error::Response(ResponseError::Incomplete)),
        },
        Err(e) => res == Err::<Response, Error>(Error::Transport(e)),
    }
}

/// `i` is the last active processor of the chain
pub open spec fn is_last_active(ps: Seq<Processor>, i: int) -> bool {
    &&& 0 <= i < ps.len()
    &&& ps[i].active_view()
    &&& forall|j: int| i < j < ps.len() ==> !(#[trigger] ps[j]).active_view()
}

/// The executor's answer to a processor's outcome `r`: the bytes of the response, or the
/// processor's error
pub open spec fn processed_result(r: Result<Response, ProcessorError>, res: Result<Vec<u8>, Error>) -> bool {
    match r {
        Ok(resp) => res matches Ok(b) && b@ == spec_response_to_bytes(resp@),
        Err(e) => res == Err::<Vec<u8>, Error>(Error::Processor(e)),
    }
}

/// The parsed answer to the executor's answer `raw`: the response, an incomplete response when
/// the reply is shorter than a status word, or the executor's error
pub open spec fn transmitted_result(raw: Result<Vec<u8>, Error>, res: Result<Response, Error>) -> bool {
    match raw {
        Ok(b) => match spec_response_from_bytes(b@) {
            Some(v) => res matches Ok(r) && r@ == v,
            None => res == Err::<Response, Error>(Error::Response(ResponseError::Incomplete)),
        },
        Err(e) => res == Err::<Response, Error>(e),
    }
}

/// Whether `required` asks for nothing or is satisfied by `current`
pub open spec fn security_ok(current: LevelView, required: LevelView) -> bool {
    required == level(false, false, false) || spec_satisfies(current, required)
}

impl<T: CardTransport> CardExecutor<T> {
    /// The transport
    pub closed spec fn transport_view(&self) -> T {
        self.transport
    }

    /// The processors
    pub closed spec fn processors_view(&self) -> Seq<Processor> {
        self.processors@
    }

    /// The last response received, if any
    pub closed spec fn last_response_view(&self) -> Option<Seq<u8>> {
        match self.last_response {
            Some(r) => Some(r@),
            None => None,
        }
    }

    /// Create a new card executor with the given transport
    pub fn new(transport: T) -> (res: Self)
        ensures
            res.transport_view() == transport,
            res.processors_view().len() == 0,
            res.last_response_view() is None,
    {
        CardExecutor { transport, processors: Vec::new(), last_response: None }
    }

    /// Create a new card executor with transport and a default GET RESPONSE processor
    pub fn new_with_defaults(transport: T) -> (res: Self)
        ensures
            res.transport_view() == transport,
            res.processors_view().len() == 1,
            res.processors_view()[0] matches Processor::GetResponse(p) && p.max_chains() == 10,
            res.last_response_view() is None,
    {
        let mut executor = Self::new(transport);
        executor.add_processor(Processor::GetResponse(GetResponseProcessor::default()));
        executor
    }

    /// Get a reference to the underlying transport
    pub fn transport(&self) -> (res: &T)
        ensures
            *res == self.transport_view(),
    {
        &self.transport
    }

    /// Get a mutable reference to the underlying transport
    pub fn transport_mut(&mut self) -> (res: &mut T)
        ensures
            *res == old(self).transport_view(),
            final(self).transport_view() == *final(res),
            final(self).processors_view() == old(self).processors_view(),
            final(self).last_response_view() == old(self).last_response_view(),
    {
        &mut self.transport
    }

    /// Take ownership of the transport and return it
    pub fn into_transport(self) -> (res: T)
        ensures
            res == self.transport_view(),
    {
        self.transport
    }

    /// Add a command processor to the chain
    pub fn add_processor(&mut self, processor: Processor)
        ensures
            final(self).processors_view() == old(self).processors_view().push(processor),
            final(self).transport_view() == old(self).transport_view(),
            final(self).last_response_view() == old(self).last_response_view(),
    {
        self.processors.push(processor);
    }

    /// Get the command processors
    pub fn processors(&self) -> (res: &Vec<Processor>)
        ensures
            res@ == self.processors_view(),
    {
        &self.processors
    }

    /// Get the command processors for modification
    pub fn processors_mut(&mut self) -> (res: &mut Vec<Processor>)
        ensures
            res@ == old(self).processors_view(),
            final(self).processors_view() == final(res)@,
            final(self).transport_view() == old(self).transport_view(),
            final(self).last_response_view() == old(self).last_response_view(),
    {
        &mut self.processors
    }

    /// Remove all command processors
    pub fn clear_processors(&mut self)
        ensures
            final(self).processors_view().len() == 0,
            final(self).transport_view() == old(self).transport_view(),
            final(self).last_response_view() == old(self).last_response_view(),
    {
        self.processors.clear();
    }

    /// Get the last response received
    pub fn last_response(&self) -> (res: Option<&Vec<u8>>)
        ensures
            res is Some <==> self.last_response_view() is Some,
            res matches Some(r) ==> self.last_response_view() == Some(r@),
    {
        match &self.last_response {
            Some(r) => Some(r),
            None => None,
        }
    }

    /// The highest security level among the active processors (none when none is active)
    pub fn security_level(&self) -> (res: SecurityLevel)
        ensures
            res@ == spec_max_level(active_levels(self.processors_view())),
    {
        let mut levels: Vec<SecurityLevel> = Vec::new();
        let mut i: usize = 0;
        while i < self.processors.len()
            invariant
                i <= self.processors@.len(),
                crate::security::levels_view(levels@) == active_levels(self.processors@.subrange(0, i as int)),
            decreases self.processors@.len() - i,
        {
            proof {
                assert(self.processors@.subrange(0, i + 1).drop_last() =~= self.processors@.subrange(0, i as int));
            }
            if self.processors[i].is_active() {
                let l = self.processors[i].security_level();
                let ghost before = levels@;
                levels.push(l);
                proof {
                    assert(crate::security::levels_view(levels@) =~= crate::security::levels_view(before).push(l@));
                }
            }
            i = i + 1;
        }
        proof {
            assert(self.processors@.subrange(0, self.processors@.len() as int) =~= self.processors@);
        }
        max_level(&levels)
    }

    /// What sending raw bytes does: the reply is remembered (an error leaves the last response
    /// as it was); with an active processor and bytes that decode as a command, the last active
    /// processor processes the command over the transport's exchanges and the answer is the
    /// bytes of its response (or its error); otherwise the bytes go to the transport as they are
    /// and the answer is its reply (or its error)
    pub open spec fn transmits_raw(&self, after: &Self, command: Seq<u8>, res: Result<Vec<u8>, Error>) -> bool {
        &&& res matches Ok(r) ==> after.last_response_view() == Some(r@)
        &&& res is Err ==> after.last_response_view() == self.last_response_view()
        &&& res matches Err(e) ==> (e is Processor || e is Transport)
        &&& after.processors_view().len() == self.processors_view().len()
        &&& (none_active(self.processors_view()) || spec_command_from_bytes(command) is None) ==> {
            &&& after.processors_view() == self.processors_view()
            &&& exists|r0: Result<Vec<u8>, TransportError>|
                #[trigger] self.transport_view().transmits(&after.transport_view(), command, r0) && raw_result(r0, res)
        }
        &&& forall|i: int| #[trigger] is_last_active(self.processors_view(), i) ==> (spec_command_from_bytes(command) matches Some(c)
            ==> exists|q: Processor, r: Result<Response, ProcessorError>|
                #[trigger] self.processors_view()[i].processes(&q, c,
                    exchanges_of(&self.transport_view(), &after.transport_view()), r)
                && after.processors_view() == self.processors_view().update(i, q)
                && processed_result(r, res))
    }

    /// Transmit raw command bytes: through the last active processor when the bytes decode as
    /// a command, directly through the transport otherwise. The response is remembered.
    pub fn transmit_raw(&mut self, command: &[u8]) -> (res: Result<Vec<u8>, Error>)
        ensures
            old(self).transmits_raw(final(self), command@, res),
    {
        if self.processors.len() > 0 {
            match Command::from_bytes(command) {
                Ok(command_obj) => {
                    let mut i = self.processors.len();
                    while i > 0
                        invariant
                            i <= self.processors@.len(),
                            self.processors@ == old(self).processors@,
                            self.transport == old(self).transport,
                            self.last_response == old(self).last_response,
                            spec_command_from_bytes(command@) == Some(command_obj@),
                            forall|j: int| i <= j < self.processors@.len() ==> !(#[trigger] self.processors@[j]).active_view(),
                            none_active(old(self).processors@) ==> forall|j: int| 0 <= j < i ==> !(#[trigger] self.processors@[j]).active_view(),
                        decreases i,
                    {
                        i = i - 1;
                        if self.processors[i].is_active() {
                            assert(!none_active(old(self).processors@)) by {
                                assert(self.processors@[i as int].active_view());
                            }
                            let ghost t0 = self.transport;
                            let mut p = self.processors.remove(i);
                            let ghost p0 = p;
                            let result = p.process_command(&command_obj, &mut self.transport);
                            self.processors.insert(i, p);
                            let res = match result {
                                Ok(response) => {
                                    let bytes = response.to_bytes();
                                    self.last_response = Some(bytes_to_vec(bytes.as_slice()));
                                    Ok(bytes)
                                },
                                Err(e) => Err(Error::Processor(e)),
                            };
                            proof {
                                assert(self.processors@ =~= old(self).processors@.update(i as int, p));
                                assert(p0 == old(self).processors@[i as int]);
                                assert(processed_result(result, res));
                                assert forall|k: int| #[trigger] is_last_active(old(self).processors_view(), k) implies k == i by {
                                    if k < i {
                                        assert(!old(self).processors@[i as int].active_view());
                                    } else if k > i {
                                        assert(!old(self).processors@[k].active_view());
                                    }
                                }
                                assert(spec_command_from_bytes(command@) == Some(command_obj@));
                                assert(old(self).processors_view()[i as int].processes(&p, command_obj@,
                                    exchanges_of(&old(self).transport_view(), &self.transport_view()), result));
                            }
                            return res;
                        }
                    }
                },
                Err(_) => {},
            }
        }
        assert(self.transport == old(self).transport && self.processors@ == old(self).processors@);
        let sent = self.transport.transmit_raw(command);
        let ghost r0 = sent;
        let res = match sent {
            Ok(response) => {
                self.last_response = Some(bytes_to_vec(response.as_slice()));
                Ok(response)
            },
            Err(e) => Err(Error::Transport(e)),
        };
        proof {
            assert(raw_result(r0, res));
            assert(old(self).transport_view().transmits(&self.transport_view(), command@, r0));
        }
        res
    }

    /// Transmit a command and parse the response
    pub fn transmit(&mut self, command: &Command) -> (res: Result<Response, Error>)
        ensures
            res matches Ok(r) ==> final(self).last_response_view() matches Some(b) && spec_response_from_bytes(b) == Some(r@),
            res matches Err(e) ==> (e is Processor || e is Transport || e == Error::Response(ResponseError::Incomplete)),
            final(self).processors_view().len() == old(self).processors_view().len(),
            none_active(old(self).processors_view()) ==> {
                &&& final(self).processors_view() == old(self).processors_view()
                &&& exists|r0: Result<Vec<u8>, TransportError>|
                    #[trigger] old(self).transport_view().transmits(&final(self).transport_view(),
                        spec_command_to_bytes(command@), r0) && parsed_result(r0, res)
            },
            exists|raw: Result<Vec<u8>, Error>| #[trigger] old(self).transmits_raw(final(self), spec_command_to_bytes(command@), raw)
                && transmitted_result(raw, res),
    {
        let command_bytes = command.to_bytes();
        let raw = self.transmit_raw(command_bytes.as_slice());
        let res = match raw {
            Err(e) => Err(e),
            Ok(response_bytes) => match Response::from_bytes(response_bytes.as_slice()) {
                Ok(r) => Ok(r),
                Err(e) => Err(Error::Response(e)),
            },
        };
        proof {
            assert(transmitted_result(raw, res));
            if none_active(old(self).processors_view()) {
                let r0 = choose|r0: Result<Vec<u8>, TransportError>|
                    #[trigger] old(self).transport_view().transmits(&self.transport_view(), command_bytes@, r0)
                        && raw_result(r0, raw);
                assert(parsed_result(r0, res));
            }
        }
        res
    }

    /// Execute a command that needs the given security level: refused with
    /// `InsufficientSecurityLevel` when a level is required and the current one does not
    /// satisfy it; otherwise transmitted and its response parsed
    pub fn execute(&mut self, command: &Command, required: SecurityLevel) -> (res: Result<Response, Error>)
        ensures
            !security_ok(spec_max_level(active_levels(old(self).processors_view())), required@) ==> (res
                == Err::<Response, Error>(Error::SecureProtocol(SecureProtocolError::InsufficientSecurityLevel))
                && final(self).last_response_view() == old(self).last_response_view()),
            res matches Ok(r) ==> (security_ok(spec_max_level(active_levels(old(self).processors_view())), required@)
                && (final(self).last_response_view() matches Some(b) && spec_response_from_bytes(b) == Some(r@))),
            security_ok(spec_max_level(active_levels(old(self).processors_view())), required@) ==> exists|raw: Result<Vec<u8>, Error>|
                #[trigger] old(self).transmits_raw(final(self), spec_command_to_bytes(command@), raw) && transmitted_result(raw, res),
    {
        let current = self.security_level();
        if !required.is_none() && !current.satisfies(&required) {
            return Err(Error::SecureProtocol(SecureProtocolError::InsufficientSecurityLevel));
        }
        self.transmit(command)
    }

    /// Reset the executor: reset the transport, drop the processors and the last response
    pub fn reset(&mut self) -> (res: Result<(), Error>)
        ensures
            res is Ok ==> final(self).processors_view().len() == 0 && final(self).last_response_view() is None,
            res matches Err(e) ==> e is Transport,
    {
        match self.transport.reset() {
            Ok(()) => {},
            Err(e) => return Err(Error::Transport(e)),
        }
        self.processors.clear();
        self.last_response = None;
        Ok(())
    }
}

impl<T: CardTransport> ApduExecutorErrors for CardExecutor<T> {
    type Error = Error;
}

impl<T: CardTransport> ResponseAwareExecutor for CardExecutor<T> {
    open spec fn last_response_bytes(&self) -> Option<Seq<u8>> {
        self.last_response_view()
    }

    /// The last response, or a transport error when there is none
    fn last_response(&self) -> Result<&Vec<u8>, TransportError> {
        match &self.last_response {
            Some(r) => Ok(r),
            None => Err(TransportError::Other(String::from_str("No last response available"))),
        }
    }
}

} // verus!
