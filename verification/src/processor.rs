//! Command processors: transformations applied between a command and the transport,
//! such as automatic GET RESPONSE chaining, and a base secure channel.
use vstd::prelude::*;

use crate::command::{spec_command_to_bytes, Command, CommandView};
use crate::error::{ProcessorError, SecureProtocolError, TransportError};
use crate::gp_commands::GetResponseCommand;
use crate::response::{append_bytes, bytes_to_vec, extract_response_parts, spec_response_from_bytes, Response, ResponseView, spec_payload_part};
use crate::security::{level, SecurityLevel};
use crate::status::StatusWord;
use crate::transport::CardTransport;

verus! {

/// Trait for command processors which transform commands before sending them to the transport
pub trait CommandProcessor {
    /// What processing `command` does, as each processor defines it: the processor before and
    /// after, and the outcome, where `exchanges(sent, replies)` holds when the transport can
    /// answer `replies[i]` to `sent[i]`, one after the other, in going from its state before the
    /// processing to its state after it
    spec fn processes(
        &self,
        after: &Self,
        command: CommandView,
        exchanges: spec_fn(Seq<Seq<u8>>, Seq<Result<Vec<u8>, TransportError>>) -> bool,
        res: Result<Response, ProcessorError>,
    ) -> bool;

    /// Internal implementation of process_command
    fn do_process_command<T: CardTransport>(&mut self, command: &Command, transport: &mut T) -> (res: Result<Response, ProcessorError>)
        ensures
            old(self).processes(final(self), command@, exchanges_of(old(transport), final(transport)), res),
    ;

    /// Process a command through this processor
    fn process_command<T: CardTransport>(&mut self, command: &Command, transport: &mut T) -> (res: Result<Response, ProcessorError>)
        ensures
            old(self).processes(final(self), command@, exchanges_of(old(transport), final(transport)), res),
    {
        self.do_process_command(command, transport)
    }

    /// Get the security level provided by this processor
    fn security_level(&self) -> (res: SecurityLevel)
        default_ensures
            res@ == level(false, false, false),
    {
        SecurityLevel::none()
    }

    /// Check if this processor is active/ready
    fn is_active(&self) -> (res: bool)
        default_ensures
            res,
    {
        true
    }
}

/// The transport goes through the states `ts`, answering `replies[i]` to `sent[i]` in going
/// from `ts[i]` to `ts[i + 1]`
pub open spec fn transport_trace<T: CardTransport>(
    ts: Seq<T>,
    sent: Seq<Seq<u8>>,
    replies: Seq<Result<Vec<u8>, TransportError>>,
) -> bool {
    &&& ts.len() == sent.len() + 1
    &&& replies.len() == sent.len()
    &&& forall|i: int| #![trigger replies[i]] 0 <= i < sent.len() ==> ts[i].transmits(&ts[i + 1], sent[i], replies[i])
}

/// The exchanges a transport makes in going from one state to another: the replies it gives,
/// in order, to the bytes sent to it
pub open spec fn exchanges_of<T: CardTransport>(before: &T, after: &T) -> spec_fn(Seq<Seq<u8>>, Seq<Result<Vec<u8>, TransportError>>) -> bool {
    |sent: Seq<Seq<u8>>, replies: Seq<Result<Vec<u8>, TransportError>>|
        exists|ts: Seq<T>| #[trigger] transport_trace(ts, sent, replies) && ts[0] == *before && ts.last() == *after
}

/// A single exchange makes the exchanges of the transport's states before and after it
proof fn lemma_single_exchange<T: CardTransport>(before: T, after: T, bytes: Seq<u8>, r0: Result<Vec<u8>, TransportError>)
    requires
        before.transmits(&after, bytes, r0),
    ensures
        exchanges_of(&before, &after)(seq![bytes], seq![r0]),
{
    let ts = seq![before, after];
    assert(transport_trace(ts, seq![bytes], seq![r0]));
}

/// The outcome of sending a command once and parsing the reply `r0`: the transport's error,
/// the parsed response, or `parse_error` when the reply is shorter than a status word
pub open spec fn reply_result(r0: Result<Vec<u8>, TransportError>, res: Result<Response, ProcessorError>, parse_error: ProcessorError) -> bool {
    match r0 {
        Err(e) => res == Err::<Response, ProcessorError>(ProcessorError::Transport(e)),
        Ok(b) => match spec_response_from_bytes(b@) {
            Some(v) => res matches Ok(r) && r@ == v,
            None => res == Err::<Response, ProcessorError>(parse_error),
        },
    }
}

/// Identity processor that doesn't modify commands
#[derive(Debug, Clone, Copy, Default)]
pub struct IdentityProcessor;

impl CommandProcessor for IdentityProcessor {
    /// The command's bytes go to the transport unchanged and the reply is parsed
    open spec fn processes(
        &self,
        after: &Self,
        command: CommandView,
        exchanges: spec_fn(Seq<Seq<u8>>, Seq<Result<Vec<u8>, TransportError>>) -> bool,
        res: Result<Response, ProcessorError>,
    ) -> bool {
        exists|r0: Result<Vec<u8>, TransportError>|
            #[trigger] exchanges(seq![spec_command_to_bytes(command)], seq![r0])
                && reply_result(r0, res, ProcessorError::InvalidResponse("Failed to parse response"))
    }

    fn do_process_command<T: CardTransport>(&mut self, command: &Command, transport: &mut T) -> (res: Result<Response, ProcessorError>)
        ensures
            res matches Err(e) ==> (e is Transport || e == ProcessorError::InvalidResponse("Failed to parse response")),
    {
        let command_bytes = command.to_bytes();
        let sent = transport.transmit_raw(command_bytes.as_slice());
        let ghost r0 = sent;
        proof {
            lemma_single_exchange(*old(transport), *transport, command_bytes@, r0);
        }
        let res = match sent {
            Err(e) => Err(ProcessorError::Transport(e)),
            Ok(response_bytes) => match Response::from_bytes(response_bytes.as_slice()) {
                Ok(r) => Ok(r),
                Err(_) => Err(ProcessorError::InvalidResponse("Failed to parse response")),
            },
        };
        proof {
            assert(reply_result(r0, res, ProcessorError::InvalidResponse("Failed to parse response")));
        }
        res
    }
}

/// Decision after a response in a GET RESPONSE chain
#[derive(Debug, PartialEq, Eq)]
pub enum ChainStep {
    /// Send GET RESPONSE with this expected length
    Fetch { le: u8 },
    /// The chain is complete
    Done(Response),
    /// The chain failed
    Failed(ProcessorError),
}

/// Data gathered so far in a GET RESPONSE chain
#[derive(Debug, Clone, PartialEq, Eq)]
pub struct ChainState {
    /// Payload bytes gathered so far
    pub buffer: Vec<u8>,
    /// Number of GET RESPONSE commands answered so far
    pub chains: usize,
}

/// Abstract value of a chain decision
pub enum StepView {
    /// Send GET RESPONSE with this expected length
    Fetch(u8),
    /// The chain is complete with this response
    Done(ResponseView),
    /// The chain failed with this error
    Failed(ProcessorError),
}

/// Abstract value of a decision
pub open spec fn step_view(s: ChainStep) -> StepView {
    match s {
        ChainStep::Fetch { le } => StepView::Fetch(le),
        ChainStep::Done(r) => StepView::Done(r@),
        ChainStep::Failed(e) => StepView::Failed(e),
    }
}

/// A response value with the given payload (none when empty) and status
pub open spec fn response_of(payload: Seq<u8>, sw1: u8, sw2: u8) -> ResponseView {
    ResponseView { payload: if payload.len() == 0 { None } else { Some(payload) }, status: StatusWord { sw1, sw2 } }
}

/// Decision after the response to the original command: a response without 61xx is final;
/// 61xx starts a chain (failing at once when no GET RESPONSE is allowed).
pub open spec fn spec_chain_start(max_chains: nat, raw: Seq<u8>) -> (Seq<u8>, nat, StepView) {
    if raw.len() < 2 {
        (Seq::empty(), 0, StepView::Failed(ProcessorError::InvalidResponse("Response too short")))
    } else {
        let p = spec_payload_part(raw);
        let sw1 = raw[raw.len() - 2];
        let sw2 = raw[raw.len() - 1];
        if sw1 != 0x61 {
            (p, 0, StepView::Done(response_of(p, sw1, sw2)))
        } else if 0 < max_chains {
            (p, 0, StepView::Fetch(sw2))
        } else {
            (p, 0, StepView::Failed(ProcessorError::ChainLimitExceeded))
        }
    }
}

/// Decision after the response to a GET RESPONSE: its payload is appended; another 61xx
/// continues the chain while the limit allows, and fails at the limit.
pub open spec fn spec_chain_advance(max_chains: nat, buffer: Seq<u8>, chains: nat, raw: Seq<u8>) -> (Seq<u8>, nat, StepView) {
    if raw.len() < 2 {
        (buffer, chains, StepView::Failed(ProcessorError::InvalidResponse("GET RESPONSE returned incomplete data")))
    } else {
        let b = buffer + spec_payload_part(raw);
        let c = chains + 1;
        let sw1 = raw[raw.len() - 2];
        let sw2 = raw[raw.len() - 1];
        if sw1 == 0x61 && c < max_chains {
            (b, c, StepView::Fetch(sw2))
        } else if sw1 == 0x61 {
            (b, c, StepView::Failed(ProcessorError::ChainLimitExceeded))
        } else {
            (b, c, StepView::Done(response_of(b, sw1, sw2)))
        }
    }
}

/// GET RESPONSE processor that handles automatic response chaining
#[derive(Debug, Clone, Copy)]
pub struct GetResponseProcessor {
    /// Maximum number of response chains to follow
    max_chains: usize,
}

impl Default for GetResponseProcessor {
    /// A processor following at most 10 chained responses
    fn default() -> (res: Self)
        ensures
            res.max_chains() == 10,
    {
        Self::new(10)
    }
}

impl GetResponseProcessor {
    /// Create a new GET RESPONSE processor with the given maximum chain count
    pub fn new(max_chains: usize) -> (res: Self)
        ensures
            res.max_chains() == max_chains,
    {
        GetResponseProcessor { max_chains }
    }

    /// The maximum number of GET RESPONSE commands in one chain
    pub closed spec fn max_chains(&self) -> nat {
        self.max_chains as nat
    }

    /// Decide what follows the response to the original command
    pub fn start(&self, raw: &[u8]) -> (res: (ChainState, ChainStep))
        ensures
            (res.0.buffer@, res.0.chains as nat, step_view(res.1)) == spec_chain_start(self.max_chains(), raw@),
    {
        match extract_response_parts(raw) {
            Err(_) => (ChainState { buffer: Vec::new(), chains: 0 }, ChainStep::Failed(ProcessorError::InvalidResponse("Response too short"))),
            Ok(((sw1, sw2), payload)) => {
                let buffer = bytes_to_vec(payload);
                if sw1 != 0x61 {
                    let p = if payload.len() == 0 { None } else { Some(bytes_to_vec(payload)) };
                    (ChainState { buffer, chains: 0 }, ChainStep::Done(Response::new(p, StatusWord::new(sw1, sw2))))
                } else if 0 < self.max_chains {
                    (ChainState { buffer, chains: 0 }, ChainStep::Fetch { le: sw2 })
                } else {
                    (ChainState { buffer, chains: 0 }, ChainStep::Failed(ProcessorError::ChainLimitExceeded))
                }
            },
        }
    }

    /// Decide what follows the response to a GET RESPONSE command
    pub fn advance(&self, state: ChainState, raw: &[u8]) -> (res: (ChainState, ChainStep))
        requires
            state.chains < usize::MAX,
        ensures
            (res.0.buffer@, res.0.chains as nat, step_view(res.1)) == spec_chain_advance(self.max_chains(), state.buffer@, state.chains as nat, raw@),
    {
        match extract_response_parts(raw) {
            Err(_) => (state, ChainStep::Failed(ProcessorError::InvalidResponse("GET RESPONSE returned incomplete data"))),
            Ok(((sw1, sw2), payload)) => {
                let mut buffer = state.buffer;
                append_bytes(&mut buffer, payload);
                let chains = state.chains + 1;
                if sw1 == 0x61 && chains < self.max_chains {
                    (ChainState { buffer, chains }, ChainStep::Fetch { le: sw2 })
                } else if sw1 == 0x61 {
                    (ChainState { buffer, chains }, ChainStep::Failed(ProcessorError::ChainLimitExceeded))
                } else {
                    let p = if buffer.len() == 0 { None } else { Some(bytes_to_vec(buffer.as_slice())) };
                    (ChainState { buffer, chains }, ChainStep::Done(Response::new(p, StatusWord::new(sw1, sw2))))
                }
            },
        }
    }
}

/// The bytes of GET RESPONSE asking for `le` bytes
pub open spec fn get_response_bytes(le: u8) -> Seq<u8> {
    seq![0x00u8, 0xC0u8, 0x00u8, 0x00u8, le]
}

/// The bytes of each reply (none for a transport error)
pub open spec fn reply_views(replies: Seq<Result<Vec<u8>, TransportError>>) -> Seq<Seq<u8>> {
    Seq::new(replies.len(), |i: int| match replies[i] {
        Ok(b) => b@,
        Err(_) => Seq::<u8>::empty(),
    })
}

/// The exchanges of a chain: first the command itself, then GET RESPONSE asking for as many
/// bytes as the previous reply announced in its last byte (SW2); only the last exchange may
/// end in a transport error
pub open spec fn chain_exchange(
    command: CommandView,
    sent: Seq<Seq<u8>>,
    replies: Seq<Result<Vec<u8>, TransportError>>,
) -> bool {
    let raws = reply_views(replies);
    &&& replies.len() >= 1
    &&& sent.len() == replies.len()
    &&& sent[0] == spec_command_to_bytes(command)
    &&& forall|i: int| 0 <= i < replies.len() - 1 ==> (#[trigger] replies[i]) is Ok
    &&& forall|i: int| #![trigger sent[i]] 1 <= i < sent.len() ==> sent[i] == get_response_bytes(raws[i - 1].last())
}

/// The outcome that a chain decision gives
pub open spec fn chain_result(s: StepView, res: Result<Response, ProcessorError>) -> bool {
    match s {
        StepView::Done(v) => res matches Ok(r) && r@ == v,
        StepView::Failed(e) => res == Err::<Response, ProcessorError>(e),
        StepView::Fetch(_) => false,
    }
}

/// The outcome of a GET RESPONSE chain over the given exchanges: a transport error ends it
/// before the replies so far decided anything; otherwise the chain decides with the last
/// reply, and the outcome is its decision
pub open spec fn chain_outcome(
    max_chains: nat,
    command: CommandView,
    sent: Seq<Seq<u8>>,
    replies: Seq<Result<Vec<u8>, TransportError>>,
    res: Result<Response, ProcessorError>,
) -> bool {
    &&& chain_exchange(command, sent, replies)
    &&& match replies.last() {
        Err(e) => res == Err::<Response, ProcessorError>(ProcessorError::Transport(e))
            && spec_run_chain(max_chains, reply_views(replies).drop_last()) is None,
        Ok(_) => spec_run_chain(max_chains, reply_views(replies)) matches Some((s, n))
            && n == replies.len() && chain_result(s, res),
    }
}

/// What the loop of a chain keeps: the transport's states so far, the commands sent and the
/// replies, all of them bytes
spec fn chain_progress<T: CardTransport>(
    command: CommandView,
    t0: T,
    t: T,
    ts: Seq<T>,
    sent: Seq<Seq<u8>>,
    replies: Seq<Result<Vec<u8>, TransportError>>,
    raws: Seq<Seq<u8>>,
) -> bool {
    &&& transport_trace(ts, sent, replies)
    &&& ts[0] == t0
    &&& ts.last() == t
    &&& chain_exchange(command, sent, replies)
    &&& forall|i: int| 0 <= i < replies.len() ==> (#[trigger] replies[i]) is Ok
    &&& reply_views(replies) == raws
}

/// One more exchange, of `bytes` answered by `r`, extends the trace of the transport
proof fn lemma_trace_push<T: CardTransport>(
    ts: Seq<T>,
    sent: Seq<Seq<u8>>,
    replies: Seq<Result<Vec<u8>, TransportError>>,
    t: T,
    bytes: Seq<u8>,
    r: Result<Vec<u8>, TransportError>,
)
    requires
        transport_trace(ts, sent, replies),
        ts.last().transmits(&t, bytes, r),
    ensures
        transport_trace(ts.push(t), sent.push(bytes), replies.push(r)),
        ts.push(t)[0] == ts[0],
        ts.push(t).last() == t,
{
    let ts2 = ts.push(t);
    let sent2 = sent.push(bytes);
    let replies2 = replies.push(r);
    assert forall|i: int| 0 <= i < sent2.len() implies ts2[i].transmits(&ts2[i + 1], sent2[i], #[trigger] replies2[i]) by {
        if i < sent.len() {
            assert(ts[i].transmits(&ts[i + 1], sent[i], replies[i]));
        }
    }
}

/// A GET RESPONSE with the announced length extends the exchanges of a chain
proof fn lemma_chain_push(
    command: CommandView,
    sent: Seq<Seq<u8>>,
    replies: Seq<Result<Vec<u8>, TransportError>>,
    r: Result<Vec<u8>, TransportError>,
)
    requires
        chain_exchange(command, sent, replies),
        forall|i: int| 0 <= i < replies.len() ==> (#[trigger] replies[i]) is Ok,
    ensures
        chain_exchange(command, sent.push(get_response_bytes(reply_views(replies).last().last())), replies.push(r)),
        reply_views(replies.push(r)).drop_last() == reply_views(replies),
        r matches Ok(b) ==> reply_views(replies.push(r)) == reply_views(replies).push(b@),
{
    let sent2 = sent.push(get_response_bytes(reply_views(replies).last().last()));
    let replies2 = replies.push(r);
    assert(reply_views(replies2).drop_last() =~= reply_views(replies));
    if r is Ok {
        assert(reply_views(replies2) =~= reply_views(replies).push(r->Ok_0@));
    }
    assert forall|i: int| #![trigger sent2[i]] 1 <= i < sent2.len() implies sent2[i] == get_response_bytes(reply_views(replies2)[i - 1].last()) by {
        assert(reply_views(replies2)[i - 1] == reply_views(replies)[i - 1]);
        if i < sent.len() {
            assert(sent2[i] == sent[i]);
        }
    }
    assert forall|i: int| 0 <= i < replies2.len() - 1 implies (#[trigger] replies2[i]) is Ok by {
        assert(replies2[i] == replies[i]);
    }
}

impl CommandProcessor for GetResponseProcessor {
    /// The processor stays as it is; the transport answered a chain of exchanges (the command,
    /// then GET RESPONSE for each 61xx reply) and the outcome is what that chain gives
    open spec fn processes(
        &self,
        after: &Self,
        command: CommandView,
        exchanges: spec_fn(Seq<Seq<u8>>, Seq<Result<Vec<u8>, TransportError>>) -> bool,
        res: Result<Response, ProcessorError>,
    ) -> bool {
        &&& after.max_chains() == self.max_chains()
        &&& exists|sent: Seq<Seq<u8>>, replies: Seq<Result<Vec<u8>, TransportError>>|
            #[trigger] exchanges(sent, replies) && chain_outcome(self.max_chains(), command, sent, replies, res)
    }

    /// Send the command and follow 61xx answers with GET RESPONSE, gathering the payloads
    fn do_process_command<T: CardTransport>(&mut self, command: &Command, transport: &mut T) -> (res: Result<Response, ProcessorError>) {
        let ghost max = self.max_chains();
        let ghost t0 = *transport;
        let command_bytes = command.to_bytes();
        let first_reply = transport.transmit_raw(command_bytes.as_slice());
        let ghost mut ts: Seq<T> = seq![t0, *transport];
        let ghost mut sent: Seq<Seq<u8>> = seq![command_bytes@];
        let ghost mut replies: Seq<Result<Vec<u8>, TransportError>> = seq![first_reply];
        proof {
            assert(transport_trace(ts, sent, replies));
            assert(chain_exchange(command@, sent, replies));
        }
        let raw = match first_reply {
            Ok(r) => r,
            Err(e) => {
                let res = Err(ProcessorError::Transport(e));
                proof {
                    assert(reply_views(replies).drop_last() =~= Seq::<Seq<u8>>::empty());
                    assert(chain_outcome(max, command@, sent, replies, res));
                    assert(exchanges_of(old(transport), transport)(sent, replies));
                }
                return res;
            },
        };
        let ghost mut raws: Seq<Seq<u8>> = seq![raw@];
        proof {
            assert(reply_views(replies) =~= raws);
        }
        let (mut state, first) = self.start(raw.as_slice());
        proof {
            assert(chain_fold(max, raws) == spec_chain_start(max, raw@));
            assert(chain_continues(max, raws));
            assert(chain_progress(command@, t0, *transport, ts, sent, replies, raws));
        }
        let mut le: u8 = match first {
            ChainStep::Fetch { le } => le,
            ChainStep::Done(r) => {
                let res = Ok(r);
                proof {
                    lemma_fold_decides(max, raws);
                    assert(chain_outcome(max, command@, sent, replies, res));
                    assert(exchanges_of(old(transport), transport)(sent, replies));
                }
                return res;
            },
            ChainStep::Failed(e) => {
                let res = Err(e);
                proof {
                    lemma_fold_decides(max, raws);
                    assert(chain_outcome(max, command@, sent, replies, res));
                    assert(exchanges_of(old(transport), transport)(sent, replies));
                }
                return res;
            },
        };
        loop
            invariant
                max == self.max_chains(),
                *self == *old(self),
                state.chains < self.max_chains,
                raws.len() >= 1,
                chain_continues(max, raws),
                chain_fold(max, raws) == (state.buffer@, state.chains as nat, StepView::Fetch(le)),
                le == raws.last()[raws.last().len() - 1],
                chain_progress(command@, t0, *transport, ts, sent, replies, raws),
                t0 == *old(transport),
            decreases self.max_chains - state.chains,
        {
            let get_response = GetResponseCommand::with_length(le);
            let bytes = get_response.to_bytes();
            let ghost t_before = *transport;
            let reply = transport.transmit_raw(bytes.as_slice());
            proof {
                assert(bytes@ =~= get_response_bytes(le));
                lemma_trace_push(ts, sent, replies, *transport, bytes@, reply);
                lemma_chain_push(command@, sent, replies, reply);
                ts = ts.push(*transport);
                sent = sent.push(bytes@);
                replies = replies.push(reply);
            }
            let raw = match reply {
                Ok(r) => r,
                Err(e) => {
                    let res = Err(ProcessorError::Transport(e));
                    proof {
                        lemma_fold_pending(max, raws);
                        assert(chain_outcome(max, command@, sent, replies, res));
                        assert(exchanges_of(old(transport), transport)(sent, replies));
                    }
                    return res;
                },
            };
            let ghost before = raws;
            proof {
                raws = raws.push(raw@);
                assert(raws.drop_last() =~= before);
                assert forall|k: int| 1 <= k < raws.len() implies (#[trigger] chain_fold(max, raws.subrange(0, k))).2 is Fetch by {
                    if k < before.len() {
                        assert(raws.subrange(0, k) =~= before.subrange(0, k));
                    } else {
                        assert(raws.subrange(0, k) =~= before);
                    }
                }
                assert forall|i: int| 0 <= i < replies.len() implies (#[trigger] replies[i]) is Ok by {
                    if i < replies.len() - 1 {
                        assert(chain_exchange(command@, sent, replies));
                    }
                }
                assert(chain_progress(command@, t0, *transport, ts, sent, replies, raws));
            }
            let (s, st) = self.advance(state, raw.as_slice());
            match st {
                ChainStep::Fetch { le: next } => {
                    state = s;
                    le = next;
                },
                ChainStep::Done(r) => {
                    let res = Ok(r);
                    proof {
                        lemma_fold_decides(max, raws);
                        assert(chain_outcome(max, command@, sent, replies, res));
                        assert(exchanges_of(old(transport), transport)(sent, replies));
                    }
                    return res;
                },
                ChainStep::Failed(e) => {
                    let res = Err(e);
                    proof {
                        lemma_fold_decides(max, raws);
                        assert(chain_outcome(max, command@, sent, replies, res));
                        assert(exchanges_of(old(transport), transport)(sent, replies));
                    }
                    return res;
                },
            }
        }
    }
}

/// The chain state after the given replies (the first answering the original command, each
/// following one a GET RESPONSE)
pub open spec fn chain_fold(max_chains: nat, raws: Seq<Seq<u8>>) -> (Seq<u8>, nat, StepView)
    decreases raws.len(),
{
    if raws.len() <= 1 {
        spec_chain_start(max_chains, raws[0])
    } else {
        let (b, c, s) = chain_fold(max_chains, raws.drop_last());
        spec_chain_advance(max_chains, b, c, raws.last())
    }
}

/// Every reply but the last asked for more data
pub open spec fn chain_continues(max_chains: nat, raws: Seq<Seq<u8>>) -> bool {
    forall|k: int| 1 <= k < raws.len() ==> (#[trigger] chain_fold(max_chains, raws.subrange(0, k))).2 is Fetch
}

/// Running the chain over the replies reaches, after `i` replies, the state that folding
/// them gives.
proof fn lemma_fold_runs(max_chains: nat, raws: Seq<Seq<u8>>, i: nat)
    requires
        1 <= i <= raws.len(),
        chain_continues(max_chains, raws),
    ensures
        ({
            let (b, c, s) = chain_fold(max_chains, raws.subrange(0, i as int));
            spec_run_chain(max_chains, raws) == spec_run_chain_from(max_chains, raws, b, c, s, i)
        }),
    decreases i,
{
    if i > 1 {
        lemma_fold_runs(max_chains, raws, (i - 1) as nat);
        let prev = raws.subrange(0, i - 1);
        let cur = raws.subrange(0, i as int);
        assert(cur.drop_last() =~= prev);
        assert(cur.last() == raws[i - 1]);
        assert(chain_fold(max_chains, prev).2 is Fetch);
    } else {
        assert(raws.subrange(0, 1)[0] == raws[0]);
    }
}

/// When the folded replies reach a decision, running the chain over them gives that decision
/// after all of them.
proof fn lemma_fold_decides(max_chains: nat, raws: Seq<Seq<u8>>)
    requires
        raws.len() >= 1,
        chain_continues(max_chains, raws),
        !(chain_fold(max_chains, raws).2 is Fetch),
    ensures
        spec_run_chain(max_chains, raws) == Some((chain_fold(max_chains, raws).2, raws.len())),
{
    lemma_fold_runs(max_chains, raws, raws.len());
    assert(raws.subrange(0, raws.len() as int) =~= raws);
}

/// When the folded replies still ask for more data, running the chain over them decides
/// nothing.
proof fn lemma_fold_pending(max_chains: nat, raws: Seq<Seq<u8>>)
    requires
        raws.len() >= 1,
        chain_continues(max_chains, raws),
        chain_fold(max_chains, raws).2 is Fetch,
    ensures
        spec_run_chain(max_chains, raws) is None,
{
    lemma_fold_runs(max_chains, raws, raws.len());
    assert(raws.subrange(0, raws.len() as int) =~= raws);
}

/// Outcome of a whole GET RESPONSE chain fed with the given raw responses in order
/// (the first answers the original command): the final decision and the number of
/// responses it used, or None when the responses run out before a decision.
pub open spec fn spec_run_chain(max_chains: nat, raws: Seq<Seq<u8>>) -> Option<(StepView, nat)> {
    if raws.len() == 0 {
        None
    } else {
        let (b, c, s) = spec_chain_start(max_chains, raws[0]);
        spec_run_chain_from(max_chains, raws, b, c, s, 1)
    }
}

/// Continuation of a chain from response index `i` with the given state and decision.
pub open spec fn spec_run_chain_from(max_chains: nat, raws: Seq<Seq<u8>>, b: Seq<u8>, c: nat, s: StepView, i: nat) -> Option<(StepView, nat)>
    decreases raws.len() - i,
{
    match s {
        StepView::Fetch(_) => if i < raws.len() {
            let (b2, c2, s2) = spec_chain_advance(max_chains, b, c, raws[i as int]);
            spec_run_chain_from(max_chains, raws, b2, c2, s2, i + 1)
        } else {
            None
        },
        _ => Some((s, i)),
    }
}

/// The payloads of the given raw responses, concatenated
pub open spec fn payloads_concat(raws: Seq<Seq<u8>>, n: nat) -> Seq<u8>
    decreases n,
{
    if n == 0 || n > raws.len() {
        Seq::empty()
    } else {
        payloads_concat(raws, (n - 1) as nat) + spec_payload_part(raws[n - 1])
    }
}

/// Chaining gathers data faithfully: when a chain completes after `n` responses, its payload is
/// the concatenation of the payloads of those responses and its status word that of the last.
pub proof fn lemma_chain_concatenates(max_chains: nat, raws: Seq<Seq<u8>>)
    requires
        spec_run_chain(max_chains, raws) matches Some((StepView::Done(_), _)),
    ensures
        spec_run_chain(max_chains, raws) matches Some((StepView::Done(r), n)) && {
            &&& 1 <= n <= raws.len()
            &&& r == response_of(payloads_concat(raws, n), raws[n - 1][raws[n - 1].len() - 2], raws[n - 1][raws[n - 1].len() - 1])
        },
{
    let (b, c, s) = spec_chain_start(max_chains, raws[0]);
    assert(payloads_concat(raws, 0) == Seq::<u8>::empty());
    assert(payloads_concat(raws, 1) =~= spec_payload_part(raws[0]));
    if s is Fetch {
        lemma_chain_from_concatenates(max_chains, raws, b, c, s, 1);
    }
}

/// Induction step of `lemma_chain_concatenates`.
pub proof fn lemma_chain_from_concatenates(max_chains: nat, raws: Seq<Seq<u8>>, b: Seq<u8>, c: nat, s: StepView, i: nat)
    requires
        1 <= i <= raws.len(),
        s is Fetch,
        b == payloads_concat(raws, i),
        spec_run_chain_from(max_chains, raws, b, c, s, i) matches Some((StepView::Done(_), _)),
    ensures
        spec_run_chain_from(max_chains, raws, b, c, s, i) matches Some((StepView::Done(r), n)) && {
            &&& i < n <= raws.len()
            &&& r == response_of(payloads_concat(raws, n), raws[n - 1][raws[n - 1].len() - 2], raws[n - 1][raws[n - 1].len() - 1])
        },
    decreases raws.len() - i,
{
    let (b2, c2, s2) = spec_chain_advance(max_chains, b, c, raws[i as int]);
    assert(payloads_concat(raws, i + 1) == payloads_concat(raws, i) + spec_payload_part(raws[i as int]));
    if s2 is Fetch {
        lemma_chain_from_concatenates(max_chains, raws, b2, c2, s2, i + 1);
    }
}

/// The first `n` replies all announce more data (61xx)
pub open spec fn all_more_data(raws: Seq<Seq<u8>>, n: nat) -> bool {
    forall|j: int| 0 <= j < n ==> (#[trigger] raws[j]).len() >= 2 && raws[j][raws[j].len() - 2] == 0x61
}

/// A chain uses at most one reply more than its limit of GET RESPONSE commands, and it fails
/// with `ChainLimitExceeded` exactly when it used that many replies, all of them 61xx.
pub proof fn lemma_chain_bound(max_chains: nat, raws: Seq<Seq<u8>>)
    requires
        spec_run_chain(max_chains, raws) is Some,
    ensures
        spec_run_chain(max_chains, raws) matches Some((s, n)) && n <= max_chains + 1 && (s == StepView::Failed(
            ProcessorError::ChainLimitExceeded) <==> (n == max_chains + 1 && all_more_data(raws, n))),
{
    let (b, c, s) = spec_chain_start(max_chains, raws[0]);
    lemma_chain_from_bound(max_chains, raws, b, c, s, 1);
}

/// Induction step of `lemma_chain_bound`.
proof fn lemma_chain_from_bound(max_chains: nat, raws: Seq<Seq<u8>>, b: Seq<u8>, c: nat, s: StepView, i: nat)
    requires
        1 <= i <= raws.len(),
        s is Fetch ==> c + 1 == i && c < max_chains && all_more_data(raws, i),
        !(s is Fetch) ==> i <= max_chains + 1 && (s == StepView::Failed(ProcessorError::ChainLimitExceeded)
            <==> (i == max_chains + 1 && all_more_data(raws, i))),
        spec_run_chain_from(max_chains, raws, b, c, s, i) is Some,
    ensures
        spec_run_chain_from(max_chains, raws, b, c, s, i) matches Some((s2, n)) && n <= max_chains + 1 && (s2
            == StepView::Failed(ProcessorError::ChainLimitExceeded) <==> (n == max_chains + 1 && all_more_data(raws, n))),
    decreases raws.len() - i,
{
    if s is Fetch {
        let raw = raws[i as int];
        let (b2, c2, s2) = spec_chain_advance(max_chains, b, c, raw);
        if s2 is Fetch {
            assert(all_more_data(raws, i + 1)) by {
                assert forall|j: int| 0 <= j < i + 1 implies (#[trigger] raws[j]).len() >= 2 && raws[j][raws[j].len() - 2] == 0x61 by {
                    if j < i {
                        assert(all_more_data(raws, i));
                    }
                }
            }
        } else {
            if i + 1 == max_chains + 1 && all_more_data(raws, i + 1) {
                assert(raws[i as int].len() >= 2 && raws[i as int][raws[i as int].len() - 2] == 0x61);
            }
            if s2 == StepView::Failed(ProcessorError::ChainLimitExceeded) {
                assert(all_more_data(raws, i + 1)) by {
                    assert forall|j: int| 0 <= j < i + 1 implies (#[trigger] raws[j]).len() >= 2 && raws[j][raws[j].len() - 2] == 0x61 by {
                        if j < i {
                            assert(all_more_data(raws, i));
                        }
                    }
                }
            }
        }
        lemma_chain_from_bound(max_chains, raws, b2, c2, s2, i + 1);
    }
}

/// A base secure channel: a passthrough processor that is active once established
#[derive(Debug, Clone)]
pub struct BaseSecureChannel {
    /// Whether the channel is established
    established: bool,
    /// Session data for the channel
    session_data: Option<Vec<u8>>,
}

impl BaseSecureChannel {
    /// Create a new base secure channel (not established, no session data)
    pub fn new() -> (res: Self)
        ensures
            !res.is_established_view(),
            res.session_data_view() is None,
    {
        BaseSecureChannel { established: false, session_data: None }
    }

    /// Whether the channel is established
    pub closed spec fn is_established_view(&self) -> bool {
        self.established
    }

    /// The session data
    pub closed spec fn session_data_view(&self) -> Option<Seq<u8>> {
        match self.session_data {
            Some(d) => Some(d@),
            None => None,
        }
    }

    /// Set the session data
    pub fn set_session_data(&mut self, data: Vec<u8>)
        ensures
            final(self).session_data_view() == Some(data@),
            final(self).is_established_view() == old(self).is_established_view(),
    {
        self.session_data = Some(data);
    }

    /// Get the session data
    pub fn session_data(&self) -> (res: Option<&Vec<u8>>)
        ensures
            res is Some <==> self.session_data_view() is Some,
            res matches Some(d) ==> self.session_data_view() == Some(d@),
    {
        match &self.session_data {
            Some(d) => Some(d),
            None => None,
        }
    }

    /// Mark the channel as established (or not)
    pub fn set_established(&mut self, established: bool)
        ensures
            final(self).is_established_view() == established,
            final(self).session_data_view() == old(self).session_data_view(),
    {
        self.established = established;
    }

    /// Check if the secure channel is established
    pub fn is_established(&self) -> (res: bool)
        ensures
            res == self.is_established_view(),
    {
        self.established
    }

    /// Close the secure channel, dropping the session data
    pub fn close(&mut self) -> (res: Result<(), ProcessorError>)
        ensures
            res is Ok,
            !final(self).is_established_view(),
            final(self).session_data_view() is None,
    {
        self.established = false;
        self.session_data = None;
        Ok(())
    }

    /// A base channel cannot be reestablished
    pub fn reestablish(&mut self) -> (res: Result<(), ProcessorError>)
        ensures
            res == Err::<(), ProcessorError>(ProcessorError::SecureChannel(SecureProtocolError::Session("Cannot reestablish base secure channel"))),
            *final(self) == *old(self),
    {
        Err(ProcessorError::SecureChannel(SecureProtocolError::Session("Cannot reestablish base secure channel")))
    }
}

/// A command processor that is a secure channel
pub trait SecureChannel: CommandProcessor {
    /// Check if the secure channel is established
    fn is_established(&self) -> bool;

    /// Close the secure channel
    fn close(&mut self) -> Result<(), ProcessorError>;

    /// Reestablish a closed channel
    fn reestablish(&mut self) -> Result<(), ProcessorError>;
}

impl SecureChannel for BaseSecureChannel {
    fn is_established(&self) -> (res: bool)
        ensures
            res == self.is_established_view(),
    {
        self.established
    }

    fn close(&mut self) -> (res: Result<(), ProcessorError>)
        ensures
            res is Ok,
            !final(self).is_established_view(),
            final(self).session_data_view() is None,
    {
        BaseSecureChannel::close(self)
    }

    fn reestablish(&mut self) -> (res: Result<(), ProcessorError>)
        ensures
            res == Err::<(), ProcessorError>(ProcessorError::SecureChannel(SecureProtocolError::Session("Cannot reestablish base secure channel"))),
            *final(self) == *old(self),
    {
        BaseSecureChannel::reestablish(self)
    }
}

impl Default for BaseSecureChannel {
    /// A channel that is not established and has no session data
    fn default() -> (res: Self)
        ensures
            !res.is_established_view(),
            res.session_data_view() is None,
    {
        Self::new()
    }
}

impl CommandProcessor for BaseSecureChannel {
    /// The channel stays as it is; the command's bytes go to the transport unchanged and the
    /// reply is parsed
    closed spec fn processes(
        &self,
        after: &Self,
        command: CommandView,
        exchanges: spec_fn(Seq<Seq<u8>>, Seq<Result<Vec<u8>, TransportError>>) -> bool,
        res: Result<Response, ProcessorError>,
    ) -> bool {
        &&& *after == *self
        &&& exists|r0: Result<Vec<u8>, TransportError>|
            #[trigger] exchanges(seq![spec_command_to_bytes(command)], seq![r0])
                && reply_result(r0, res, ProcessorError::Response(crate::error::ResponseError::Incomplete))
    }

    fn do_process_command<T: CardTransport>(&mut self, command: &Command, transport: &mut T) -> (res: Result<Response, ProcessorError>)
        ensures
            res matches Err(e) ==> (e is Transport || e == ProcessorError::Response(crate::error::ResponseError::Incomplete)),
    {
        let command_bytes = command.to_bytes();
        let sent = transport.transmit_raw(command_bytes.as_slice());
        let ghost r0 = sent;
        proof {
            lemma_single_exchange(*old(transport), *transport, command_bytes@, r0);
        }
        let res = match sent {
            Err(e) => Err(ProcessorError::Transport(e)),
            Ok(response_bytes) => match Response::from_bytes(response_bytes.as_slice()) {
                Ok(r) => Ok(r),
                Err(e) => Err(ProcessorError::Response(e)),
            },
        };
        proof {
            assert(reply_result(r0, res, ProcessorError::Response(crate::error::ResponseError::Incomplete)));
        }
        res
    }

    fn is_active(&self) -> (res: bool)
        ensures
            res == self.is_established_view(),
    {
        self.established
    }
}

} // verus!
