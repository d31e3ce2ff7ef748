//! Backend logic of a peer-to-peer group chat over a content-addressed,
//! agent-authenticated shared ledger.
//!
//! Every participant runs this logic locally; there is no central server.
//! The ledger engine itself (entry storage, chaining, gossip), the signing
//! system and the transport are external collaborators: they appear here as
//! explicit state (`ledger::Ledger`) and injected values (current time,
//! per-recipient delivery outcomes), so that every decision the chat logic
//! makes is a verified function of plain data.
//!
//! This file holds the operations exposed at the process boundary; the
//! components live in their modules: admission and entry validation in
//! `validation`, the shared dataset in `ledger`, the presence registry in
//! `presence`, fan-out and capabilities in `signal`.

pub mod error;
pub mod ledger;
pub mod presence;
pub mod signal;
pub mod validation;

use vstd::prelude::*;
use crate::error::ChatError;
use crate::ledger::{
    channel_validate_data, channels_in, message_validate_data, msgs_in, msgs_in_category, page,
    ChannelData, ChannelInput, ChannelList, ChannelListInput, Chunk, Ledger, ListMessages,
    ListMessagesInput, MessageData, MessageInput,
};
use crate::presence::{
    active_count, spec_active, ActiveChatters, PresenceRegistry,
};
use crate::signal::{
    CapGrant, GrantedFunction, SignalMessageData, SignalSpecificInput, SigResults, TransportStatus,
};
use crate::validation::{
    code_of, is_code_payload, is_read_only_payload, spec_joining_code, spec_validate,
    GenesisSelfCheckData, ValidateCallbackResult, ValidateData,
};

pub use crate::signal::recv_remote_signal;

verus! {

/// Admission outcome reported to the ledger engine at initialization.
#[derive(Debug, PartialEq, Eq, Structural)]
pub enum InitCallbackResult {
    /// The agent becomes a participant.
    Pass,
    /// The agent is refused; the reason is recorded.
    Fail(ChatError),
}

/// One agent's process: its identity, the admission proof recorded at its
/// chain genesis, its standing capability grant, and its local presence
/// registry. Exactly one mutator exists per process, so no internal data
/// race is possible; concurrency lives across agents, in the shared ledger.
pub struct Process {
    pub agent_key: u64,
    /// The proof this agent presented at genesis, if any.
    pub membrane_proof: Option<Vec<u8>>,
    /// Build-time deployment switch that bypasses the admission gate, for
    /// pre-trusted test networks; modeled as explicit configuration.
    pub skip_proof: bool,
    /// The standing grant created at bootstrap, once `init` has run.
    pub cap_grant: Option<CapGrant>,
    pub registry: PresenceRegistry,
}

impl Process {
    pub open spec fn wf(self) -> bool {
        self.registry.wf()
    }

    /// The instance is read-only: its immutable genesis proof carries the
    /// read-only marker. Re-derived on every check, never cached.
    pub open spec fn spec_read_only(self) -> bool {
        match self.membrane_proof {
            Option::Some(b) => is_read_only_payload(b@),
            Option::None => false,
        }
    }

    /// A fresh process that has not yet run `init`.
    pub fn new(agent_key: u64, membrane_proof: Option<Vec<u8>>, skip_proof: bool, window: u64) -> (r:
        Process)
        ensures
            r.wf(),
            r.agent_key == agent_key,
            r.membrane_proof == membrane_proof,
            r.skip_proof == skip_proof,
            r.cap_grant is None,
            r.registry.window == window,
            r.registry.times() == Map::<u64, u64>::empty(),
    {
        Process {
            agent_key,
            membrane_proof,
            skip_proof,
            cap_grant: None,
            registry: PresenceRegistry::new(window),
        }
    }
}

/// Whether this instance joined read-only, decided from its immutable
/// genesis proof.
pub fn is_read_only_instance(process: &Process) -> (r: bool)
    ensures
        r == process.spec_read_only(),
{
    match &process.membrane_proof {
        Option::Some(b) => crate::validation::is_read_only_proof(b),
        Option::None => false,
    }
}

/// Pre-chain self-check of the admission proof. No network access exists
/// yet, so only structural well-formedness is decided; a read-only proof is
/// accepted outright, a malformed one rejected, never a crash.
pub fn genesis_self_check(data: &GenesisSelfCheckData) -> (r: ValidateCallbackResult)
    ensures
        r == spec_joining_code(match data.membrane_proof {
            Option::Some(b) => Option::Some(b@),
            Option::None => Option::<Seq<u8>>::None,
        }),
{
    crate::validation::joining_code(&data.membrane_proof)
}

/// The admission decision `init` owes, as a function of the process and the
/// shared namespace it sees.
pub open spec fn spec_init_result(p: Process, l: Ledger) -> Result<InitCallbackResult, ChatError> {
    if p.skip_proof {
        Result::Ok(InitCallbackResult::Pass)
    } else {
        match p.membrane_proof {
            Option::None => Result::Err(ChatError::InitFailure),
            Option::Some(b) => if is_read_only_payload(b@) {
                Result::Ok(InitCallbackResult::Pass)
            } else if is_code_payload(b@) {
                if l.code_claimed(code_of(b@)) {
                    Result::Ok(InitCallbackResult::Fail(ChatError::AlreadyUsed))
                } else {
                    Result::Ok(InitCallbackResult::Pass)
                }
            } else {
                Result::Err(ChatError::InitFailure)
            },
        }
    }
}

/// Whether admission appends a marker to the shared namespace.
pub open spec fn spec_init_claims(p: Process, l: Ledger) -> bool {
    !p.skip_proof && match p.membrane_proof {
        Option::Some(b) => !is_read_only_payload(b@) && is_code_payload(b@) && !l.code_claimed(
            code_of(b@),
        ),
        Option::None => false,
    }
}

/// Runs once per process. Bootstraps the capability grant for inbound
/// remote signals, then runs the admission gate: a read-only proof passes
/// with no claim; a join code is checked against the shared namespace and
/// claimed atomically (the check and the create are one logical step on the
/// ledger's commit primitive); an already-claimed code fails the agent; a
/// missing or undecodable proof is a fatal `InitFailure`. On a pass the
/// agent enters the membership roll.
pub fn init(process: &mut Process, ledger: &mut Ledger) -> (r: Result<
    InitCallbackResult,
    ChatError,
>)
    requires
        old(process).wf(),
        old(ledger).wf(),
    ensures
        final(process).wf(),
        final(ledger).wf(),
        r == spec_init_result(*old(process), *old(ledger)),
        final(process).cap_grant matches Some(g) && g.unrestricted && g.functions@ == seq![
            GrantedFunction::RecvRemoteSignal,
        ],
        final(process).agent_key == old(process).agent_key,
        final(process).membrane_proof == old(process).membrane_proof,
        final(process).skip_proof == old(process).skip_proof,
        final(process).registry == old(process).registry,
        final(ledger).channels == old(ledger).channels,
        final(ledger).messages == old(ledger).messages,
        r == Result::<InitCallbackResult, ChatError>::Ok(InitCallbackResult::Pass)
            ==> final(ledger).agents@ == old(ledger).agents@.push(old(process).agent_key),
        r != Result::<InitCallbackResult, ChatError>::Ok(InitCallbackResult::Pass)
            ==> final(ledger).agents == old(ledger).agents,
        spec_init_claims(*old(process), *old(ledger)) ==> (forall|c: Seq<u8>|
            final(ledger).code_claimed(c) <==> (old(ledger).code_claimed(c) || c == code_of(
                old(process).membrane_proof->Some_0@,
            ))),
        !spec_init_claims(*old(process), *old(ledger)) ==> final(ledger).claimed_codes == old(
            ledger,
        ).claimed_codes,
{
    let grant = crate::signal::grant_remote_signal_access();
    process.cap_grant = Some(grant);
    if process.skip_proof {
        ledger.agents.push(process.agent_key);
        return Ok(InitCallbackResult::Pass);
    }
    match &process.membrane_proof {
        Option::None => Err(ChatError::InitFailure),
        Option::Some(b) => {
            match crate::validation::decode_proof(b) {
                crate::validation::ProofPayload::ReadOnly => {
                    ledger.agents.push(process.agent_key);
                    Ok(InitCallbackResult::Pass)
                },
                crate::validation::ProofPayload::Code(code) => {
                    if crate::ledger::code_exists(ledger, &code) {
                        Ok(InitCallbackResult::Fail(ChatError::AlreadyUsed))
                    } else {
                        let ghost before = ledger.claimed_codes@;
                        ledger.claimed_codes.push(code);
                        ledger.agents.push(process.agent_key);
                        proof {
                            assert forall|c: Seq<u8>|
                                ledger.code_claimed(c) <==> (old(ledger).code_claimed(c) || c
                                    == code_of(b@)) by {
                                if ledger.code_claimed(c) {
                                    let k = choose|k: int|
                                        0 <= k < ledger.claimed_codes@.len() && (
                                        #[trigger] ledger.claimed_codes@[k])@ == c;
                                    if k < before.len() {
                                        assert(before[k]@ == c);
                                    }
                                }
                                if old(ledger).code_claimed(c) {
                                    let k = choose|k: int|
                                        0 <= k < before.len() && (#[trigger] before[k])@ == c;
                                    assert(ledger.claimed_codes@[k]@ == c);
                                }
                                if c == code_of(b@) {
                                    assert(ledger.claimed_codes@[before.len() as int]@ == c);
                                }
                            }
                        }
                        Ok(InitCallbackResult::Pass)
                    }
                },
                crate::validation::ProofPayload::Malformed => Err(ChatError::InitFailure),
            }
        },
    }
}

/// A proof carrying the read-only marker is accepted by both admission
/// checks, whatever the state of the shared namespace.
pub proof fn lemma_read_only_proof_accepted(p: Process, l: Ledger)
    requires
        p.membrane_proof matches Some(v) && is_read_only_payload(v@),
    ensures
        spec_joining_code(Option::Some(p.membrane_proof->Some_0@)) == ValidateCallbackResult::Valid,
        spec_init_result(p, l) == Result::<InitCallbackResult, ChatError>::Ok(
            InitCallbackResult::Pass,
        ),
{
}

/// A join code is single-use globally: once any agent has claimed it, every
/// later admission that derives the same code fails with `AlreadyUsed`,
/// whoever presents it.
pub proof fn lemma_join_code_single_use(p: Process, l: Ledger, c: Seq<u8>)
    requires
        l.code_claimed(c),
        !p.skip_proof,
        p.membrane_proof matches Some(v) && is_code_payload(v@) && code_of(v@) == c,
    ensures
        spec_init_result(p, l) == Result::<InitCallbackResult, ChatError>::Ok(
            InitCallbackResult::Fail(ChatError::AlreadyUsed),
        ),
{
    let v = p.membrane_proof->Some_0;
    assert(v@.len() >= 2);
    assert(!is_read_only_payload(v@));
}

/// Two agents race to claim one code on a namespace where it is free:
/// whichever the ledger commits first passes, and the other fails with
/// `AlreadyUsed` — exactly one succeeds.
pub proof fn lemma_join_race(p1: Process, p2: Process, l0: Ledger, l1: Ledger, c: Seq<u8>)
    requires
        !p1.skip_proof,
        !p2.skip_proof,
        p1.membrane_proof matches Some(v) && is_code_payload(v@) && code_of(v@) == c,
        p2.membrane_proof matches Some(v) && is_code_payload(v@) && code_of(v@) == c,
        !l0.code_claimed(c),
        forall|c2: Seq<u8>| l1.code_claimed(c2) <==> (l0.code_claimed(c2) || c2 == c),
    ensures
        spec_init_result(p1, l0) == Result::<InitCallbackResult, ChatError>::Ok(
            InitCallbackResult::Pass,
        ),
        spec_init_result(p2, l1) == Result::<InitCallbackResult, ChatError>::Ok(
            InitCallbackResult::Fail(ChatError::AlreadyUsed),
        ),
{
    let v1 = p1.membrane_proof->Some_0;
    assert(!is_read_only_payload(v1@));
    assert(l1.code_claimed(c));
    lemma_join_code_single_use(p2, l1, c);
}

/// Validates one entry, exactly as every other peer does: the decision is a
/// pure function of (operation, entry, committing agent).
pub fn validate(data: &ValidateData) -> (r: ValidateCallbackResult)
    ensures
        r == spec_validate(*data),
{
    crate::validation::common_validation(data)
}

/// Commits a channel to the shared dataset. Rejected with `ReadOnly` for a
/// read-only instance; otherwise the entry passes the common validator and
/// is appended.
pub fn create_channel(process: &Process, ledger: &mut Ledger, channel_input: ChannelInput) -> (r:
    Result<ChannelData, ChatError>)
    requires
        old(ledger).wf(),
    ensures
        final(ledger).wf(),
        process.spec_read_only() ==> r == Result::<ChannelData, ChatError>::Err(ChatError::ReadOnly)
            && *final(ledger) == *old(ledger),
        !process.spec_read_only() ==> {
            &&& final(ledger).claimed_codes == old(ledger).claimed_codes
            &&& final(ledger).messages == old(ledger).messages
            &&& final(ledger).agents == old(ledger).agents
            &&& spec_validate(channel_validate_data(channel_input, process.agent_key))
                != ValidateCallbackResult::Valid ==> (r == Result::<ChannelData, ChatError>::Err(
                ChatError::ValidationFailure,
            ) && final(ledger).channels == old(ledger).channels)
            &&& spec_validate(channel_validate_data(channel_input, process.agent_key))
                == ValidateCallbackResult::Valid ==> (r matches Ok(cd) && cd == (ChannelData {
                id: old(ledger).channels@.len() as usize,
                category: channel_input.category,
                content: channel_input.content,
            }) && final(ledger).channels@ == old(ledger).channels@.push(cd))
        },
{
    if is_read_only_instance(process) {
        return Err(ChatError::ReadOnly);
    }
    crate::ledger::create_channel(ledger, channel_input, process.agent_key)
}

/// Commits a message to the shared dataset. Rejected with `ReadOnly` for a
/// read-only instance; otherwise the parent channel must be stored and the
/// entry passes the common validator.
pub fn create_message(process: &Process, ledger: &mut Ledger, message_input: MessageInput) -> (r:
    Result<MessageData, ChatError>)
    requires
        old(ledger).wf(),
    ensures
        final(ledger).wf(),
        process.spec_read_only() ==> r == Result::<MessageData, ChatError>::Err(ChatError::ReadOnly)
            && *final(ledger) == *old(ledger),
        !process.spec_read_only() ==> {
            &&& final(ledger).claimed_codes == old(ledger).claimed_codes
            &&& final(ledger).channels == old(ledger).channels
            &&& final(ledger).agents == old(ledger).agents
            &&& (message_input.channel >= old(ledger).channels@.len() || spec_validate(
                message_validate_data(message_input, process.agent_key),
            ) != ValidateCallbackResult::Valid) ==> (r == Result::<MessageData, ChatError>::Err(
                ChatError::ValidationFailure,
            ) && final(ledger).messages == old(ledger).messages)
            &&& (message_input.channel < old(ledger).channels@.len() && spec_validate(
                message_validate_data(message_input, process.agent_key),
            ) == ValidateCallbackResult::Valid) ==> (r matches Ok(md) && md == (MessageData {
                id: old(ledger).messages@.len() as usize,
                channel: message_input.channel,
                content: message_input.content,
                author: process.agent_key,
            }) && final(ledger).messages@ == old(ledger).messages@.push(md))
        },
{
    if is_read_only_instance(process) {
        return Err(ChatError::ReadOnly);
    }
    crate::ledger::create_message(ledger, message_input, process.agent_key)
}

/// Records this agent's own sign of life in its local registry. Rejected
/// with `ReadOnly` for a read-only instance.
pub fn refresh_chatter(process: &mut Process, now: u64) -> (r: Result<(), ChatError>)
    requires
        old(process).wf(),
    ensures
        final(process).wf(),
        old(process).spec_read_only() ==> r == Result::<(), ChatError>::Err(ChatError::ReadOnly)
            && *final(process) == *old(process),
        !old(process).spec_read_only() ==> {
            &&& r == Result::<(), ChatError>::Ok(())
            &&& final(process).registry.times() == old(process).registry.times().insert(
                old(process).agent_key,
                now,
            )
            &&& final(process).registry.window == old(process).registry.window
            &&& final(process).agent_key == old(process).agent_key
            &&& final(process).membrane_proof == old(process).membrane_proof
            &&& final(process).skip_proof == old(process).skip_proof
            &&& final(process).cap_grant == old(process).cap_grant
        },
{
    if is_read_only_instance(process) {
        return Err(ChatError::ReadOnly);
    }
    let agent = process.agent_key;
    crate::presence::refresh(&mut process.registry, agent, now);
    Ok(())
}

/// An agent the local registry holds and believes alive at `now`.
pub open spec fn is_active(p: Process, a: u64, now: u64) -> bool {
    p.registry.times().contains_key(a) && spec_active(p.registry.times()[a], now, p.registry.window)
}

/// Lists the agents this process believes active at `now`. Open to
/// read-only instances: reading presence mutates nothing.
pub fn get_active_chatters(process: &Process, now: u64) -> (r: ActiveChatters)
    requires
        process.wf(),
    ensures
        forall|a: u64| r.chatters@.contains(a) <==> is_active(*process, a, now),
        forall|i: int, j: int| 0 <= i < j < r.chatters@.len() ==> r.chatters@[i] != r.chatters@[j],
        r.chatters@.len() == active_count(process.registry.entries@, now, process.registry.window),
{
    crate::presence::active_chatters(&process.registry, now)
}

/// Broadcasts a signal to every agent this process believes active,
/// recording one outcome per recipient. A recipient the transport could not
/// reach within its timeout is marked `Failure`; one failure never aborts
/// the rest of the batch. Rejected with `ReadOnly` for a read-only instance.
pub fn signal_chatters(
    process: &Process,
    message_data: SignalMessageData,
    now: u64,
    transport: &TransportStatus,
) -> (r: Result<SigResults, ChatError>)
    requires
        process.wf(),
    ensures
        process.spec_read_only() ==> r == Result::<SigResults, ChatError>::Err(ChatError::ReadOnly),
        !process.spec_read_only() ==> (r matches Ok(results) && {
            &&& results.sent@.len() == active_count(
                process.registry.entries@,
                now,
                process.registry.window,
            )
            &&& forall|i: int|
                0 <= i < results.sent@.len() ==> is_active(
                    *process,
                    (#[trigger] results.sent@[i]).agent,
                    now,
                )
            &&& forall|a: u64|
                is_active(*process, a, now) ==> exists|i: int|
                    0 <= i < results.sent@.len() && (#[trigger] results.sent@[i]).agent == a
            &&& forall|i: int, j: int|
                0 <= i < j < results.sent@.len() ==> results.sent@[i].agent
                    != results.sent@[j].agent
            &&& forall|i: int|
                0 <= i < results.sent@.len() ==> ((#[trigger] results.sent@[i]).outcome
                    == crate::signal::DeliveryOutcome::Failure <==> transport.unreachable@.contains(
                    results.sent@[i].agent,
                ))
        }),
{
    if is_read_only_instance(process) {
        return Err(ChatError::ReadOnly);
    }
    let active = crate::presence::active_chatters(&process.registry, now);
    let results = crate::signal::deliver_to(&active.chatters, transport);
    proof {
        assert forall|i: int|
            0 <= i < results.sent@.len() implies is_active(
            *process,
            (#[trigger] results.sent@[i]).agent,
            now,
        ) by {
            assert(results.sent@[i].agent == active.chatters@[i]);
            assert(active.chatters@.contains(active.chatters@[i]));
        }
        assert forall|a: u64| is_active(*process, a, now) implies exists|i: int|
            0 <= i < results.sent@.len() && (#[trigger] results.sent@[i]).agent == a by {
            assert(active.chatters@.contains(a));
            let k = choose|k: int| 0 <= k < active.chatters@.len() && active.chatters@[k] == a;
            assert(results.sent@[k].agent == a);
        }
    }
    Ok(results)
}

/// Best-effort delivery of a signal to an explicit recipient set, with the
/// same per-recipient isolation as the broadcast. Rejected with `ReadOnly`
/// for a read-only instance.
pub fn signal_specific_chatters(
    process: &Process,
    input: SignalSpecificInput,
    transport: &TransportStatus,
) -> (r: Result<(), ChatError>)
    ensures
        process.spec_read_only() ==> r == Result::<(), ChatError>::Err(ChatError::ReadOnly),
        !process.spec_read_only() ==> r == Result::<(), ChatError>::Ok(()),
{
    if is_read_only_instance(process) {
        return Err(ChatError::ReadOnly);
    }
    let _results = crate::signal::deliver_to(&input.chatters, transport);
    Ok(())
}

/// Lists the channels of one category.
pub fn list_channels(ledger: &Ledger, list_channels_input: ChannelListInput) -> (r: ChannelList)
    ensures
        r.channels@ == channels_in(ledger.channels@, list_channels_input.category@),
{
    crate::ledger::list_channels(ledger, list_channels_input)
}

/// Lists one chunk of a channel's messages; boundaries depend only on the
/// stored order and the chunk descriptor.
pub fn list_messages(ledger: &Ledger, list_messages_input: ListMessagesInput) -> (r: ListMessages)
    ensures
        r.messages@ == page(
            msgs_in(ledger.messages@, list_messages_input.channel),
            list_messages_input.chunk.start as int,
            list_messages_input.chunk.size as int,
        ),
{
    crate::ledger::list_messages(ledger, list_messages_input)
}

/// A channel of one category together with one chunk of its messages.
pub struct ChannelMessages {
    pub channel: ChannelData,
    pub messages: Vec<MessageData>,
}

/// Every channel of a category, each with one chunk of its messages.
pub struct AllMessagesList(pub Vec<ChannelMessages>);

/// What a caller supplies to page through a whole category.
pub struct ListAllMessagesInput {
    pub category: String,
    pub chunk: Chunk,
}

/// Pages through every channel of a category at once: for each channel, the
/// same chunk descriptor is applied to its messages.
pub fn list_all_messages(ledger: &Ledger, input: ListAllMessagesInput) -> (r: AllMessagesList)
    ensures
        r.0@.len() == channels_in(ledger.channels@, input.category@).len(),
        forall|i: int|
            0 <= i < r.0@.len() ==> (#[trigger] r.0@[i]).channel == channels_in(
                ledger.channels@,
                input.category@,
            )[i],
        forall|i: int|
            0 <= i < r.0@.len() ==> (#[trigger] r.0@[i]).messages@ == page(
                msgs_in(ledger.messages@, channels_in(ledger.channels@, input.category@)[i].id),
                input.chunk.start as int,
                input.chunk.size as int,
            ),
{
    let listed = crate::ledger::list_channels(
        ledger,
        ChannelListInput { category: input.category },
    );
    let mut out: Vec<ChannelMessages> = Vec::new();
    let mut i: usize = 0;
    while i < listed.channels.len()
        invariant
            0 <= i <= listed.channels@.len(),
            out@.len() == i,
            forall|j: int|
                0 <= j < i ==> (#[trigger] out@[j]).channel == listed.channels@[j],
            forall|j: int|
                0 <= j < i ==> (#[trigger] out@[j]).messages@ == page(
                    msgs_in(ledger.messages@, listed.channels@[j].id),
                    input.chunk.start as int,
                    input.chunk.size as int,
                ),
        decreases listed.channels@.len() - i,
    {
        let channel = listed.channels[i].duplicate();
        let messages = crate::ledger::list_messages(
            ledger,
            ListMessagesInput { channel: channel.id, chunk: input.chunk, active_chatter: false },
        );
        out.push(ChannelMessages { channel, messages: messages.messages });
        i = i + 1;
    }
    AllMessagesList(out)
}

/// Diagnostic counts over one category and the presence registry.
#[derive(Debug, PartialEq, Eq, Structural)]
pub struct Stats {
    pub agents: usize,
    pub active: usize,
    pub channels: usize,
    pub messages: usize,
}

/// Membership and presence counts.
#[derive(Debug, PartialEq, Eq, Structural)]
pub struct AgentStats {
    pub agents: usize,
    pub active: usize,
}

/// Counts every admitted agent (from the membership roll — proportional to
/// membership size, a diagnostic) and the agents this process believes
/// active at `now`.
pub fn agent_stats(process: &Process, ledger: &Ledger, now: u64) -> (r: AgentStats)
    requires
        process.wf(),
    ensures
        r.agents == ledger.agents@.len(),
        r.active == active_count(process.registry.entries@, now, process.registry.window),
{
    let active = crate::presence::active_chatters(&process.registry, now);
    AgentStats { agents: ledger.agents.len(), active: active.chatters.len() }
}

/// Full diagnostic counts: membership, presence, and one category's
/// channels and messages.
pub fn stats(
    process: &Process,
    ledger: &Ledger,
    list_channels_input: ChannelListInput,
    now: u64,
) -> (r: Stats)
    requires
        process.wf(),
    ensures
        r.agents == ledger.agents@.len(),
        r.active == active_count(process.registry.entries@, now, process.registry.window),
        r.channels == channels_in(ledger.channels@, list_channels_input.category@).len(),
        r.messages == msgs_in_category(
            ledger.messages@,
            ledger.channels@,
            list_channels_input.category@,
        ),
{
    let agent_counts = agent_stats(process, ledger, now);
    let (channels, messages) = crate::ledger::channel_stats(ledger, list_channels_input);
    Stats { agents: agent_counts.agents, active: agent_counts.active, channels, messages }
}

} // verus!
