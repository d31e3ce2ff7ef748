//! Ephemeral signals: fan-out with partial-failure accounting, the inbound
//! remote-signal entry point, and the capability grant that lets any peer
//! invoke it.
//!
//! Signals are never persisted and have no retry guarantee. Delivery is the
//! transport's work; what it reported back (each attempt bounded by a
//! timeout) is injected as a `TransportStatus`, so aggregation is a verified
//! function of plain data and one recipient's failure can never abort the
//! rest of a batch.

use vstd::prelude::*;
use crate::error::ChatError;
use crate::ledger::{ChannelData, MessageData};

verus! {

/// A new-message notification: the message and its parent channel.
pub struct SignalMessageData {
    pub message_data: MessageData,
    pub channel: usize,
}

impl SignalMessageData {
    /// An owned copy, equal to `self`.
    pub fn duplicate(&self) -> (r: Self)
        ensures
            r == *self,
    {
        SignalMessageData { message_data: self.message_data.duplicate(), channel: self.channel }
    }
}

/// The signal union, tagged by kind.
pub enum SignalPayload {
    Message(SignalMessageData),
    Channel(ChannelData),
}

/// An inbound remote payload after structural deframing by the transport
/// boundary: a known signal kind, or bytes that decode to nothing.
pub enum RemoteSignal {
    Message(SignalMessageData),
    Channel(ChannelData),
    Malformed,
}

/// Entry point a remote peer invokes through the standing capability grant.
/// The payload is trusted no further than structural decoding: a malformed
/// payload is a `DecodeFailure`, never a crash; a well-formed one is
/// re-emitted unchanged as a local notification for this process's
/// consumers.
pub fn recv_remote_signal(signal: RemoteSignal) -> (r: Result<SignalPayload, ChatError>)
    ensures
        signal is Malformed <==> r == Result::<SignalPayload, ChatError>::Err(
            ChatError::DecodeFailure,
        ),
        signal matches RemoteSignal::Message(m) ==> r matches Ok(p) && p == SignalPayload::Message(
            m,
        ),
        signal matches RemoteSignal::Channel(c) ==> r matches Ok(p) && p == SignalPayload::Channel(
            c,
        ),
{
    match signal {
        RemoteSignal::Message(m) => Ok(SignalPayload::Message(m)),
        RemoteSignal::Channel(c) => Ok(SignalPayload::Channel(c)),
        RemoteSignal::Malformed => Err(ChatError::DecodeFailure),
    }
}

/// Whether one delivery attempt got through.
#[derive(Clone, Copy, Debug, PartialEq, Eq, Structural)]
pub enum DeliveryOutcome {
    Success,
    /// The peer was unreachable within the attempt's timeout.
    Failure,
}

/// The recorded outcome of one recipient's delivery attempt.
#[derive(Clone, Copy, Debug, PartialEq, Eq, Structural)]
pub struct SigResult {
    pub agent: u64,
    pub outcome: DeliveryOutcome,
}

/// Per-recipient outcomes of one fan-out batch.
pub struct SigResults {
    pub sent: Vec<SigResult>,
}

/// What the transport reported about this batch: the peers whose delivery
/// attempts timed out.
pub struct TransportStatus {
    pub unreachable: Vec<u64>,
}

/// What a caller supplies to signal an explicit set of recipients.
pub struct SignalSpecificInput {
    pub signal_message_data: SignalMessageData,
    pub chatters: Vec<u64>,
}

/// Whether the roster lists this agent.
fn contains_agent(v: &Vec<u64>, a: u64) -> (r: bool)
    ensures
        r == v@.contains(a),
{
    let mut i: usize = 0;
    while i < v.len()
        invariant
            0 <= i <= v@.len(),
            forall|j: int| 0 <= j < i ==> v@[j] != a,
        decreases v@.len() - i,
    {
        if v[i] == a {
            proof {
                assert(v@[i as int] == a);
            }
            return true;
        }
        i = i + 1;
    }
    proof {
        assert(!v@.contains(a));
    }
    false
}

/// Records one delivery attempt per recipient, in order. Attempts are
/// independent: an unreachable peer is marked `Failure` and the batch goes
/// on, so the result set always holds exactly one outcome per recipient.
pub fn deliver_to(recipients: &Vec<u64>, transport: &TransportStatus) -> (r: SigResults)
    ensures
        r.sent@.len() == recipients@.len(),
        forall|i: int|
            0 <= i < r.sent@.len() ==> (#[trigger] r.sent@[i]).agent == recipients@[i],
        forall|i: int|
            0 <= i < r.sent@.len() ==> ((#[trigger] r.sent@[i]).outcome == DeliveryOutcome::Failure
                <==> transport.unreachable@.contains(recipients@[i])),
{
    let mut sent: Vec<SigResult> = Vec::new();
    let mut i: usize = 0;
    while i < recipients.len()
        invariant
            0 <= i <= recipients@.len(),
            sent@.len() == i,
            forall|j: int| 0 <= j < i ==> (#[trigger] sent@[j]).agent == recipients@[j],
            forall|j: int|
                0 <= j < i ==> ((#[trigger] sent@[j]).outcome == DeliveryOutcome::Failure
                    <==> transport.unreachable@.contains(recipients@[j])),
        decreases recipients@.len() - i,
    {
        let agent = recipients[i];
        let outcome = if contains_agent(&transport.unreachable, agent) {
            DeliveryOutcome::Failure
        } else {
            DeliveryOutcome::Success
        };
        sent.push(SigResult { agent, outcome });
        i = i + 1;
    }
    SigResults { sent }
}

/// How many attempts of a batch got through.
pub open spec fn success_count(s: Seq<SigResult>) -> nat
    decreases s.len(),
{
    if s.len() == 0 {
        0
    } else {
        success_count(s.drop_last()) + (if s.last().outcome == DeliveryOutcome::Success {
            1nat
        } else {
            0nat
        })
    }
}

/// How many attempts of a batch timed out.
pub open spec fn failure_count(s: Seq<SigResult>) -> nat
    decreases s.len(),
{
    if s.len() == 0 {
        0
    } else {
        failure_count(s.drop_last()) + (if s.last().outcome == DeliveryOutcome::Failure {
            1nat
        } else {
            0nat
        })
    }
}

/// Partial-failure isolation: every recipient of a batch is accounted for,
/// as a success or as a failure — failures never shrink the batch.
pub proof fn lemma_results_partition(s: Seq<SigResult>)
    ensures
        success_count(s) + failure_count(s) == s.len(),
    decreases s.len(),
{
    if s.len() > 0 {
        lemma_results_partition(s.drop_last());
    }
}

/// An operation a capability could cover. Only `RecvRemoteSignal` may ever
/// be granted to remote callers.
#[derive(Clone, Copy, Debug, PartialEq, Eq, Structural)]
pub enum GrantedFunction {
    /// Inbound point-to-point signal delivery.
    RecvRemoteSignal,
    CreateChannel,
    CreateMessage,
    RefreshChatter,
}

/// A standing authorization: which operations an unauthenticated remote
/// caller may invoke on this agent.
pub struct CapGrant {
    /// Any remote identity may call — point-to-point signaling must work
    /// between agents with no prior relationship.
    pub unrestricted: bool,
    pub functions: Vec<GrantedFunction>,
}

impl CapGrant {
    /// The grant covers this operation for a remote caller.
    pub open spec fn allows(self, f: GrantedFunction) -> bool {
        self.unrestricted && self.functions@.contains(f)
    }
}

/// The bootstrap grant: unrestricted callers, scoped to exactly the
/// remote-signal entry point.
pub fn grant_remote_signal_access() -> (g: CapGrant)
    ensures
        g.unrestricted,
        g.functions@ =~= seq![GrantedFunction::RecvRemoteSignal],
{
    let mut functions: Vec<GrantedFunction> = Vec::new();
    functions.push(GrantedFunction::RecvRemoteSignal);
    CapGrant { unrestricted: true, functions }
}

/// The bootstrap grant's scope never widens: it admits the remote-signal
/// entry point and nothing else.
pub proof fn lemma_grant_scope(g: CapGrant, f: GrantedFunction)
    requires
        g.unrestricted,
        g.functions@ == seq![GrantedFunction::RecvRemoteSignal],
    ensures
        g.allows(f) <==> f == GrantedFunction::RecvRemoteSignal,
{
    if f == GrantedFunction::RecvRemoteSignal {
        assert(g.functions@[0] == GrantedFunction::RecvRemoteSignal);
        assert(g.functions@.contains(f));
    } else {
        if g.functions@.contains(f) {
            let k = choose|k: int| 0 <= k < g.functions@.len() && g.functions@[k] == f;
            assert(k == 0);
        }
    }
}

/// Checks a caller's capability before dispatch.
pub fn is_allowed(g: &CapGrant, f: GrantedFunction) -> (r: bool)
    ensures
        r == g.allows(f),
{
    if !g.unrestricted {
        return false;
    }
    let mut i: usize = 0;
    while i < g.functions.len()
        invariant
            g.unrestricted,
            0 <= i <= g.functions@.len(),
            forall|j: int| 0 <= j < i ==> g.functions@[j] != f,
        decreases g.functions@.len() - i,
    {
        if g.functions[i] == f {
            proof {
                assert(g.functions@[i as int] == f);
            }
            return true;
        }
        i = i + 1;
    }
    proof {
        assert(!g.functions@.contains(f));
    }
    false
}

} // verus!
