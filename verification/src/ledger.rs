//! Explicit model of the shared, content-addressed dataset.
//!
//! The ledger engine (storage, chaining, gossip) is an external collaborator;
//! what the chat logic needs of it is the state it converges on: claimed
//! join-code markers, channels, messages and the membership roll. Entries are
//! immutable and append-only; a handle (`id`) stands for the engine's
//! content-addressed reference.

use vstd::prelude::*;
use crate::error::ChatError;
use crate::validation::{
    common_validation, spec_validate, AppEntry, EntryOp, ValidateCallbackResult, ValidateData,
};

verus! {

/// A channel as stored: a category plus arbitrary content, under its handle.
pub struct ChannelData {
    pub id: usize,
    pub category: String,
    pub content: String,
}

impl ChannelData {
    /// An owned copy, equal to `self`.
    pub fn duplicate(&self) -> (r: Self)
        ensures
            r == *self,
    {
        ChannelData { id: self.id, category: self.category.clone(), content: self.content.clone() }
    }
}

/// What a caller supplies to create a channel.
pub struct ChannelInput {
    pub category: String,
    pub content: String,
}

/// Category filter for channel listing and stats.
pub struct ChannelListInput {
    pub category: String,
}

/// Channels of one category, in creation order.
pub struct ChannelList {
    pub channels: Vec<ChannelData>,
}

/// A pagination descriptor: skip `start` messages, return at most `size`.
/// Chunk boundaries are deterministic in the stored order, independent of
/// which peer asks.
#[derive(Clone, Copy, Debug, PartialEq, Eq, Structural)]
pub struct Chunk {
    pub start: usize,
    pub size: usize,
}

/// What a caller supplies to create a message.
pub struct MessageInput {
    pub channel: usize,
    pub content: String,
}

/// A message as stored: its parent channel, content and author, under its
/// handle.
pub struct MessageData {
    pub id: usize,
    pub channel: usize,
    pub content: String,
    pub author: u64,
}

impl MessageData {
    /// An owned copy, equal to `self`.
    pub fn duplicate(&self) -> (r: Self)
        ensures
            r == *self,
    {
        MessageData {
            id: self.id,
            channel: self.channel,
            content: self.content.clone(),
            author: self.author,
        }
    }
}

/// What a caller supplies to list messages of one channel.
pub struct ListMessagesInput {
    pub channel: usize,
    pub chunk: Chunk,
    /// Whether the caller wants this query to count as a sign of life in its
    /// own presence registry; listing itself ignores it (policy is the
    /// caller's).
    pub active_chatter: bool,
}

/// One chunk of a channel's messages, in creation order.
pub struct ListMessages {
    pub messages: Vec<MessageData>,
}

/// The shared dataset, as one agent's converged view of it.
pub struct Ledger {
    /// Join-code markers already claimed in the shared namespace.
    pub claimed_codes: Vec<Vec<u8>>,
    /// All channels, in creation order; a channel's handle is its index.
    pub channels: Vec<ChannelData>,
    /// All messages, in creation order; a message's handle is its index.
    pub messages: Vec<MessageData>,
    /// The membership roll: every agent that completed admission.
    pub agents: Vec<u64>,
}

impl Ledger {
    /// Handles are indices and every message points at a stored channel.
    pub open spec fn wf(self) -> bool {
        &&& forall|i: int| 0 <= i < self.channels@.len() ==> (#[trigger] self.channels@[i]).id == i
        &&& forall|i: int| 0 <= i < self.messages@.len() ==> (#[trigger] self.messages@[i]).id == i
        &&& forall|i: int|
            0 <= i < self.messages@.len() ==> (#[trigger] self.messages@[i]).channel
                < self.channels@.len()
    }

    /// A join code is already claimed in the shared namespace.
    pub open spec fn code_claimed(self, c: Seq<u8>) -> bool {
        exists|i: int| 0 <= i < self.claimed_codes@.len() && (#[trigger] self.claimed_codes@[i])@ == c
    }

    /// An empty dataset, as a fresh network starts from.
    pub fn new() -> (r: Ledger)
        ensures
            r.wf(),
            r.claimed_codes@.len() == 0,
            r.channels@.len() == 0,
            r.messages@.len() == 0,
            r.agents@.len() == 0,
    {
        Ledger { claimed_codes: Vec::new(), channels: Vec::new(), messages: Vec::new(), agents: Vec::new() }
    }
}

/// Byte-for-byte equality of two byte strings.
fn bytes_eq(a: &Vec<u8>, b: &Vec<u8>) -> (r: bool)
    ensures
        r == (a@ == b@),
{
    if a.len() != b.len() {
        proof {
            assert(a@ != b@);
        }
        return false;
    }
    let mut i: usize = 0;
    while i < a.len()
        invariant
            a@.len() == b@.len(),
            0 <= i <= a@.len(),
            forall|j: int| 0 <= j < i ==> a@[j] == b@[j],
        decreases a@.len() - i,
    {
        if a[i] != b[i] {
            return false;
        }
        i = i + 1;
    }
    proof {
        assert(a@ =~= b@);
    }
    true
}

/// Whether a join code is already claimed.
pub fn code_exists(ledger: &Ledger, code: &Vec<u8>) -> (r: bool)
    ensures
        r == ledger.code_claimed(code@),
{
    let mut i: usize = 0;
    while i < ledger.claimed_codes.len()
        invariant
            0 <= i <= ledger.claimed_codes@.len(),
            forall|j: int| 0 <= j < i ==> (#[trigger] ledger.claimed_codes@[j])@ != code@,
        decreases ledger.claimed_codes@.len() - i,
    {
        if bytes_eq(&ledger.claimed_codes[i], code) {
            return true;
        }
        i = i + 1;
    }
    false
}

/// The validator input a channel-creation commit produces.
pub open spec fn channel_validate_data(input: ChannelInput, author: u64) -> ValidateData {
    ValidateData {
        op: EntryOp::Create,
        entry: AppEntry::ChannelEntry { category: input.category, content: input.content },
        author,
    }
}

/// The validator input a message-creation commit produces.
pub open spec fn message_validate_data(input: MessageInput, author: u64) -> ValidateData {
    ValidateData {
        op: EntryOp::Create,
        entry: AppEntry::MessageEntry {
            channel: input.channel,
            content: input.content,
            author,
        },
        author,
    }
}

/// Commits a channel. The entry passes the same validator every peer runs;
/// a rejected entry changes nothing.
pub fn create_channel(ledger: &mut Ledger, input: ChannelInput, author: u64) -> (r: Result<
    ChannelData,
    ChatError,
>)
    requires
        old(ledger).wf(),
    ensures
        final(ledger).wf(),
        final(ledger).claimed_codes == old(ledger).claimed_codes,
        final(ledger).messages == old(ledger).messages,
        final(ledger).agents == old(ledger).agents,
        spec_validate(channel_validate_data(input, author)) != ValidateCallbackResult::Valid ==> (
        r == Result::<ChannelData, ChatError>::Err(ChatError::ValidationFailure)
            && final(ledger).channels == old(ledger).channels),
        spec_validate(channel_validate_data(input, author)) == ValidateCallbackResult::Valid ==> (
        r matches Ok(cd) && cd == (ChannelData {
            id: old(ledger).channels@.len() as usize,
            category: input.category,
            content: input.content,
        }) && final(ledger).channels@ == old(ledger).channels@.push(cd)),
{
    let data = ValidateData {
        op: EntryOp::Create,
        entry: AppEntry::ChannelEntry {
            category: input.category.clone(),
            content: input.content.clone(),
        },
        author,
    };
    proof {
        assert(data == channel_validate_data(input, author));
    }
    match common_validation(&data) {
        ValidateCallbackResult::Valid => {
            let cd = ChannelData {
                id: ledger.channels.len(),
                category: input.category,
                content: input.content,
            };
            let out = cd.duplicate();
            ledger.channels.push(cd);
            Ok(out)
        },
        ValidateCallbackResult::Invalid(_) => Err(ChatError::ValidationFailure),
    }
}

/// Commits a message. The parent channel must be stored; the entry passes
/// the same validator every peer runs; a rejected entry changes nothing.
pub fn create_message(ledger: &mut Ledger, input: MessageInput, author: u64) -> (r: Result<
    MessageData,
    ChatError,
>)
    requires
        old(ledger).wf(),
    ensures
        final(ledger).wf(),
        final(ledger).claimed_codes == old(ledger).claimed_codes,
        final(ledger).channels == old(ledger).channels,
        final(ledger).agents == old(ledger).agents,
        (input.channel >= old(ledger).channels@.len() || spec_validate(
            message_validate_data(input, author),
        ) != ValidateCallbackResult::Valid) ==> (r == Result::<MessageData, ChatError>::Err(
            ChatError::ValidationFailure,
        ) && final(ledger).messages == old(ledger).messages),
        (input.channel < old(ledger).channels@.len() && spec_validate(
            message_validate_data(input, author),
        ) == ValidateCallbackResult::Valid) ==> (r matches Ok(md) && md == (MessageData {
            id: old(ledger).messages@.len() as usize,
            channel: input.channel,
            content: input.content,
            author,
        }) && final(ledger).messages@ == old(ledger).messages@.push(md)),
{
    if input.channel >= ledger.channels.len() {
        return Err(ChatError::ValidationFailure);
    }
    let data = ValidateData {
        op: EntryOp::Create,
        entry: AppEntry::MessageEntry {
            channel: input.channel,
            content: input.content.clone(),
            author,
        },
        author,
    };
    proof {
        assert(data == message_validate_data(input, author));
    }
    match common_validation(&data) {
        ValidateCallbackResult::Valid => {
            let md = MessageData {
                id: ledger.messages.len(),
                channel: input.channel,
                content: input.content,
                author,
            };
            let out = md.duplicate();
            ledger.messages.push(md);
            Ok(out)
        },
        ValidateCallbackResult::Invalid(_) => Err(ChatError::ValidationFailure),
    }
}

/// The channels of one category, in stored order.
pub open spec fn channels_in(s: Seq<ChannelData>, cat: Seq<char>) -> Seq<ChannelData>
    decreases s.len(),
{
    if s.len() == 0 {
        Seq::empty()
    } else if s.last().category@ == cat {
        channels_in(s.drop_last(), cat).push(s.last())
    } else {
        channels_in(s.drop_last(), cat)
    }
}

/// The messages of one channel, in stored order.
pub open spec fn msgs_in(s: Seq<MessageData>, ch: usize) -> Seq<MessageData>
    decreases s.len(),
{
    if s.len() == 0 {
        Seq::empty()
    } else if s.last().channel == ch {
        msgs_in(s.drop_last(), ch).push(s.last())
    } else {
        msgs_in(s.drop_last(), ch)
    }
}

/// One page of a sequence: skip `start`, take at most `size`. Out-of-range
/// pages are empty, never an error.
pub open spec fn page(s: Seq<MessageData>, start: int, size: int) -> Seq<MessageData>
    recommends
        0 <= start,
        0 <= size,
{
    let lo = if start <= s.len() {
        start
    } else {
        s.len() as int
    };
    let hi = if start + size <= s.len() {
        start + size
    } else {
        s.len() as int
    };
    if lo <= hi {
        s.subrange(lo, hi)
    } else {
        Seq::empty()
    }
}

/// Consecutive chunks neither overlap nor leave a gap: paging `n1` then
/// `n2` messages from `start` yields exactly the one page of `n1 + n2`
/// messages from `start`, so a walk with any chunk size concatenates to the
/// full ordered set, each message exactly once.
pub proof fn lemma_page_split(s: Seq<MessageData>, start: int, n1: int, n2: int)
    requires
        0 <= start,
        0 <= n1,
        0 <= n2,
    ensures
        page(s, start, n1 + n2) == page(s, start, n1) + page(s, start + n1, n2),
{
    assert(page(s, start, n1 + n2) =~= page(s, start, n1) + page(s, start + n1, n2));
}

/// The page that starts at the beginning and spans the whole sequence is
/// the sequence itself.
pub proof fn lemma_page_full(s: Seq<MessageData>)
    ensures
        page(s, 0, s.len() as int) == s,
{
    assert(page(s, 0, s.len() as int) =~= s);
}

/// A page that starts at or past the end is empty: a walk terminates.
pub proof fn lemma_page_past_end(s: Seq<MessageData>, start: int, size: int)
    requires
        start >= s.len(),
        0 <= size,
    ensures
        page(s, start, size) == Seq::<MessageData>::empty(),
{
    assert(page(s, start, size) =~= Seq::<MessageData>::empty());
}

/// Lists the channels of a category.
pub fn list_channels(ledger: &Ledger, input: ChannelListInput) -> (r: ChannelList)
    ensures
        r.channels@ == channels_in(ledger.channels@, input.category@),
{
    let mut acc: Vec<ChannelData> = Vec::new();
    let mut i: usize = 0;
    while i < ledger.channels.len()
        invariant
            0 <= i <= ledger.channels@.len(),
            acc@ == channels_in(ledger.channels@.take(i as int), input.category@),
        decreases ledger.channels@.len() - i,
    {
        proof {
            assert(ledger.channels@.take(i + 1 as int).drop_last() =~= ledger.channels@.take(
                i as int,
            ));
            assert(ledger.channels@.take(i + 1 as int).last() == ledger.channels@[i as int]);
        }
        if ledger.channels[i].category == input.category {
            let cd = ledger.channels[i].duplicate();
            acc.push(cd);
        }
        i = i + 1;
    }
    proof {
        assert(ledger.channels@.take(ledger.channels@.len() as int) =~= ledger.channels@);
    }
    ChannelList { channels: acc }
}

/// Collects every message of one channel, in stored order.
fn collect_channel_messages(ledger: &Ledger, ch: usize) -> (r: Vec<MessageData>)
    ensures
        r@ == msgs_in(ledger.messages@, ch),
{
    let mut acc: Vec<MessageData> = Vec::new();
    let mut i: usize = 0;
    while i < ledger.messages.len()
        invariant
            0 <= i <= ledger.messages@.len(),
            acc@ == msgs_in(ledger.messages@.take(i as int), ch),
        decreases ledger.messages@.len() - i,
    {
        proof {
            assert(ledger.messages@.take(i + 1 as int).drop_last() =~= ledger.messages@.take(
                i as int,
            ));
            assert(ledger.messages@.take(i + 1 as int).last() == ledger.messages@[i as int]);
        }
        if ledger.messages[i].channel == ch {
            let md = ledger.messages[i].duplicate();
            acc.push(md);
        }
        i = i + 1;
    }
    proof {
        assert(ledger.messages@.take(ledger.messages@.len() as int) =~= ledger.messages@);
    }
    acc
}

/// Lists one chunk of a channel's messages. Chunk boundaries depend only on
/// the stored order and the chunk descriptor, so every peer that has
/// converged on the same dataset pages it identically.
pub fn list_messages(ledger: &Ledger, input: ListMessagesInput) -> (r: ListMessages)
    ensures
        r.messages@ == page(
            msgs_in(ledger.messages@, input.channel),
            input.chunk.start as int,
            input.chunk.size as int,
        ),
{
    let all = collect_channel_messages(ledger, input.channel);
    let n = all.len();
    let lo = if input.chunk.start <= n {
        input.chunk.start
    } else {
        n
    };
    let room = n - lo;
    let take = if input.chunk.size <= room {
        input.chunk.size
    } else {
        room
    };
    let mut out: Vec<MessageData> = Vec::new();
    let mut i: usize = 0;
    while i < take
        invariant
            all@.len() <= usize::MAX,
            lo + take <= all@.len(),
            0 <= i <= take,
            out@ == all@.subrange(lo as int, lo + i as int),
        decreases take - i,
    {
        let md = all[lo + i].duplicate();
        out.push(md);
        i = i + 1;
        proof {
            assert(out@ =~= all@.subrange(lo as int, lo + i as int));
        }
    }
    proof {
        assert(out@ =~= page(
            msgs_in(ledger.messages@, input.channel),
            input.chunk.start as int,
            input.chunk.size as int,
        ));
    }
    ListMessages { messages: out }
}

/// How many stored messages sit in channels of one category.
pub open spec fn msgs_in_category(
    msgs: Seq<MessageData>,
    chans: Seq<ChannelData>,
    cat: Seq<char>,
) -> nat
    decreases msgs.len(),
{
    if msgs.len() == 0 {
        0
    } else {
        msgs_in_category(msgs.drop_last(), chans, cat) + (if msgs.last().channel < chans.len()
            && chans[msgs.last().channel as int].category@ == cat {
            1nat
        } else {
            0nat
        })
    }
}

/// Counts the channels of a category and the messages inside them.
pub fn channel_stats(ledger: &Ledger, input: ChannelListInput) -> (r: (usize, usize))
    ensures
        r.0 == channels_in(ledger.channels@, input.category@).len(),
        r.1 == msgs_in_category(ledger.messages@, ledger.channels@, input.category@),
{
    let listed = list_channels(ledger, ChannelListInput { category: input.category.clone() });
    let channels = listed.channels.len();
    let mut count: usize = 0;
    let mut i: usize = 0;
    while i < ledger.messages.len()
        invariant
            0 <= i <= ledger.messages@.len(),
            count <= i,
            count == msgs_in_category(
                ledger.messages@.take(i as int),
                ledger.channels@,
                input.category@,
            ),
        decreases ledger.messages@.len() - i,
    {
        proof {
            assert(ledger.messages@.take(i + 1 as int).drop_last() =~= ledger.messages@.take(
                i as int,
            ));
            assert(ledger.messages@.take(i + 1 as int).last() == ledger.messages@[i as int]);
        }
        let ch = ledger.messages[i].channel;
        if ch < ledger.channels.len() {
            if ledger.channels[ch].category == input.category {
                count = count + 1;
            }
        }
        i = i + 1;
    }
    proof {
        assert(ledger.messages@.take(ledger.messages@.len() as int) =~= ledger.messages@);
    }
    (channels, count)
}

} // verus!
