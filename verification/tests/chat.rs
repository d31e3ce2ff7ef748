use chat::error::ChatError;
use chat::ledger::{
    ChannelInput, ChannelListInput, Chunk, Ledger, ListMessagesInput, MessageInput,
};
use chat::signal::{
    is_allowed, recv_remote_signal, DeliveryOutcome, GrantedFunction, RemoteSignal,
    SignalMessageData, SignalPayload, SignalSpecificInput, TransportStatus,
};
use chat::validation::{
    AppEntry, EntryOp, GenesisSelfCheckData, RejectReason, ValidateCallbackResult, ValidateData,
};
use chat::{
    agent_stats, create_channel, create_message, genesis_self_check, get_active_chatters, init,
    is_read_only_instance, list_all_messages, list_channels, list_messages, refresh_chatter,
    signal_chatters, signal_specific_chatters, stats, validate, InitCallbackResult,
    ListAllMessagesInput, Process, Stats,
};

const WINDOW: u64 = 1000;

fn read_only_proof() -> Vec<u8> {
    vec![1u8]
}

fn code_proof(code: &[u8]) -> Vec<u8> {
    let mut v = vec![0u8];
    v.extend_from_slice(code);
    v
}

fn member(agent_key: u64, code: &[u8], ledger: &mut Ledger) -> Process {
    let mut p = Process::new(agent_key, Some(code_proof(code)), false, WINDOW);
    let r = init(&mut p, ledger);
    assert!(matches!(r, Ok(InitCallbackResult::Pass)));
    p
}

fn reader(agent_key: u64, ledger: &mut Ledger) -> Process {
    let mut p = Process::new(agent_key, Some(read_only_proof()), false, WINDOW);
    let r = init(&mut p, ledger);
    assert!(matches!(r, Ok(InitCallbackResult::Pass)));
    p
}

fn no_failures() -> TransportStatus {
    TransportStatus { unreachable: Vec::new() }
}

// Read-only proofs are accepted by both admission checks, whatever the
// state of the shared namespace.
#[test]
fn read_only_proof_accepted_at_genesis() {
    let data = GenesisSelfCheckData { agent_key: 7, membrane_proof: Some(read_only_proof()) };
    assert_eq!(genesis_self_check(&data), ValidateCallbackResult::Valid);
}

#[test]
fn read_only_proof_accepted_at_init_regardless_of_claims() {
    let mut ledger = Ledger::new();
    // Someone has already claimed a code; a read-only agent is untouched by it.
    let _a = member(1, b"crowded", &mut ledger);
    let mut p = Process::new(2, Some(read_only_proof()), false, WINDOW);
    let r = init(&mut p, &mut ledger);
    assert!(matches!(r, Ok(InitCallbackResult::Pass)));
    assert!(is_read_only_instance(&p));
}

#[test]
fn missing_proof_rejected() {
    let data = GenesisSelfCheckData { agent_key: 7, membrane_proof: None };
    assert_eq!(
        genesis_self_check(&data),
        ValidateCallbackResult::Invalid(RejectReason::MissingProof)
    );
    let mut ledger = Ledger::new();
    let mut p = Process::new(7, None, false, WINDOW);
    assert_eq!(init(&mut p, &mut ledger), Err(ChatError::InitFailure));
}

#[test]
fn malformed_proof_rejected_not_crashing() {
    // Empty bytes, a lone code tag, and an unknown tag all decode to nothing.
    for bytes in [vec![], vec![0u8], vec![9u8, 9u8]] {
        let data = GenesisSelfCheckData { agent_key: 7, membrane_proof: Some(bytes.clone()) };
        assert_eq!(
            genesis_self_check(&data),
            ValidateCallbackResult::Invalid(RejectReason::MalformedProof)
        );
        let mut ledger = Ledger::new();
        let mut p = Process::new(7, Some(bytes), false, WINDOW);
        assert_eq!(init(&mut p, &mut ledger), Err(ChatError::InitFailure));
    }
}

#[test]
fn skip_flag_bypasses_gate() {
    let mut ledger = Ledger::new();
    let mut p = Process::new(7, None, true, WINDOW);
    assert!(matches!(init(&mut p, &mut ledger), Ok(InitCallbackResult::Pass)));
}

// A join code is single-use globally: the second claim of the same code
// fails with AlreadyUsed, whoever presents it.
#[test]
fn join_code_single_use() {
    let mut ledger = Ledger::new();
    let _a = member(1, b"only-once", &mut ledger);
    let mut b = Process::new(2, Some(code_proof(b"only-once")), false, WINDOW);
    assert_eq!(
        init(&mut b, &mut ledger),
        Ok(InitCallbackResult::Fail(ChatError::AlreadyUsed))
    );
    // A different code is still free.
    let _c = member(3, b"another", &mut ledger);
}

// Two agents race for one code: exactly one succeeds.
#[test]
fn join_race_one_winner() {
    let mut ledger = Ledger::new();
    let mut a = Process::new(1, Some(code_proof(b"raced")), false, WINDOW);
    let mut b = Process::new(2, Some(code_proof(b"raced")), false, WINDOW);
    // The ledger's commit primitive serializes the two claims; the model
    // plays them in the order the ledger chose.
    let ra = init(&mut a, &mut ledger);
    let rb = init(&mut b, &mut ledger);
    assert!(matches!(ra, Ok(InitCallbackResult::Pass)));
    assert_eq!(rb, Ok(InitCallbackResult::Fail(ChatError::AlreadyUsed)));
}

// The validator is pure: identical inputs decide identically across
// repeated calls and across simulated peers.
#[test]
fn validate_deterministic() {
    let make = || ValidateData {
        op: EntryOp::Create,
        entry: AppEntry::MessageEntry { channel: 0, content: "hello".to_string(), author: 4 },
        author: 4,
    };
    let first = validate(&make());
    for _ in 0..3 {
        assert_eq!(validate(&make()), first);
    }
    assert_eq!(first, ValidateCallbackResult::Valid);
}

#[test]
fn validate_rejects_mutations_and_bad_entries() {
    let entry = || AppEntry::ChannelEntry {
        category: "general".to_string(),
        content: "welcome".to_string(),
    };
    for op in [EntryOp::Update, EntryOp::Delete] {
        assert_eq!(
            validate(&ValidateData { op, entry: entry(), author: 1 }),
            ValidateCallbackResult::Invalid(RejectReason::MutationNotAllowed)
        );
    }
    assert_eq!(
        validate(&ValidateData {
            op: EntryOp::Create,
            entry: AppEntry::ChannelEntry { category: String::new(), content: String::new() },
            author: 1,
        }),
        ValidateCallbackResult::Invalid(RejectReason::EmptyCategory)
    );
    assert_eq!(
        validate(&ValidateData {
            op: EntryOp::Create,
            entry: AppEntry::MessageEntry { channel: 0, content: String::new(), author: 1 },
            author: 1,
        }),
        ValidateCallbackResult::Invalid(RejectReason::EmptyContent)
    );
    let oversized = "x".repeat(1025);
    assert_eq!(
        validate(&ValidateData {
            op: EntryOp::Create,
            entry: AppEntry::MessageEntry { channel: 0, content: oversized, author: 1 },
            author: 1,
        }),
        ValidateCallbackResult::Invalid(RejectReason::OversizedContent)
    );
    // The recorded author must be the committing agent.
    assert_eq!(
        validate(&ValidateData {
            op: EntryOp::Create,
            entry: AppEntry::MessageEntry { channel: 0, content: "hi".to_string(), author: 2 },
            author: 1,
        }),
        ValidateCallbackResult::Invalid(RejectReason::WrongAuthor)
    );
    assert_eq!(
        validate(&ValidateData { op: EntryOp::Create, entry: AppEntry::Malformed, author: 1 }),
        ValidateCallbackResult::Invalid(RejectReason::MalformedEntry)
    );
}

#[test]
fn genesis_accepts_well_formed_code_proof() {
    let data = GenesisSelfCheckData { agent_key: 3, membrane_proof: Some(code_proof(b"fresh")) };
    assert_eq!(genesis_self_check(&data), ValidateCallbackResult::Valid);
}

#[test]
fn validate_channel_and_marker_bounds() {
    let big_category = "c".repeat(65);
    assert_eq!(
        validate(&ValidateData {
            op: EntryOp::Create,
            entry: AppEntry::ChannelEntry { category: big_category, content: "x".to_string() },
            author: 1,
        }),
        ValidateCallbackResult::Invalid(RejectReason::OversizedCategory)
    );
    assert_eq!(
        validate(&ValidateData {
            op: EntryOp::Create,
            entry: AppEntry::JoinMarker { code: Vec::new() },
            author: 1,
        }),
        ValidateCallbackResult::Invalid(RejectReason::EmptyJoinCode)
    );
    assert_eq!(
        validate(&ValidateData {
            op: EntryOp::Create,
            entry: AppEntry::JoinMarker { code: vec![7u8] },
            author: 1,
        }),
        ValidateCallbackResult::Valid
    );
}

#[test]
fn cap_grant_absent_before_init() {
    let p = Process::new(1, None, true, WINDOW);
    assert!(p.cap_grant.is_none());
}

// refresh_chatter followed by getActiveChatters includes the agent; once
// the window elapses with no further refresh, it is excluded.
#[test]
fn refresh_then_listed_then_expired() {
    let mut ledger = Ledger::new();
    let mut p = member(5, b"alive", &mut ledger);
    let t = 10_000u64;
    assert_eq!(refresh_chatter(&mut p, t), Ok(()));
    assert_eq!(get_active_chatters(&p, t).chatters, vec![5u64]);
    // Still inside the window at its very edge.
    assert_eq!(get_active_chatters(&p, t + WINDOW).chatters, vec![5u64]);
    // One past the window: aged out, though the entry is never deleted.
    assert!(get_active_chatters(&p, t + WINDOW + 1).chatters.is_empty());
    // A new refresh brings it back.
    assert_eq!(refresh_chatter(&mut p, t + WINDOW + 1), Ok(()));
    assert_eq!(get_active_chatters(&p, t + WINDOW + 1).chatters, vec![5u64]);
}

fn sample_signal() -> SignalMessageData {
    let mut ledger = Ledger::new();
    let p = member(9, b"sig", &mut ledger);
    let cd = create_channel(
        &p,
        &mut ledger,
        ChannelInput { category: "general".to_string(), content: "c".to_string() },
    )
    .unwrap();
    let md = create_message(
        &p,
        &mut ledger,
        MessageInput { channel: cd.id, content: "hi".to_string() },
    )
    .unwrap();
    SignalMessageData { message_data: md, channel: cd.id }
}

// signalAll with N active agents, K unreachable: exactly N results, K
// failures, N - K successes; no individual failure aborts the batch.
#[test]
fn signal_all_partial_failure_accounting() {
    let mut ledger = Ledger::new();
    let mut p = member(1, b"fanout", &mut ledger);
    let now = 50_000u64;
    // This process has observed three peers refresh recently.
    assert_eq!(refresh_chatter(&mut p, now), Ok(()));
    chat::presence::refresh(&mut p.registry, 2, now);
    chat::presence::refresh(&mut p.registry, 3, now);
    let transport = TransportStatus { unreachable: vec![3] };
    let results = signal_chatters(&p, sample_signal(), now, &transport).unwrap();
    assert_eq!(results.sent.len(), 3);
    let failures: Vec<u64> = results
        .sent
        .iter()
        .filter(|s| s.outcome == DeliveryOutcome::Failure)
        .map(|s| s.agent)
        .collect();
    let successes = results
        .sent
        .iter()
        .filter(|s| s.outcome == DeliveryOutcome::Success)
        .count();
    assert_eq!(failures, vec![3u64]);
    assert_eq!(successes, 2);
}

// Read-only instances: every mutating operation rejects with ReadOnly;
// every read succeeds.
#[test]
fn read_only_rejections_and_reads() {
    let mut ledger = Ledger::new();
    let writer = member(1, b"writer", &mut ledger);
    let cd = create_channel(
        &writer,
        &mut ledger,
        ChannelInput { category: "general".to_string(), content: "c".to_string() },
    )
    .unwrap();
    let mut ro = reader(2, &mut ledger);
    let now = 1_000u64;

    assert_eq!(
        create_channel(
            &ro,
            &mut ledger,
            ChannelInput { category: "general".to_string(), content: "x".to_string() },
        )
        .err(),
        Some(ChatError::ReadOnly)
    );
    assert_eq!(
        create_message(
            &ro,
            &mut ledger,
            MessageInput { channel: cd.id, content: "hi".to_string() },
        )
        .err(),
        Some(ChatError::ReadOnly)
    );
    assert_eq!(refresh_chatter(&mut ro, now), Err(ChatError::ReadOnly));
    assert!(matches!(
        signal_chatters(&ro, sample_signal(), now, &no_failures()),
        Err(ChatError::ReadOnly)
    ));
    assert_eq!(
        signal_specific_chatters(
            &ro,
            SignalSpecificInput { signal_message_data: sample_signal(), chatters: vec![1] },
            &no_failures(),
        ),
        Err(ChatError::ReadOnly)
    );

    // Reads are open to read-only instances.
    let listed = list_channels(&ledger, ChannelListInput { category: "general".to_string() });
    assert_eq!(listed.channels.len(), 1);
    assert!(get_active_chatters(&ro, now).chatters.is_empty());
    let s = stats(&ro, &ledger, ChannelListInput { category: "general".to_string() }, now);
    assert_eq!(s, Stats { agents: 2, active: 0, channels: 1, messages: 0 });
}

// Agent A creates "general"; agent B posts "hi" in it; the first chunk
// holds exactly that message. Chunk size 1 over 3 messages yields 3
// distinct, non-overlapping chunks whose concatenation is the full set.
#[test]
fn channel_message_and_pagination_scenario() {
    let mut ledger = Ledger::new();
    let a = member(1, b"agent-a", &mut ledger);
    let b = member(2, b"agent-b", &mut ledger);
    let general = create_channel(
        &a,
        &mut ledger,
        ChannelInput { category: "general".to_string(), content: "general".to_string() },
    )
    .unwrap();
    let hi = create_message(
        &b,
        &mut ledger,
        MessageInput { channel: general.id, content: "hi".to_string() },
    )
    .unwrap();
    assert_eq!(hi.author, 2);

    let first_chunk = list_messages(
        &ledger,
        ListMessagesInput {
            channel: general.id,
            chunk: Chunk { start: 0, size: 10 },
            active_chatter: false,
        },
    );
    assert_eq!(first_chunk.messages.len(), 1);
    assert_eq!(first_chunk.messages[0].content, "hi");

    create_message(&a, &mut ledger, MessageInput { channel: general.id, content: "two".to_string() })
        .unwrap();
    create_message(&b, &mut ledger, MessageInput { channel: general.id, content: "three".to_string() })
        .unwrap();

    let mut seen: Vec<String> = Vec::new();
    for start in 0..3usize {
        let chunk = list_messages(
            &ledger,
            ListMessagesInput {
                channel: general.id,
                chunk: Chunk { start, size: 1 },
                active_chatter: false,
            },
        );
        assert_eq!(chunk.messages.len(), 1);
        let content = chunk.messages[0].content.clone();
        assert!(!seen.contains(&content));
        seen.push(content);
    }
    assert_eq!(seen, vec!["hi".to_string(), "two".to_string(), "three".to_string()]);
    // Past the end: empty, never an error.
    let past = list_messages(
        &ledger,
        ListMessagesInput {
            channel: general.id,
            chunk: Chunk { start: 3, size: 1 },
            active_chatter: false,
        },
    );
    assert!(past.messages.is_empty());
}

#[test]
fn create_message_rejects_unknown_channel() {
    let mut ledger = Ledger::new();
    let p = member(1, b"strict", &mut ledger);
    assert_eq!(
        create_message(&p, &mut ledger, MessageInput { channel: 17, content: "hi".to_string() })
            .err(),
        Some(ChatError::ValidationFailure)
    );
    assert_eq!(
        create_channel(
            &p,
            &mut ledger,
            ChannelInput { category: String::new(), content: String::new() },
        )
        .err(),
        Some(ChatError::ValidationFailure)
    );
}

#[test]
fn list_all_messages_pages_each_channel() {
    let mut ledger = Ledger::new();
    let p = member(1, b"walker", &mut ledger);
    let c1 = create_channel(
        &p,
        &mut ledger,
        ChannelInput { category: "general".to_string(), content: "one".to_string() },
    )
    .unwrap();
    let c2 = create_channel(
        &p,
        &mut ledger,
        ChannelInput { category: "general".to_string(), content: "two".to_string() },
    )
    .unwrap();
    let _other = create_channel(
        &p,
        &mut ledger,
        ChannelInput { category: "private".to_string(), content: "x".to_string() },
    )
    .unwrap();
    create_message(&p, &mut ledger, MessageInput { channel: c1.id, content: "m1".to_string() })
        .unwrap();
    create_message(&p, &mut ledger, MessageInput { channel: c2.id, content: "m2".to_string() })
        .unwrap();
    create_message(&p, &mut ledger, MessageInput { channel: c1.id, content: "m3".to_string() })
        .unwrap();

    let all = list_all_messages(
        &ledger,
        ListAllMessagesInput { category: "general".to_string(), chunk: Chunk { start: 0, size: 10 } },
    );
    assert_eq!(all.0.len(), 2);
    assert_eq!(all.0[0].channel.id, c1.id);
    let contents1: Vec<&str> = all.0[0].messages.iter().map(|m| m.content.as_str()).collect();
    assert_eq!(contents1, vec!["m1", "m3"]);
    assert_eq!(all.0[1].channel.id, c2.id);
    let contents2: Vec<&str> = all.0[1].messages.iter().map(|m| m.content.as_str()).collect();
    assert_eq!(contents2, vec!["m2"]);
}

#[test]
fn stats_count_members_and_messages() {
    let mut ledger = Ledger::new();
    let mut p = member(1, b"counter", &mut ledger);
    let _ro = reader(2, &mut ledger);
    let cd = create_channel(
        &p,
        &mut ledger,
        ChannelInput { category: "general".to_string(), content: "c".to_string() },
    )
    .unwrap();
    create_message(&p, &mut ledger, MessageInput { channel: cd.id, content: "hi".to_string() })
        .unwrap();
    let now = 500u64;
    assert_eq!(refresh_chatter(&mut p, now), Ok(()));
    let a = agent_stats(&p, &ledger, now);
    assert_eq!((a.agents, a.active), (2, 1));
    let s = stats(&p, &ledger, ChannelListInput { category: "general".to_string() }, now);
    assert_eq!(s, Stats { agents: 2, active: 1, channels: 1, messages: 1 });
    // After the window the active count drops; the roll stays.
    let later = stats(
        &p,
        &ledger,
        ChannelListInput { category: "general".to_string() },
        now + WINDOW + 1,
    );
    assert_eq!(later, Stats { agents: 2, active: 0, channels: 1, messages: 1 });
}

// The bootstrap capability covers exactly the remote-signal entry point.
#[test]
fn capability_scoped_to_remote_signal() {
    let mut ledger = Ledger::new();
    let p = member(1, b"cap", &mut ledger);
    let grant = p.cap_grant.expect("init grants the capability");
    assert!(grant.unrestricted);
    assert!(is_allowed(&grant, GrantedFunction::RecvRemoteSignal));
    assert!(!is_allowed(&grant, GrantedFunction::CreateChannel));
    assert!(!is_allowed(&grant, GrantedFunction::CreateMessage));
    assert!(!is_allowed(&grant, GrantedFunction::RefreshChatter));
}

#[test]
fn recv_remote_signal_decodes_or_rejects() {
    let sig = sample_signal();
    match recv_remote_signal(RemoteSignal::Message(sig)) {
        Ok(SignalPayload::Message(m)) => {
            assert_eq!(m.message_data.content, "hi");
        },
        _ => panic!("a well-formed message signal must decode"),
    }
    assert!(matches!(
        recv_remote_signal(RemoteSignal::Malformed),
        Err(ChatError::DecodeFailure)
    ));
}

#[test]
fn signal_specific_best_effort() {
    let mut ledger = Ledger::new();
    let p = member(1, b"direct", &mut ledger);
    let transport = TransportStatus { unreachable: vec![40] };
    // Unreachable recipients never make the call fail: delivery is best effort.
    assert_eq!(
        signal_specific_chatters(
            &p,
            SignalSpecificInput { signal_message_data: sample_signal(), chatters: vec![40, 41] },
            &transport,
        ),
        Ok(())
    );
}
