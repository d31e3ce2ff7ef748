//! The presence registry: one agent's local, ephemeral belief about who is
//! online.
//!
//! There is no central server, so "active" is necessarily a per-process,
//! eventually-consistent belief, reconciled by refreshes the process
//! observes. Nothing here is persisted. Current time is injected, never
//! read, so every operation is a function of plain data. An entry never has
//! to be deleted: it simply ages out of the liveness window.

use vstd::prelude::*;

verus! {

/// One observed agent and the time of its last sign of life.
#[derive(Clone, Copy, Debug, PartialEq, Eq, Structural)]
pub struct ActiveChatterEntry {
    pub agent: u64,
    pub last_refresh: u64,
}

/// The agents a process currently believes to be online.
pub struct ActiveChatters {
    pub chatters: Vec<u64>,
}

/// No agent appears twice.
pub open spec fn unique_agents(s: Seq<ActiveChatterEntry>) -> bool {
    forall|i: int, j: int| 0 <= i < j < s.len() ==> s[i].agent != s[j].agent
}

/// No entry tracks this agent.
pub open spec fn absent(s: Seq<ActiveChatterEntry>, a: u64) -> bool {
    forall|j: int| 0 <= j < s.len() ==> (#[trigger] s[j]).agent != a
}

/// Appending an untracked agent keeps agents unique, and maps it to its
/// refresh time.
proof fn lemma_reg_map_push(s: Seq<ActiveChatterEntry>, e: ActiveChatterEntry)
    requires
        unique_agents(s),
        absent(s, e.agent),
    ensures
        unique_agents(s.push(e)),
        reg_map_of(s.push(e)) == reg_map_of(s).insert(e.agent, e.last_refresh),
{
    assert(s.push(e).drop_last() =~= s);
    assert(s.push(e).last() == e);
    assert forall|i: int, j: int| 0 <= i < j < s.push(e).len() implies s.push(e)[i].agent != s.push(
        e,
    )[j].agent by {
        if j < s.len() {
            assert(s[i].agent != s[j].agent);
        } else {
            assert(s[i].agent != e.agent);
        }
    }
}

/// Dropping the one entry of an agent keeps the rest unique, with that agent
/// gone.
proof fn lemma_remove_entry(s: Seq<ActiveChatterEntry>, i: int)
    requires
        unique_agents(s),
        0 <= i < s.len(),
    ensures
        unique_agents(s.remove(i)),
        absent(s.remove(i), s[i].agent),
{
    s.remove_ensures(i);
    assert forall|p: int, q: int| 0 <= p < q < s.remove(i).len() implies s.remove(i)[p].agent != s.remove(
        i,
    )[q].agent by {
        if q < i {
            assert(s[p].agent != s[q].agent);
        } else if p < i {
            assert(s[p].agent != s[q + 1].agent);
        } else {
            assert(s[p + 1].agent != s[q + 1].agent);
        }
    }
    assert forall|j: int| 0 <= j < s.remove(i).len() implies s.remove(i)[j].agent != s[i].agent by {
        if j < i {
            assert(s[j].agent != s[i].agent);
        } else {
            assert(s[j + 1].agent != s[i].agent);
        }
    }
}

/// The registry as a mapping from agent to its last refresh time.
pub open spec fn reg_map_of(s: Seq<ActiveChatterEntry>) -> Map<u64, u64>
    decreases s.len(),
{
    if s.len() == 0 {
        Map::empty()
    } else {
        reg_map_of(s.drop_last()).insert(s.last().agent, s.last().last_refresh)
    }
}

/// A last refresh at `t` counts as active at `now` while `now` has not
/// passed the end of the liveness window.
pub open spec fn spec_active(t: u64, now: u64, window: u64) -> bool {
    now <= t + window
}

/// How many tracked entries are active at `now`.
pub open spec fn active_count(s: Seq<ActiveChatterEntry>, now: u64, window: u64) -> nat
    decreases s.len(),
{
    if s.len() == 0 {
        0
    } else {
        active_count(s.drop_last(), now, window) + (if spec_active(
            s.last().last_refresh,
            now,
            window,
        ) {
            1nat
        } else {
            0nat
        })
    }
}

/// The per-process presence registry with its liveness-window configuration.
pub struct PresenceRegistry {
    /// How long a refresh counts as a sign of life.
    pub window: u64,
    pub entries: Vec<ActiveChatterEntry>,
}

impl PresenceRegistry {
    /// Each agent is tracked at most once.
    pub open spec fn wf(self) -> bool {
        unique_agents(self.entries@)
    }

    /// The abstract registry: agent to last refresh time.
    pub open spec fn times(self) -> Map<u64, u64> {
        reg_map_of(self.entries@)
    }

    /// An empty registry with the given liveness window.
    pub fn new(window: u64) -> (r: PresenceRegistry)
        ensures
            r.wf(),
            r.window == window,
            r.times() == Map::<u64, u64>::empty(),
    {
        PresenceRegistry { window, entries: Vec::new() }
    }
}

/// With unique agents, the mapping holds exactly the tracked agents, each at
/// the time its entry records.
pub proof fn lemma_reg_map_index(s: Seq<ActiveChatterEntry>, a: u64)
    requires
        unique_agents(s),
    ensures
        reg_map_of(s).contains_key(a) <==> (exists|k: int|
            0 <= k < s.len() && (#[trigger] s[k]).agent == a),
        forall|k: int|
            0 <= k < s.len() && (#[trigger] s[k]).agent == a ==> reg_map_of(s)[a]
                == s[k].last_refresh,
    decreases s.len(),
{
    if s.len() > 0 {
        let e = s.last();
        let rest = s.drop_last();
        assert(unique_agents(rest));
        lemma_reg_map_index(rest, a);
        if e.agent == a {
            assert(s[s.len() - 1].agent == a);
            assert forall|k: int|
                0 <= k < s.len() && (#[trigger] s[k]).agent == a implies reg_map_of(s)[a]
                == s[k].last_refresh by {
                if k < s.len() - 1 {
                    assert(s[k].agent != s[s.len() - 1].agent);
                }
            }
        } else {
            if reg_map_of(s).contains_key(a) {
                assert(reg_map_of(rest).contains_key(a));
                let k = choose|k: int| 0 <= k < rest.len() && (#[trigger] rest[k]).agent == a;
                assert(s[k].agent == a);
            }
            if exists|k: int| 0 <= k < s.len() && (#[trigger] s[k]).agent == a {
                let k = choose|k: int| 0 <= k < s.len() && (#[trigger] s[k]).agent == a;
                assert(k < s.len() - 1);
                assert(rest[k].agent == a);
            }
        }
    }
}

/// Removing the one entry of an agent removes exactly that agent from the
/// mapping.
proof fn lemma_reg_map_remove(s: Seq<ActiveChatterEntry>, i: int)
    requires
        unique_agents(s),
        0 <= i < s.len(),
    ensures
        reg_map_of(s.remove(i)) == reg_map_of(s).remove(s[i].agent),
    decreases s.len(),
{
    let a = s[i].agent;
    let e = s.last();
    let rest = s.drop_last();
    assert(unique_agents(rest));
    if i == s.len() - 1 {
        assert(s.remove(i) =~= rest);
        lemma_reg_map_index(rest, a);
        assert(!reg_map_of(rest).contains_key(a));
        assert(reg_map_of(rest) =~= reg_map_of(rest).insert(a, e.last_refresh).remove(a));
    } else {
        assert(s.remove(i).drop_last() =~= rest.remove(i));
        assert(s.remove(i).last() == e);
        lemma_reg_map_remove(rest, i);
        assert(a != e.agent);
        assert(reg_map_of(rest).remove(a).insert(e.agent, e.last_refresh) =~= reg_map_of(
            rest,
        ).insert(e.agent, e.last_refresh).remove(a));
        assert(reg_map_of(s.remove(i)) == reg_map_of(rest.remove(i)).insert(
            e.agent,
            e.last_refresh,
        ));
    }
}

/// Records a sign of life: after the call the registry maps the agent to
/// `now` and no other agent's record changes.
pub fn refresh(reg: &mut PresenceRegistry, agent: u64, now: u64)
    requires
        old(reg).wf(),
    ensures
        final(reg).wf(),
        final(reg).window == old(reg).window,
        final(reg).times() == old(reg).times().insert(agent, now),
{
    let mut i: usize = 0;
    while i < reg.entries.len()
        invariant
            *reg == *old(reg),
            reg.wf(),
            0 <= i <= reg.entries@.len(),
            forall|j: int| 0 <= j < i ==> (#[trigger] reg.entries@[j]).agent != agent,
        decreases reg.entries@.len() - i,
    {
        if reg.entries[i].agent == agent {
            let ghost s = reg.entries@;
            reg.entries.remove(i);
            proof {
                lemma_remove_entry(s, i as int);
                lemma_reg_map_remove(s, i as int);
            }
            let ghost removed = reg.entries@;
            let new_entry = ActiveChatterEntry { agent, last_refresh: now };
            reg.entries.push(new_entry);
            proof {
                lemma_reg_map_push(removed, new_entry);
                assert(reg.times() == reg_map_of(s).remove(agent).insert(agent, now));
                assert(reg_map_of(s).remove(agent).insert(agent, now) =~= reg_map_of(s).insert(
                    agent,
                    now,
                ));
            }
            return ;
        }
        i = i + 1;
    }
    let ghost s = reg.entries@;
    let new_entry = ActiveChatterEntry { agent, last_refresh: now };
    reg.entries.push(new_entry);
    proof {
        assert(absent(s, agent));
        lemma_reg_map_push(s, new_entry);
    }
}

/// Lists the agents whose last sign of life is within the liveness window of
/// `now`. An expired agent is never listed, even though its entry is still
/// stored; each listed agent appears once.
pub fn active_chatters(reg: &PresenceRegistry, now: u64) -> (r: ActiveChatters)
    requires
        reg.wf(),
    ensures
        forall|a: u64|
            r.chatters@.contains(a) <==> (reg.times().contains_key(a) && spec_active(
                reg.times()[a],
                now,
                reg.window,
            )),
        forall|i: int, j: int| 0 <= i < j < r.chatters@.len() ==> r.chatters@[i] != r.chatters@[j],
        r.chatters@.len() == active_count(reg.entries@, now, reg.window),
{
    let mut acc: Vec<u64> = Vec::new();
    let mut i: usize = 0;
    while i < reg.entries.len()
        invariant
            reg.wf(),
            0 <= i <= reg.entries@.len(),
            acc@.len() == active_count(reg.entries@.take(i as int), now, reg.window),
            forall|a: u64|
                acc@.contains(a) <==> (exists|k: int|
                    0 <= k < i && (#[trigger] reg.entries@[k]).agent == a && spec_active(
                        reg.entries@[k].last_refresh,
                        now,
                        reg.window,
                    )),
            forall|p: int, q: int| 0 <= p < q < acc@.len() ==> acc@[p] != acc@[q],
        decreases reg.entries@.len() - i,
    {
        let e = reg.entries[i];
        proof {
            assert(reg.entries@.take(i + 1 as int).drop_last() =~= reg.entries@.take(i as int));
            assert(reg.entries@.take(i + 1 as int).last() == reg.entries@[i as int]);
        }
        let active = if now <= e.last_refresh {
            true
        } else {
            now - e.last_refresh <= reg.window
        };
        if active {
            let ghost prev = acc@;
            acc.push(e.agent);
            proof {
                assert forall|a: u64| acc@.contains(a) implies (exists|k: int|
                    0 <= k < i + 1 && (#[trigger] reg.entries@[k]).agent == a && spec_active(
                        reg.entries@[k].last_refresh,
                        now,
                        reg.window,
                    )) by {
                    let idx = choose|idx: int| 0 <= idx < acc@.len() && acc@[idx] == a;
                    if idx < prev.len() {
                        assert(prev.contains(a));
                    } else {
                        assert(reg.entries@[i as int].agent == a);
                    }
                }
                assert forall|a: u64|
                    (exists|k: int|
                        0 <= k < i + 1 && (#[trigger] reg.entries@[k]).agent == a && spec_active(
                            reg.entries@[k].last_refresh,
                            now,
                            reg.window,
                        )) implies acc@.contains(a) by {
                    let k = choose|k: int|
                        0 <= k < i + 1 && (#[trigger] reg.entries@[k]).agent == a && spec_active(
                            reg.entries@[k].last_refresh,
                            now,
                            reg.window,
                        );
                    if k < i {
                        assert(prev.contains(a));
                        let idx = choose|idx: int| 0 <= idx < prev.len() && prev[idx] == a;
                        assert(acc@[idx] == a);
                    } else {
                        assert(acc@[acc@.len() - 1] == a);
                    }
                }
                assert forall|p: int, q: int|
                    0 <= p < q < acc@.len() implies acc@[p] != acc@[q] by {
                    if q == acc@.len() - 1 {
                        assert(prev.contains(prev[p]));
                        let k = choose|k: int|
                            0 <= k < i && (#[trigger] reg.entries@[k]).agent == prev[p]
                                && spec_active(
                                reg.entries@[k].last_refresh,
                                now,
                                reg.window,
                            );
                        assert(reg.entries@[k].agent != reg.entries@[i as int].agent);
                    }
                }
            }
        } else {
            proof {
                assert forall|a: u64|
                    (exists|k: int|
                        0 <= k < i + 1 && (#[trigger] reg.entries@[k]).agent == a && spec_active(
                            reg.entries@[k].last_refresh,
                            now,
                            reg.window,
                        )) implies acc@.contains(a) by {
                    let k = choose|k: int|
                        0 <= k < i + 1 && (#[trigger] reg.entries@[k]).agent == a && spec_active(
                            reg.entries@[k].last_refresh,
                            now,
                            reg.window,
                        );
                    assert(k < i);
                }
            }
        }
        i = i + 1;
    }
    proof {
        assert(reg.entries@.take(reg.entries@.len() as int) =~= reg.entries@);
        assert forall|a: u64|
            acc@.contains(a) <==> (reg.times().contains_key(a) && spec_active(
                reg.times()[a],
                now,
                reg.window,
            )) by {
            lemma_reg_map_index(reg.entries@, a);
        }
    }
    ActiveChatters { chatters: acc }
}

/// A refresh is visible at once: immediately after an agent refreshes at
/// `t`, it is in the active set for any query time within the liveness
/// window of `t` (in particular at `t` itself); once the window has elapsed
/// with no further refresh, it is out.
pub proof fn lemma_refresh_visibility(times: Map<u64, u64>, agent: u64, t: u64, now: u64, window: u64)
    ensures
        times.insert(agent, t).contains_key(agent),
        now <= t + window ==> spec_active(times.insert(agent, t)[agent], now, window),
        now > t + window ==> !spec_active(times.insert(agent, t)[agent], now, window),
{
    assert(times.insert(agent, t)[agent] == t);
}

} // verus!
