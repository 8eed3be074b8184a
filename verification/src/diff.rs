use vstd::prelude::*;

use crate::state::CurrentState;
use crate::state::StateView;
use crate::state::distinct_names;
use crate::state::lemma_queue_map_contains;
use crate::state::progress_below_complete;
use crate::state::progress_complete;
use crate::state::progress_is_below_complete;
use crate::state::progress_is_complete;
use crate::state::queue_map;

verus! {

/// A change detected between the previous and the current snapshot. Events
/// are derived by one diff and live only within that cycle.
#[derive(Debug, PartialEq, Eq)]
pub enum Event {
    /// The external IP reported by the service changed.
    IpChanged { old_ip: String, new_ip: String },
    /// An item's progress crossed from below the completion value to exactly
    /// the completion value.
    ItemCompleted { name: String },
}

/// The completion events that the current queue's entries produce against the
/// previous snapshot, in entry order: one event for each entry whose name the
/// previous queue also holds, with the previous progress below completion and
/// the current progress exactly at it.
pub open spec fn spec_completion_events(prev: StateView, entries: Seq<(String, u64)>) -> Seq<
    Event,
>
    decreases entries.len(),
{
    if entries.len() == 0 {
        Seq::empty()
    } else {
        let rest = spec_completion_events(prev, entries.drop_last());
        let e = entries.last();
        if prev.queue.contains_key(e.0@) && progress_below_complete(prev.queue[e.0@])
            && progress_complete(e.1) {
            rest.push(Event::ItemCompleted { name: e.0 })
        } else {
            rest
        }
    }
}

/// The IP event of a diff: exactly one when the two snapshots disagree on the
/// external IP, none otherwise.
pub open spec fn spec_ip_events(prev: CurrentState, curr: CurrentState) -> Seq<Event> {
    if prev.ip@ != curr.ip@ {
        seq![Event::IpChanged { old_ip: prev.ip, new_ip: curr.ip }]
    } else {
        Seq::empty()
    }
}

/// Every event of a diff, the IP event first, completions after it in the
/// current queue's order.
pub open spec fn spec_diff_events(prev: CurrentState, curr: CurrentState) -> Seq<Event> {
    spec_ip_events(prev, curr) + spec_completion_events(prev@, curr.queue@)
}

/// Diffing owes a completion event for name `k`: the name is in both queues,
/// previously below completion and now exactly at it.
pub open spec fn completion_due(prev: StateView, curr: StateView, k: Seq<char>) -> bool {
    prev.queue.contains_key(k) && curr.queue.contains_key(k) && progress_below_complete(
        prev.queue[k],
    ) && progress_complete(curr.queue[k])
}

/// How many completion events for name `k` a sequence of events holds.
pub open spec fn count_completed(events: Seq<Event>, k: Seq<char>) -> int
    decreases events.len(),
{
    if events.len() == 0 {
        0
    } else {
        count_completed(events.drop_last(), k) + if events.last() matches Event::ItemCompleted {
            name,
        } && name@ == k {
            1int
        } else {
            0int
        }
    }
}

/// How many IP-change events a sequence of events holds.
pub open spec fn count_ip_changed(events: Seq<Event>) -> int
    decreases events.len(),
{
    if events.len() == 0 {
        0
    } else {
        count_ip_changed(events.drop_last()) + if events.last() is IpChanged {
            1int
        } else {
            0int
        }
    }
}

proof fn lemma_count_completed_concat(a: Seq<Event>, b: Seq<Event>, k: Seq<char>)
    ensures
        count_completed(a + b, k) == count_completed(a, k) + count_completed(b, k),
    decreases b.len(),
{
    if b.len() == 0 {
        assert(a + b =~= a);
    } else {
        lemma_count_completed_concat(a, b.drop_last(), k);
        assert((a + b).drop_last() =~= a + b.drop_last());
        assert((a + b).last() == b.last());
    }
}

proof fn lemma_count_ip_changed_concat(a: Seq<Event>, b: Seq<Event>)
    ensures
        count_ip_changed(a + b) == count_ip_changed(a) + count_ip_changed(b),
    decreases b.len(),
{
    if b.len() == 0 {
        assert(a + b =~= a);
    } else {
        lemma_count_ip_changed_concat(a, b.drop_last());
        assert((a + b).drop_last() =~= a + b.drop_last());
        assert((a + b).last() == b.last());
    }
}

/// Completion events never carry an IP change.
proof fn lemma_completion_events_no_ip(prev: StateView, entries: Seq<(String, u64)>)
    ensures
        count_ip_changed(spec_completion_events(prev, entries)) == 0,
    decreases entries.len(),
{
    if entries.len() == 0 {
    } else {
        lemma_completion_events_no_ip(prev, entries.drop_last());
        let rest = spec_completion_events(prev, entries.drop_last());
        let e = entries.last();
        if prev.queue.contains_key(e.0@) && progress_below_complete(prev.queue[e.0@])
            && progress_complete(e.1) {
            let ev = Event::ItemCompleted { name: e.0 };
            assert(rest.push(ev).drop_last() =~= rest);
            assert(rest.push(ev).last() == ev);
        }
    }
}

/// With distinct names, the completion events hold the name `k` exactly once
/// when a completion is due for `k`, and never otherwise.
proof fn lemma_count_completion_events(prev: StateView, entries: Seq<(String, u64)>, k: Seq<char>)
    requires
        distinct_names(entries),
    ensures
        count_completed(spec_completion_events(prev, entries), k) == if queue_map(
            entries,
        ).contains_key(k) && prev.queue.contains_key(k) && progress_below_complete(prev.queue[k])
            && progress_complete(queue_map(entries)[k]) {
            1int
        } else {
            0int
        },
    decreases entries.len(),
{
    if entries.len() == 0 {
        assert(!queue_map(entries).contains_key(k));
    } else {
        let sub = entries.drop_last();
        let e = entries.last();
        assert(distinct_names(sub)) by {
            assert(forall|p: int, q: int|
                0 <= p < q < sub.len() ==> entries[p].0@ != entries[q].0@);
        }
        lemma_count_completion_events(prev, sub, k);
        let rest = spec_completion_events(prev, sub);
        if prev.queue.contains_key(e.0@) && progress_below_complete(prev.queue[e.0@])
            && progress_complete(e.1) {
            let ev = Event::ItemCompleted { name: e.0 };
            assert(rest.push(ev).drop_last() =~= rest);
            assert(rest.push(ev).last() == ev);
        }
        if e.0@ == k {
            assert forall|i: int| 0 <= i < sub.len() implies sub[i].0@ != k by {
                assert(entries[i].0@ != entries[entries.len() - 1].0@);
            }
            lemma_queue_map_contains(sub, k);
            assert(!queue_map(sub).contains_key(k));
        }
    }
}

/// Compare the previous snapshot against the current one and produce every
/// due notification event: one `IpChanged` exactly when the external IPs
/// differ, and one `ItemCompleted` for each name in both queues whose
/// progress crossed from below the completion value to exactly the completion
/// value. Names only in the current queue (newly appeared items) and names
/// only in the previous queue (removed items) produce nothing.
pub fn diff_states(prev: &CurrentState, curr: &CurrentState) -> (events: Vec<Event>)
    requires
        prev.wf(),
        curr.wf(),
    ensures
        events@ == spec_diff_events(*prev, *curr),
        count_ip_changed(events@) == if prev.ip@ != curr.ip@ {
            1int
        } else {
            0int
        },
        forall|k: Seq<char>| #![auto]
            count_completed(events@, k) == if completion_due(prev@, curr@, k) {
                1int
            } else {
                0int
            },
{
    let mut events: Vec<Event> = Vec::new();
    if !(prev.ip == curr.ip) {
        events.push(Event::IpChanged { old_ip: prev.ip.clone(), new_ip: curr.ip.clone() });
    }
    proof {
        assert(events@ =~= spec_ip_events(*prev, *curr));
        assert(curr.queue@.take(0) =~= Seq::<(String, u64)>::empty());
    }
    let mut i: usize = 0;
    while i < curr.queue.len()
        invariant
            i <= curr.queue.len(),
            prev.wf(),
            curr.wf(),
            events@ == spec_ip_events(*prev, *curr) + spec_completion_events(
                prev@,
                curr.queue@.take(i as int),
            ),
        decreases curr.queue.len() - i,
    {
        let ghost pre = events@;
        let p = curr.queue[i].1;
        match prev.get_progress(&curr.queue[i].0) {
            Some(pp) => {
                if progress_is_below_complete(pp) && progress_is_complete(p) {
                    events.push(Event::ItemCompleted { name: curr.queue[i].0.clone() });
                }
            },
            None => {},
        }
        proof {
            let t1 = curr.queue@.take(i + 1);
            assert(t1.drop_last() =~= curr.queue@.take(i as int));
            assert(t1.last() == curr.queue@[i as int]);
            assert(events@ =~= spec_ip_events(*prev, *curr) + spec_completion_events(prev@, t1));
        }
        i += 1;
    }
    proof {
        assert(curr.queue@.take(curr.queue@.len() as int) =~= curr.queue@);
        let a = spec_ip_events(*prev, *curr);
        let b = spec_completion_events(prev@, curr.queue@);
        lemma_count_ip_changed_concat(a, b);
        lemma_completion_events_no_ip(prev@, curr.queue@);
        if prev.ip@ != curr.ip@ {
            assert(count_ip_changed(a) == 1) by {
                assert(a.drop_last() =~= Seq::<Event>::empty());
                assert(count_ip_changed(Seq::<Event>::empty()) == 0);
                assert(a.last() is IpChanged);
            }
        }
        assert forall|k: Seq<char>| #![auto]
            count_completed(events@, k) == if completion_due(prev@, curr@, k) {
                1int
            } else {
                0int
            } by {
            lemma_count_completed_concat(a, b, k);
            lemma_count_completion_events(prev@, curr.queue@, k);
            if prev.ip@ != curr.ip@ {
                assert(count_completed(a, k) == 0) by {
                    assert(a.drop_last() =~= Seq::<Event>::empty());
                    assert(count_completed(Seq::<Event>::empty(), k) == 0);
                    assert(a.last() is IpChanged);
                }
            }
        }
    }
    events
}

} // verus!
