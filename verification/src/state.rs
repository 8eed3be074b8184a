use vstd::prelude::*;

verus! {

/// Progress values travel through this library as the bit patterns of 64-bit
/// IEEE-754 floating point numbers, read verbatim from the wire. Holding the
/// bits instead of a float keeps the exact comparison semantics of the wire
/// format available to verified code.
///
/// This constant is the bit pattern of the double `100.0`, the progress value
/// that marks a finished item.
pub const PROGRESS_COMPLETE_BITS: u64 = 0x4059_0000_0000_0000;

/// Bit patterns at or above this one carry the IEEE-754 sign bit: they encode
/// negative doubles or negative NaNs.
pub const FLOAT_SIGN_BIT: u64 = 0x8000_0000_0000_0000;

/// Bit pattern of the double negative infinity. Patterns with the sign bit
/// set order in reverse: larger patterns encode smaller doubles, and patterns
/// strictly above this one are negative NaNs.
pub const NEGATIVE_INFINITY_BITS: u64 = 0xFFF0_0000_0000_0000;

/// The encoded double compares equal to the completion value `100.0`.
///
/// Floating point equality with `100.0` holds for exactly one bit pattern,
/// since `100.0` is neither a zero (where two patterns compare equal) nor a
/// NaN (which compares equal to nothing).
pub open spec fn progress_complete(p: u64) -> bool {
    p == PROGRESS_COMPLETE_BITS
}

/// The encoded double compares strictly below the completion value `100.0`.
///
/// Doubles without the sign bit order exactly as their bit patterns do, and
/// every pattern encoding a NaN lies above the pattern of `100.0`, so the
/// plain pattern comparison is right for them. Every negative double,
/// negative infinity included, lies below `100.0`; only the negative NaNs,
/// the patterns strictly above the one of negative infinity, do not.
pub open spec fn progress_below_complete(p: u64) -> bool {
    if p < FLOAT_SIGN_BIT {
        p < PROGRESS_COMPLETE_BITS
    } else {
        p <= NEGATIVE_INFINITY_BITS
    }
}

/// Executable form of `progress_complete`.
pub fn progress_is_complete(p: u64) -> (r: bool)
    ensures
        r == progress_complete(p),
{
    p == PROGRESS_COMPLETE_BITS
}

/// Executable form of `progress_below_complete`.
pub fn progress_is_below_complete(p: u64) -> (r: bool)
    ensures
        r == progress_below_complete(p),
{
    if p < FLOAT_SIGN_BIT {
        p < PROGRESS_COMPLETE_BITS
    } else {
        p <= NEGATIVE_INFINITY_BITS
    }
}

/// Mathematical model of a snapshot: the external IP and the map from item
/// name to encoded progress.
pub struct StateView {
    pub ip: Seq<char>,
    pub queue: Map<Seq<char>, u64>,
}

/// One snapshot of the remote service: the caller's external IP as the
/// service reports it, and the progress of every queued item, keyed by the
/// item's name. Names are unique within a snapshot (`wf`). A snapshot never
/// changes once built; a new one fully replaces the stored one.
#[derive(Debug, PartialEq, Eq)]
pub struct CurrentState {
    pub queue: Vec<(String, u64)>,
    pub ip: String,
}

/// The map that an association list denotes; a later entry wins, though
/// well-formed snapshots never carry a name twice.
pub open spec fn queue_map(entries: Seq<(String, u64)>) -> Map<Seq<char>, u64>
    decreases entries.len(),
{
    if entries.len() == 0 {
        Map::empty()
    } else {
        queue_map(entries.drop_last()).insert(entries.last().0@, entries.last().1)
    }
}

/// No item name occurs twice.
pub open spec fn distinct_names(entries: Seq<(String, u64)>) -> bool {
    forall|i: int, j: int| 0 <= i < j < entries.len() ==> entries[i].0@ != entries[j].0@
}

impl View for CurrentState {
    type V = StateView;

    open spec fn view(&self) -> StateView {
        StateView { ip: self.ip@, queue: queue_map(self.queue@) }
    }
}

impl CurrentState {
    /// Well-formedness: item names are unique within the snapshot.
    pub open spec fn wf(&self) -> bool {
        distinct_names(self.queue@)
    }

    /// Look a name up in the queue.
    pub fn get_progress(&self, name: &String) -> (r: Option<u64>)
        requires
            self.wf(),
        ensures
            match r {
                Some(p) => self@.queue.contains_key(name@) && self@.queue[name@] == p,
                None => !self@.queue.contains_key(name@),
            },
    {
        let mut i: usize = 0;
        while i < self.queue.len()
            invariant
                i <= self.queue.len(),
                self.wf(),
                forall|j: int| 0 <= j < i ==> self.queue@[j].0@ != name@,
            decreases self.queue.len() - i,
        {
            if self.queue[i].0 == *name {
                proof {
                    lemma_queue_map_value(self.queue@, i as int);
                }
                return Some(self.queue[i].1);
            }
            i += 1;
        }
        proof {
            lemma_queue_map_contains(self.queue@, name@);
        }
        None
    }

    /// Check well-formedness at run time, for hosts that build a snapshot
    /// from input nothing was proved about.
    #[verifier::loop_isolation(false)]
    pub fn is_wf(&self) -> (r: bool)
        ensures
            r == self.wf(),
    {
        let mut i: usize = 0;
        while i < self.queue.len()
            invariant
                i <= self.queue.len(),
                forall|p: int, q: int|
                    0 <= p < q < self.queue@.len() && p < i ==> self.queue@[p].0@
                        != self.queue@[q].0@,
            decreases self.queue.len() - i,
        {
            let mut j: usize = i + 1;
            while j < self.queue.len()
                invariant
                    i < j <= self.queue.len(),
                    forall|q: int| i < q < j ==> self.queue@[i as int].0@ != self.queue@[q].0@,
                decreases self.queue.len() - j,
            {
                if self.queue[i].0 == self.queue[j].0 {
                    proof {
                        assert(self.queue@[i as int].0@ == self.queue@[j as int].0@);
                    }
                    return false;
                }
                j += 1;
            }
            i += 1;
        }
        true
    }

    /// An exact copy of the snapshot.
    pub fn duplicate(&self) -> (r: CurrentState)
        ensures
            r.ip@ == self.ip@,
            r.queue@ == self.queue@,
            r@ == self@,
            r.wf() == self.wf(),
    {
        let mut q: Vec<(String, u64)> = Vec::new();
        let mut i: usize = 0;
        while i < self.queue.len()
            invariant
                i <= self.queue.len(),
                q@.len() == i,
                forall|j: int| 0 <= j < i ==> q@[j] == self.queue@[j],
            decreases self.queue.len() - i,
        {
            let name = self.queue[i].0.clone();
            q.push((name, self.queue[i].1));
            i += 1;
        }
        proof {
            assert(q@ =~= self.queue@);
        }
        CurrentState { queue: q, ip: self.ip.clone() }
    }
}

/// A name is in the queue map exactly when some entry carries it.
pub proof fn lemma_queue_map_contains(entries: Seq<(String, u64)>, k: Seq<char>)
    ensures
        queue_map(entries).contains_key(k) <==> exists|i: int|
            0 <= i < entries.len() && entries[i].0@ == k,
    decreases entries.len(),
{
    if entries.len() == 0 {
    } else {
        let sub = entries.drop_last();
        lemma_queue_map_contains(sub, k);
        if entries.last().0@ == k {
            assert(entries[entries.len() - 1].0@ == k);
        } else {
            if queue_map(entries).contains_key(k) {
                let i = choose|i: int| 0 <= i < sub.len() && sub[i].0@ == k;
                assert(entries[i].0@ == k);
            }
            if exists|i: int| 0 <= i < entries.len() && entries[i].0@ == k {
                let i = choose|i: int| 0 <= i < entries.len() && entries[i].0@ == k;
                assert(sub[i].0@ == k);
            }
        }
    }
}

/// With distinct names, the queue map sends each entry's name to that entry's
/// progress.
pub proof fn lemma_queue_map_value(entries: Seq<(String, u64)>, i: int)
    requires
        distinct_names(entries),
        0 <= i < entries.len(),
    ensures
        queue_map(entries).contains_key(entries[i].0@),
        queue_map(entries)[entries[i].0@] == entries[i].1,
    decreases entries.len(),
{
    let sub = entries.drop_last();
    if i == entries.len() - 1 {
    } else {
        assert(distinct_names(sub)) by {
            assert(forall|p: int, q: int|
                0 <= p < q < sub.len() ==> entries[p].0@ != entries[q].0@);
        }
        lemma_queue_map_value(sub, i);
        assert(entries.last().0@ != entries[i].0@);
    }
}

} // verus!
