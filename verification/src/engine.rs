use vstd::prelude::*;
use vstd::string::StringExecFns;

use crate::diff::Event;
use crate::diff::diff_states;
use crate::diff::spec_completion_events;
use crate::diff::spec_diff_events;
use crate::diff::spec_ip_events;
use crate::fetch::FetchError;
use crate::fetch::spec_fetch_error_text;
use crate::state::CurrentState;
use crate::state::StateView;
use crate::store::SnapshotSlot;
use crate::store::StorageError;
use crate::store::spec_storage_error_text;

verus! {

/// The views of a sequence of texts.
pub open spec fn text_views(v: Seq<String>) -> Seq<Seq<char>>
    decreases v.len(),
{
    if v.len() == 0 {
        Seq::empty()
    } else {
        text_views(v.drop_last()).push(v.last()@)
    }
}

/// The notification text of one event.
pub open spec fn spec_event_message(e: Event) -> Seq<char> {
    match e {
        Event::IpChanged { old_ip, new_ip } => "IP changed from "@ + old_ip@ + " to "@ + new_ip@,
        Event::ItemCompleted { name } => "Done with "@ + name@,
    }
}

/// The notification texts of a sequence of events, in order.
pub open spec fn spec_messages(events: Seq<Event>) -> Seq<Seq<char>>
    decreases events.len(),
{
    if events.len() == 0 {
        Seq::empty()
    } else {
        spec_messages(events.drop_last()).push(spec_event_message(events.last()))
    }
}

/// The completion texts a diff owes, in the current queue's order.
pub open spec fn spec_completion_messages(prev: StateView, entries: Seq<(String, u64)>) -> Seq<
    Seq<char>,
> {
    spec_messages(spec_completion_events(prev, entries))
}

/// Every notification text of one diff: the IP change first where the IPs
/// disagree, then the completions in the current queue's order.
pub open spec fn spec_diff_messages(prev: StateView, curr: CurrentState) -> Seq<Seq<char>> {
    (if prev.ip != curr.ip@ {
        seq!["IP changed from "@ + prev.ip + " to "@ + curr.ip@]
    } else {
        Seq::empty()
    }) + spec_completion_messages(prev, curr.queue@)
}

/// The text sent when the fetch step fails.
pub open spec fn spec_fetch_failure_message(e: FetchError) -> Seq<char> {
    "Unable to get current state: "@ + spec_fetch_error_text(e)
}

/// The text sent when saving the current snapshot fails.
pub open spec fn spec_save_failure_message(e: StorageError) -> Seq<char> {
    "Could not save current state: "@ + spec_storage_error_text(e)
}

/// The text sent when creating the first stored snapshot fails.
pub open spec fn spec_init_failure_message(e: StorageError) -> Seq<char> {
    "Unable to create init storage file: "@ + spec_storage_error_text(e)
}

/// The text sent when the stored snapshot cannot be read back.
pub open spec fn spec_load_failure_message(e: StorageError) -> Seq<char> {
    "Unable to read stored state: "@ + spec_storage_error_text(e)
}

/// The notification text of one event.
pub fn event_message(e: &Event) -> (m: String)
    ensures
        m@ == spec_event_message(*e),
{
    match e {
        Event::IpChanged { old_ip, new_ip } => {
            let mut m = "IP changed from ".to_owned();
            m.append(old_ip.as_str());
            m.append(" to ");
            m.append(new_ip.as_str());
            proof {
                assert(m@ =~= spec_event_message(*e));
            }
            m
        },
        Event::ItemCompleted { name } => {
            let mut m = "Done with ".to_owned();
            m.append(name.as_str());
            m
        },
    }
}

/// The text sent when the fetch step fails.
pub fn fetch_failure_message(e: &FetchError) -> (m: String)
    ensures
        m@ == spec_fetch_failure_message(*e),
{
    let mut m = "Unable to get current state: ".to_owned();
    let detail = e.describe();
    m.append(detail.as_str());
    m
}

/// The text sent when saving the current snapshot fails.
pub fn save_failure_message(e: &StorageError) -> (m: String)
    ensures
        m@ == spec_save_failure_message(*e),
{
    let mut m = "Could not save current state: ".to_owned();
    let detail = e.describe();
    m.append(detail.as_str());
    m
}

/// The text sent when creating the first stored snapshot fails.
pub fn init_failure_message(e: &StorageError) -> (m: String)
    ensures
        m@ == spec_init_failure_message(*e),
{
    let mut m = "Unable to create init storage file: ".to_owned();
    let detail = e.describe();
    m.append(detail.as_str());
    m
}

/// The text sent when the stored snapshot cannot be read back.
pub fn load_failure_message(e: &StorageError) -> (m: String)
    ensures
        m@ == spec_load_failure_message(*e),
{
    let mut m = "Unable to read stored state: ".to_owned();
    let detail = e.describe();
    m.append(detail.as_str());
    m
}

/// Every notification text of one diff, in order.
#[verifier::loop_isolation(false)]
pub fn diff_messages(prev: &CurrentState, curr: &CurrentState) -> (msgs: Vec<String>)
    requires
        prev.wf(),
        curr.wf(),
    ensures
        text_views(msgs@) == spec_diff_messages(prev@, *curr),
{
    let events = diff_states(prev, curr);
    let mut msgs: Vec<String> = Vec::new();
    proof {
        assert(text_views(msgs@) =~= spec_messages(events@.take(0)));
    }
    let mut i: usize = 0;
    while i < events.len()
        invariant
            i <= events@.len(),
            text_views(msgs@) == spec_messages(events@.take(i as int)),
        decreases events.len() - i,
    {
        let ghost before = msgs@;
        msgs.push(event_message(&events[i]));
        proof {
            assert(msgs@.drop_last() =~= before);
            let t = events@.take(i + 1);
            assert(t.drop_last() =~= events@.take(i as int));
            assert(t.last() == events@[i as int]);
            assert(text_views(msgs@) =~= spec_messages(t));
        }
        i += 1;
    }
    proof {
        assert(events@.take(events@.len() as int) =~= events@);
        lemma_messages_of_diff(*prev, *curr);
    }
    msgs
}

/// The texts of a diff's events are exactly the diff's message list.
proof fn lemma_messages_of_diff(prev: CurrentState, curr: CurrentState)
    ensures
        spec_messages(spec_diff_events(prev, curr)) == spec_diff_messages(prev@, curr),
{
    let a = spec_ip_events(prev, curr);
    let b = spec_completion_events(prev@, curr.queue@);
    lemma_spec_messages_concat(a, b);
    if prev.ip@ != curr.ip@ {
        assert(a.drop_last() =~= Seq::<Event>::empty());
        assert(spec_messages(Seq::<Event>::empty()) == Seq::<Seq<char>>::empty());
        assert(a.last() == Event::IpChanged { old_ip: prev.ip, new_ip: curr.ip });
        assert(spec_messages(a) =~= seq!["IP changed from "@ + prev.ip@ + " to "@ + curr.ip@]);
    } else {
        assert(spec_messages(a) =~= Seq::<Seq<char>>::empty());
    }
    assert(spec_messages(a + b) =~= spec_messages(a) + spec_messages(b));
    assert(spec_messages(spec_diff_events(prev, curr)) =~= spec_diff_messages(prev@, curr));
}

proof fn lemma_spec_messages_concat(a: Seq<Event>, b: Seq<Event>)
    ensures
        spec_messages(a + b) == spec_messages(a) + spec_messages(b),
    decreases b.len(),
{
    if b.len() == 0 {
        assert(a + b =~= a);
        assert(spec_messages(a) + spec_messages(b) =~= spec_messages(a));
    } else {
        lemma_spec_messages_concat(a, b.drop_last());
        assert((a + b).drop_last() =~= a + b.drop_last());
        assert((a + b).last() == b.last());
        assert(spec_messages(a) + spec_messages(b.drop_last()).push(spec_event_message(b.last()))
            =~= (spec_messages(a) + spec_messages(b.drop_last())).push(
            spec_event_message(b.last()),
        ));
    }
}

/// The engine's decision right after the fetch step: carry the fetched
/// snapshot into the cycle, or abort the cycle with one notification and no
/// store access at all.
pub enum FetchDecision {
    Proceed(CurrentState),
    Abort { message: String },
}

/// Decide the cycle's fate from the fetch step's outcome. A fetch failure
/// ends the cycle early: it is reported, and the store is neither read nor
/// written in that cycle.
pub fn plan_after_fetch(fetch: Result<CurrentState, FetchError>) -> (d: FetchDecision)
    ensures
        d is Proceed <==> fetch is Ok,
        match d {
            FetchDecision::Proceed(s) => (fetch matches Ok(c) && s == c),
            FetchDecision::Abort { message } => (fetch matches Err(e) && message@
                == spec_fetch_failure_message(e)),
        },
{
    match fetch {
        Ok(s) => FetchDecision::Proceed(s),
        Err(e) => FetchDecision::Abort { message: fetch_failure_message(&e) },
    }
}

/// What loading the previous snapshot from the host's store came to.
pub enum LoadOutcome {
    /// A previous snapshot exists.
    Found(CurrentState),
    /// No previous snapshot exists yet: the first run.
    NotFound,
    /// The store exists but could not be read back; distinguished from
    /// `NotFound` so that bootstrap never overwrites real, if unreadable,
    /// state.
    Failed(StorageError),
}

/// Which store operation the cycle performs after the diff step.
pub enum StoreAction {
    /// Replace the stored snapshot wholly with the current one.
    SaveCurrent,
    /// Create the stored snapshot for the first time.
    InitializeCurrent,
    /// Leave the store untouched.
    NoAccess,
}

/// One cycle's remaining work once the current snapshot is fetched and the
/// previous one was looked up: the notifications to deliver and the store
/// operation to perform.
pub struct CyclePlan {
    pub notifications: Vec<String>,
    pub action: StoreAction,
}

/// Plan the rest of a cycle. With a previous snapshot the plan is the diff's
/// notifications and a save; on the first run there is nothing to notify and
/// the current snapshot is initialized; an unreadable store ends the cycle
/// with one notification and no store access.
pub fn plan_with_previous(curr: &CurrentState, previous: &LoadOutcome) -> (plan: CyclePlan)
    requires
        curr.wf(),
        previous matches LoadOutcome::Found(p) ==> p.wf(),
    ensures
        match *previous {
            LoadOutcome::Found(p) => plan.action is SaveCurrent && text_views(
                plan.notifications@,
            ) == spec_diff_messages(p@, *curr),
            LoadOutcome::NotFound => plan.action is InitializeCurrent
                && plan.notifications@.len() == 0,
            LoadOutcome::Failed(e) => plan.action is NoAccess && plan.notifications@.len() == 1
                && plan.notifications@[0]@ == spec_load_failure_message(e),
        },
{
    match previous {
        LoadOutcome::Found(p) => CyclePlan {
            notifications: diff_messages(p, curr),
            action: StoreAction::SaveCurrent,
        },
        LoadOutcome::NotFound => CyclePlan {
            notifications: Vec::new(),
            action: StoreAction::InitializeCurrent,
        },
        LoadOutcome::Failed(e) => {
            let mut notifications: Vec<String> = Vec::new();
            notifications.push(load_failure_message(e));
            CyclePlan { notifications, action: StoreAction::NoAccess }
        },
    }
}

/// Run one whole cycle against an in-memory slot: fetch outcome in,
/// notifications out. A fetch failure leaves the slot untouched and reports
/// once; on the first run the current snapshot is initialized and nothing is
/// notified; otherwise the diff's notifications are owed and the current
/// snapshot replaces the stored one.
pub fn run_cycle(fetch: Result<CurrentState, FetchError>, slot: &mut SnapshotSlot) -> (notifications:
    Vec<String>)
    requires
        old(slot).wf(),
        (fetch matches Ok(s) ==> s.wf()),
    ensures
        final(slot).wf(),
        match fetch {
            Err(e) => final(slot)@ == old(slot)@ && notifications@.len() == 1
                && notifications@[0]@ == spec_fetch_failure_message(e),
            Ok(s) => final(slot)@ == Some(s@) && match old(slot)@ {
                None => notifications@.len() == 0,
                Some(prev) => text_views(notifications@) == spec_diff_messages(prev, s),
            },
        },
{
    match plan_after_fetch(fetch) {
        FetchDecision::Abort { message } => {
            let mut notifications: Vec<String> = Vec::new();
            notifications.push(message);
            notifications
        },
        FetchDecision::Proceed(s) => {
            let loaded = slot.load();
            let first_run = loaded.is_none();
            let notifications: Vec<String> = match loaded {
                Some(prev) => diff_messages(prev, &s),
                None => Vec::new(),
            };
            if first_run {
                match slot.initialize(&s) {
                    Ok(()) => {},
                    Err(_) => {
                        proof {
                            assert(false);
                        }
                    },
                }
            } else {
                slot.save(&s);
            }
            notifications
        },
    }
}

} // verus!
