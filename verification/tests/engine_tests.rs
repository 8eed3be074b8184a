use queuewatch::engine::CyclePlan;
use queuewatch::engine::FetchDecision;
use queuewatch::engine::LoadOutcome;
use queuewatch::engine::StoreAction;
use queuewatch::engine::diff_messages;
use queuewatch::engine::event_message;
use queuewatch::engine::fetch_failure_message;
use queuewatch::engine::init_failure_message;
use queuewatch::engine::load_failure_message;
use queuewatch::engine::plan_after_fetch;
use queuewatch::engine::plan_with_previous;
use queuewatch::engine::run_cycle;
use queuewatch::engine::save_failure_message;
use queuewatch::diff::Event;
use queuewatch::fetch::AuthError;
use queuewatch::fetch::FetchError;
use queuewatch::state::CurrentState;
use queuewatch::store::SnapshotSlot;
use queuewatch::store::StorageError;

fn snapshot(ip: &str, queue: Vec<(&str, f64)>) -> CurrentState {
    CurrentState {
        queue: queue.iter().map(|(k, v)| (k.to_string(), v.to_bits())).collect(),
        ip: ip.to_string(),
    }
}

#[test]
fn event_messages_read_as_expected() {
    assert_eq!(
        event_message(&Event::IpChanged {
            old_ip: "1.2.3.4".to_string(),
            new_ip: "5.6.7.8".to_string()
        }),
        "IP changed from 1.2.3.4 to 5.6.7.8".to_string()
    );
    assert_eq!(
        event_message(&Event::ItemCompleted { name: "A".to_string() }),
        "Done with A".to_string()
    );
}

#[test]
fn failure_messages_read_as_expected() {
    assert_eq!(
        fetch_failure_message(&FetchError::Auth(AuthError::LoginFailed)),
        "Unable to get current state: Login failed!".to_string()
    );
    assert_eq!(
        save_failure_message(&StorageError::Io("boom".to_string())),
        "Could not save current state: boom".to_string()
    );
    assert_eq!(
        init_failure_message(&StorageError::Io("boom".to_string())),
        "Unable to create init storage file: boom".to_string()
    );
    assert_eq!(
        load_failure_message(&StorageError::Io("boom".to_string())),
        "Unable to read stored state: boom".to_string()
    );
}

#[test]
fn completion_yields_one_message_and_no_ip_message() {
    let prev = snapshot("1.2.3.4", vec![("A", 50.0)]);
    let curr = snapshot("1.2.3.4", vec![("A", 100.0)]);
    assert_eq!(diff_messages(&prev, &curr), vec!["Done with A".to_string()]);
}

#[test]
fn ip_change_yields_one_message() {
    let prev = snapshot("1.2.3.4", vec![]);
    let curr = snapshot("5.6.7.8", vec![]);
    assert_eq!(
        diff_messages(&prev, &curr),
        vec!["IP changed from 1.2.3.4 to 5.6.7.8".to_string()]
    );
}

#[test]
fn a_successful_fetch_proceeds() {
    let s = snapshot("1.2.3.4", vec![]);
    match plan_after_fetch(Ok(s)) {
        FetchDecision::Proceed(c) => assert_eq!(c.ip, "1.2.3.4".to_string()),
        FetchDecision::Abort { .. } => panic!("a successful fetch must proceed"),
    }
}

#[test]
fn a_failed_fetch_aborts_with_one_message() {
    match plan_after_fetch(Err(FetchError::Transport("timed out".to_string()))) {
        FetchDecision::Proceed(_) => panic!("a failed fetch must abort"),
        FetchDecision::Abort { message } => assert_eq!(
            message,
            "Unable to get current state: transport failure: timed out".to_string()
        ),
    }
}

#[test]
fn planning_with_a_previous_snapshot_saves_and_notifies() {
    let prev = snapshot("1.2.3.4", vec![("A", 50.0)]);
    let curr = snapshot("1.2.3.4", vec![("A", 100.0)]);
    let plan: CyclePlan = plan_with_previous(&curr, &LoadOutcome::Found(prev));
    assert!(matches!(plan.action, StoreAction::SaveCurrent));
    assert_eq!(plan.notifications, vec!["Done with A".to_string()]);
}

#[test]
fn planning_on_first_run_initializes_and_stays_quiet() {
    let curr = snapshot("1.2.3.4", vec![("A", 100.0)]);
    let plan = plan_with_previous(&curr, &LoadOutcome::NotFound);
    assert!(matches!(plan.action, StoreAction::InitializeCurrent));
    assert!(plan.notifications.is_empty());
}

#[test]
fn planning_on_an_unreadable_store_leaves_it_untouched() {
    let curr = snapshot("1.2.3.4", vec![]);
    let plan = plan_with_previous(
        &curr,
        &LoadOutcome::Failed(StorageError::Io("corrupt".to_string())),
    );
    assert!(matches!(plan.action, StoreAction::NoAccess));
    assert_eq!(plan.notifications, vec!["Unable to read stored state: corrupt".to_string()]);
}

#[test]
fn first_cycle_initializes_and_stays_quiet() {
    let mut slot = SnapshotSlot::empty();
    let curr = snapshot("1.2.3.4", vec![("A", 100.0)]);
    let notifications = run_cycle(Ok(curr), &mut slot);
    assert!(notifications.is_empty());
    let stored = slot.load().expect("the first cycle stores its snapshot");
    assert_eq!(stored.ip, "1.2.3.4".to_string());
    assert_eq!(stored.queue, vec![("A".to_string(), (100.0f64).to_bits())]);
}

#[test]
fn a_failed_fetch_notifies_once_and_never_touches_the_store() {
    let mut slot = SnapshotSlot::empty();
    let body = "{\"error\":null,\"id\":1,\"result\":[]}";
    let fetched = queuewatch::fetch::parse_state_body(body, "queue");
    let err = fetched.expect_err("an array result is malformed");
    let notifications = run_cycle(Err(err), &mut slot);
    assert_eq!(
        notifications,
        vec![format!("Unable to get current state: malformed response, received: {}", body)]
    );
    assert!(slot.load().is_none());
}

#[test]
fn parsed_responses_drive_whole_cycles() {
    let mut slot = SnapshotSlot::empty();
    let first = "{\"error\":null,\"id\":1,\"result\":{\"stats\":{\"external_ip\":\"1.2.3.4\"},\
                  \"queue\":{\"t1\":{\"name\":\"A\",\"progress\":50.0}}}}";
    let second = "{\"error\":null,\"id\":1,\"result\":{\"stats\":{\"external_ip\":\"1.2.3.4\"},\
                   \"queue\":{\"t1\":{\"name\":\"A\",\"progress\":100.0}}}}";
    let quiet = run_cycle(queuewatch::fetch::parse_state_body(first, "queue"), &mut slot);
    assert!(quiet.is_empty());
    let notifications = run_cycle(queuewatch::fetch::parse_state_body(second, "queue"), &mut slot);
    assert_eq!(notifications, vec!["Done with A".to_string()]);
}

#[test]
fn a_full_cycle_diffs_saves_and_notifies() {
    let mut slot = SnapshotSlot::empty();
    run_cycle(Ok(snapshot("1.2.3.4", vec![("A", 50.0)])), &mut slot);
    let notifications = run_cycle(
        Ok(snapshot("5.6.7.8", vec![("A", 100.0), ("B", 10.0)])),
        &mut slot,
    );
    assert_eq!(
        notifications,
        vec![
            "IP changed from 1.2.3.4 to 5.6.7.8".to_string(),
            "Done with A".to_string(),
        ]
    );
    let stored = slot.load().expect("the cycle stores its snapshot");
    assert_eq!(stored.ip, "5.6.7.8".to_string());
}
