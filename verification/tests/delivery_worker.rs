use newsletter::issue_delivery_worker::{
    dequeue_task, get_issue, try_execute_task, worker_backoff_seconds, DeliveryAction,
    ExecutionOutcome, WorkerError,
};
use newsletter::newsletter::{publish_newsletter_with, FormData};
use newsletter::store::{DeliveryTask, NewsletterIssue, Store, Subscriber, SubscriberStatus};

fn issue(id: u128, title: &str) -> NewsletterIssue {
    NewsletterIssue {
        id,
        title: title.to_string(),
        text_content: "text body".to_string(),
        html_content: "<p>html body</p>".to_string(),
        published_at: "t0".to_string(),
    }
}

fn task(issue_id: u128, email: &str) -> DeliveryTask {
    DeliveryTask { newsletter_issue_id: issue_id, subscriber_email: email.to_string() }
}

fn subscriber(id: u128, email: &str, status: SubscriberStatus) -> Subscriber {
    Subscriber { id, name: "reader".to_string(), email: email.to_string(), status }
}

#[test]
fn empty_queue_attempt_reports_empty_and_changes_nothing() {
    let mut store = Store::new();
    store.newsletter_issues.push(issue(1, "a"));
    let r = try_execute_task(&mut store).unwrap();
    assert_eq!(r.0, ExecutionOutcome::EmptyQueue);
    assert!(r.1.is_none());
    assert_eq!(store.newsletter_issues.len(), 1);
    assert_eq!(store.issue_delivery_queue.len(), 0);
}

#[test]
fn valid_task_completes_with_the_send_to_perform() {
    let mut store = Store::new();
    store.newsletter_issues.push(issue(1, "Issue one"));
    store.issue_delivery_queue.push(task(1, "reader@example.com"));
    let (outcome, action) = try_execute_task(&mut store).unwrap();
    assert_eq!(outcome, ExecutionOutcome::TaskCompleted);
    match action.unwrap() {
        DeliveryAction::SendEmail { subscriber_email, title, html_content, text_content } => {
            assert_eq!(subscriber_email.as_str(), "reader@example.com");
            assert_eq!(title, "Issue one");
            assert_eq!(html_content, "<p>html body</p>");
            assert_eq!(text_content, "text body");
        },
        DeliveryAction::SkipInvalid { .. } => panic!("valid address must be sent"),
    }
    assert_eq!(store.issue_delivery_queue.len(), 0);
}

#[test]
fn malformed_recipient_is_dropped_not_retried() {
    let mut store = Store::new();
    store.newsletter_issues.push(issue(1, "Issue one"));
    store.issue_delivery_queue.push(task(1, "not-an-address"));
    store.issue_delivery_queue.push(task(1, "ok@example.com"));
    let (outcome, action) = try_execute_task(&mut store).unwrap();
    assert_eq!(outcome, ExecutionOutcome::TaskCompleted);
    match action.unwrap() {
        DeliveryAction::SkipInvalid { subscriber_email } => {
            assert_eq!(subscriber_email, "not-an-address");
        },
        DeliveryAction::SendEmail { .. } => panic!("malformed address must be skipped"),
    }
    // The malformed task is gone and never reappears: only the valid one
    // remains, and draining further empties the queue for good.
    assert_eq!(store.issue_delivery_queue.len(), 1);
    assert_eq!(store.issue_delivery_queue[0].subscriber_email, "ok@example.com");
    let (o2, _) = try_execute_task(&mut store).unwrap();
    assert_eq!(o2, ExecutionOutcome::TaskCompleted);
    let (o3, _) = try_execute_task(&mut store).unwrap();
    assert_eq!(o3, ExecutionOutcome::EmptyQueue);
    assert!(store.issue_delivery_queue.is_empty());
}

#[test]
fn queue_drains_to_empty_after_publish() {
    let mut store = Store::new();
    store.subscriptions.push(subscriber(1, "a@example.com", SubscriberStatus::Confirmed));
    store.subscriptions.push(subscriber(2, "b@example.com", SubscriberStatus::PendingConfirmation));
    store.subscriptions.push(subscriber(3, "c@example.com", SubscriberStatus::Confirmed));
    store.subscriptions.push(subscriber(4, "d@example.com", SubscriberStatus::Confirmed));
    let form = FormData {
        title: "Issue one".to_string(),
        text_content: "text".to_string(),
        html_content: "<p>x</p>".to_string(),
        idempotency_key: "key-1".to_string(),
    };
    publish_newsletter_with(&mut store, 7, form, 100, "t0".to_string()).unwrap();
    // K = 3 confirmed subscribers: exactly 3 completed tasks, then empty.
    assert_eq!(store.issue_delivery_queue.len(), 3);
    for _ in 0..3 {
        let (outcome, action) = try_execute_task(&mut store).unwrap();
        assert_eq!(outcome, ExecutionOutcome::TaskCompleted);
        assert!(action.is_some());
    }
    let (outcome, action) = try_execute_task(&mut store).unwrap();
    assert_eq!(outcome, ExecutionOutcome::EmptyQueue);
    assert!(action.is_none());
    assert!(store.issue_delivery_queue.is_empty());
    // Later subscribers are not retroactively included.
    assert_eq!(store.newsletter_issues.len(), 1);
}

#[test]
fn missing_issue_is_a_data_integrity_error_and_the_task_is_gone() {
    let mut store = Store::new();
    store.issue_delivery_queue.push(task(42, "reader@example.com"));
    let r = try_execute_task(&mut store);
    assert_eq!(r.unwrap_err(), WorkerError::IssueMissing { newsletter_issue_id: 42 });
    // The claim removed the task before the lookup failed.
    assert!(store.issue_delivery_queue.is_empty());
}

#[test]
fn dequeue_claims_the_first_task_exactly_once() {
    let mut store = Store::new();
    store.issue_delivery_queue.push(task(1, "a@example.com"));
    store.issue_delivery_queue.push(task(2, "b@example.com"));
    let t1 = dequeue_task(&mut store).unwrap();
    assert_eq!(t1.newsletter_issue_id, 1);
    let t2 = dequeue_task(&mut store).unwrap();
    assert_eq!(t2.newsletter_issue_id, 2);
    assert!(dequeue_task(&mut store).is_none());
}

#[test]
fn get_issue_finds_the_row_or_reports_the_fault() {
    let mut store = Store::new();
    store.newsletter_issues.push(issue(5, "Issue five"));
    let found = get_issue(&store, 5).unwrap();
    assert_eq!(found.title, "Issue five");
    assert_eq!(
        get_issue(&store, 6).unwrap_err(),
        WorkerError::IssueMissing { newsletter_issue_id: 6 }
    );
}

#[test]
fn worker_backoff_policy() {
    assert_eq!(worker_backoff_seconds(&Ok((ExecutionOutcome::EmptyQueue, None))), 10);
    assert_eq!(worker_backoff_seconds(&Ok((ExecutionOutcome::TaskCompleted, None))), 0);
    assert_eq!(
        worker_backoff_seconds(&Err(WorkerError::IssueMissing { newsletter_issue_id: 1 })),
        1
    );
}
