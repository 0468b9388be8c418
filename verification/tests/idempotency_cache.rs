use newsletter::idempotency::{
    get_saved_response, save_response, try_processing, IdempotencyError, IdempotencyKey,
    NextAction,
};
use newsletter::newsletter::{
    error_status, publish_newsletter, publish_newsletter_with, FormData, PublishError,
};
use newsletter::response::{HeaderPair, HttpResponse};
use newsletter::store::{
    IdempotencyRecord, ResponseColumns, Store, Subscriber, SubscriberStatus,
};

fn publish_form(key: &str) -> FormData {
    FormData {
        title: "Issue one".to_string(),
        text_content: "plain text".to_string(),
        html_content: "<p>html</p>".to_string(),
        idempotency_key: key.to_string(),
    }
}

fn confirmed(id: u128, email: &str) -> Subscriber {
    Subscriber {
        id,
        name: "reader".to_string(),
        email: email.to_string(),
        status: SubscriberStatus::Confirmed,
    }
}

#[test]
fn first_publish_executes_and_returns_see_other() {
    let mut store = Store::new();
    store.subscriptions.push(confirmed(1, "a@example.com"));
    store.subscriptions.push(confirmed(2, "b@example.com"));
    let r = publish_newsletter_with(&mut store, 7, publish_form("key-1"), 100, "t0".to_string());
    let resp = r.unwrap();
    assert_eq!(resp.status, 303);
    assert_eq!(resp.headers.len(), 1);
    assert_eq!(resp.headers[0].name, b"location".to_vec());
    assert_eq!(resp.headers[0].value, b"/admin/newsletters".to_vec());
    assert!(resp.body.is_empty());
    assert_eq!(store.newsletter_issues.len(), 1);
    assert_eq!(store.newsletter_issues[0].id, 100);
    assert_eq!(store.newsletter_issues[0].title, "Issue one");
    assert_eq!(store.issue_delivery_queue.len(), 2);
    assert_eq!(store.issue_delivery_queue[0].subscriber_email, "a@example.com");
    assert_eq!(store.issue_delivery_queue[1].subscriber_email, "b@example.com");
    assert_eq!(store.idempotency.len(), 1);
}

#[test]
fn idempotent_replay_creates_one_issue_and_identical_responses() {
    let mut store = Store::new();
    store.subscriptions.push(confirmed(1, "a@example.com"));
    let r1 = publish_newsletter_with(&mut store, 7, publish_form("key-1"), 100, "t0".to_string())
        .unwrap();
    let issues_after_first = store.newsletter_issues.len();
    let tasks_after_first = store.issue_delivery_queue.len();
    // Identical body and key, fresh id and timestamp: replayed, not re-run.
    let r2 = publish_newsletter_with(&mut store, 7, publish_form("key-1"), 101, "t1".to_string())
        .unwrap();
    assert_eq!(r1, r2);
    assert_eq!(store.newsletter_issues.len(), issues_after_first);
    assert_eq!(store.newsletter_issues.len(), 1);
    assert_eq!(store.issue_delivery_queue.len(), tasks_after_first);
    assert_eq!(store.idempotency.len(), 1);
}

#[test]
fn isolation_many_requests_one_key_one_side_effect() {
    let mut store = Store::new();
    store.subscriptions.push(confirmed(1, "a@example.com"));
    // Five linearized requests with the same key, as the unique constraint
    // serializes concurrent ones.
    let mut responses = Vec::new();
    for n in 0..5u128 {
        let r = publish_newsletter_with(
            &mut store,
            7,
            publish_form("shared-key"),
            100 + n,
            format!("t{}", n),
        )
        .unwrap();
        responses.push(r);
    }
    assert_eq!(store.newsletter_issues.len(), 1);
    assert_eq!(store.issue_delivery_queue.len(), 1);
    assert_eq!(store.idempotency.len(), 1);
    for r in &responses {
        assert_eq!(r, &responses[0]);
    }
}

#[test]
fn different_keys_publish_independently() {
    let mut store = Store::new();
    store.subscriptions.push(confirmed(1, "a@example.com"));
    publish_newsletter_with(&mut store, 7, publish_form("key-a"), 100, "t0".to_string()).unwrap();
    publish_newsletter_with(&mut store, 7, publish_form("key-b"), 101, "t1".to_string()).unwrap();
    assert_eq!(store.newsletter_issues.len(), 2);
    assert_eq!(store.issue_delivery_queue.len(), 2);
}

#[test]
fn same_key_different_users_publish_independently() {
    let mut store = Store::new();
    publish_newsletter_with(&mut store, 7, publish_form("key-a"), 100, "t0".to_string()).unwrap();
    publish_newsletter_with(&mut store, 8, publish_form("key-a"), 101, "t1".to_string()).unwrap();
    assert_eq!(store.newsletter_issues.len(), 2);
}

#[test]
fn header_body_fidelity_round_trip_with_repeated_header() {
    let mut store = Store::new();
    let key = IdempotencyKey::try_from("round-trip".to_string()).unwrap();
    let txn = match try_processing(&store, &key, 9, "t0".to_string()).unwrap() {
        NextAction::StartProcessing(t) => t,
        NextAction::ReturnSavedResponse(_) => panic!("fresh key must reserve"),
    };
    let original = HttpResponse {
        status: 200,
        headers: vec![
            HeaderPair { name: b"content-type".to_vec(), value: b"text/html".to_vec() },
            HeaderPair { name: b"set-cookie".to_vec(), value: b"a=1".to_vec() },
            HeaderPair { name: b"set-cookie".to_vec(), value: vec![0, 159, 146, 150] },
        ],
        body: vec![1, 2, 3, 0, 255],
    };
    let returned = save_response(&mut store, txn, original.clone());
    assert_eq!(returned, original);
    // Replay path: begin again with the same key.
    match try_processing(&store, &key, 9, "t1".to_string()).unwrap() {
        NextAction::ReturnSavedResponse(replayed) => assert_eq!(replayed, original),
        NextAction::StartProcessing(_) => panic!("completed key must replay"),
    }
    // And the direct lookup agrees.
    let looked_up = get_saved_response(&store, &key, 9).unwrap().unwrap();
    assert_eq!(looked_up, original);
}

#[test]
fn abandoned_reservation_leaves_store_unchanged_and_retry_executes() {
    let mut store = Store::new();
    store.subscriptions.push(confirmed(1, "a@example.com"));
    let key = IdempotencyKey::try_from("will-abandon".to_string()).unwrap();
    {
        // Reserve and stage, then drop the transaction without completing:
        // the failure path between execute/enqueue and commit.
        let txn = match try_processing(&store, &key, 9, "t0".to_string()).unwrap() {
            NextAction::StartProcessing(t) => t,
            NextAction::ReturnSavedResponse(_) => panic!("fresh key must reserve"),
        };
        drop(txn);
    }
    assert_eq!(store.idempotency.len(), 0);
    assert_eq!(store.newsletter_issues.len(), 0);
    assert_eq!(store.issue_delivery_queue.len(), 0);
    // A retry with the same key re-reserves and re-executes cleanly.
    let r = publish_newsletter_with(
        &mut store,
        9,
        publish_form("will-abandon"),
        100,
        "t1".to_string(),
    );
    assert!(r.is_ok());
    assert_eq!(store.newsletter_issues.len(), 1);
    assert_eq!(store.issue_delivery_queue.len(), 1);
    assert_eq!(store.idempotency.len(), 1);
}

#[test]
fn reserved_record_on_replay_is_a_fatal_error() {
    let mut store = Store::new();
    // A reservation whose owner crashed before completing.
    store.idempotency.push(IdempotencyRecord {
        user_id: 9,
        idempotency_key: "stuck".to_string(),
        created_at: "t0".to_string(),
        response: None,
    });
    let key = IdempotencyKey::try_from("stuck".to_string()).unwrap();
    match try_processing(&store, &key, 9, "t1".to_string()) {
        Err(IdempotencyError::ExpectedSavedResponse) => {},
        other => panic!("expected the expected-saved-response error, got {:?}", other.is_ok()),
    }
    let r = publish_newsletter_with(&mut store, 9, publish_form("stuck"), 100, "t1".to_string());
    assert_eq!(r.unwrap_err(), PublishError::ExpectedSavedResponse);
}

#[test]
fn corrupt_saved_response_is_a_fatal_error() {
    let mut store = Store::new();
    // Completed record whose header bytes are not a valid framing.
    store.idempotency.push(IdempotencyRecord {
        user_id: 9,
        idempotency_key: "corrupt".to_string(),
        created_at: "t0".to_string(),
        response: Some(ResponseColumns {
            response_status_code: 200,
            response_headers: vec![1, 2, 3],
            response_body: vec![],
        }),
    });
    let key = IdempotencyKey::try_from("corrupt".to_string()).unwrap();
    match get_saved_response(&store, &key, 9) {
        Err(IdempotencyError::CorruptSavedResponse) => {},
        _ => panic!("expected the corrupt-saved-response error"),
    }
    // A status outside 100..=999 is equally unusable.
    store.idempotency[0].response.as_mut().unwrap().response_headers = Vec::new();
    store.idempotency[0].response.as_mut().unwrap().response_status_code = 42;
    match get_saved_response(&store, &key, 9) {
        Err(IdempotencyError::CorruptSavedResponse) => {},
        _ => panic!("expected the corrupt-saved-response error"),
    }
}

#[test]
fn missing_key_lookup_returns_none() {
    let store = Store::new();
    let key = IdempotencyKey::try_from("unseen".to_string()).unwrap();
    assert!(get_saved_response(&store, &key, 9).unwrap().is_none());
}

#[test]
fn malformed_idempotency_key_is_rejected_before_storage() {
    let mut store = Store::new();
    for bad in ["", "has space", "semi;colon", &"x".repeat(51)] {
        let r = publish_newsletter_with(&mut store, 7, publish_form(bad), 100, "t0".to_string());
        assert_eq!(r.unwrap_err(), PublishError::InvalidIdempotencyKey);
        assert_eq!(store.idempotency.len(), 0);
        assert_eq!(store.newsletter_issues.len(), 0);
    }
}

#[test]
fn idempotency_key_grammar_accepts_the_allowed_set() {
    assert!(IdempotencyKey::try_from("a".to_string()).is_ok());
    assert!(IdempotencyKey::try_from("A-Z_09".to_string()).is_ok());
    assert!(IdempotencyKey::try_from("x".repeat(50)).is_ok());
    assert!(IdempotencyKey::try_from("x".repeat(51)).is_err());
    assert!(IdempotencyKey::try_from("".to_string()).is_err());
    assert!(IdempotencyKey::try_from("with.dot".to_string()).is_err());
    assert!(IdempotencyKey::try_from("f\u{fc}nf".to_string()).is_err());
}

#[test]
fn reused_issue_id_is_refused() {
    let mut store = Store::new();
    publish_newsletter_with(&mut store, 7, publish_form("key-a"), 100, "t0".to_string()).unwrap();
    let r = publish_newsletter_with(&mut store, 7, publish_form("key-b"), 100, "t1".to_string());
    assert_eq!(r.unwrap_err(), PublishError::IssueIdTaken);
    assert_eq!(store.newsletter_issues.len(), 1);
    assert_eq!(store.idempotency.len(), 1);
}

#[test]
fn publish_with_generated_id_and_timestamp() {
    let mut store = Store::new();
    store.subscriptions.push(confirmed(1, "a@example.com"));
    let r1 = publish_newsletter(&mut store, 7, publish_form("gen-key")).unwrap();
    assert_eq!(r1.status, 303);
    let r2 = publish_newsletter(&mut store, 7, publish_form("gen-key")).unwrap();
    assert_eq!(r1, r2);
    assert_eq!(store.newsletter_issues.len(), 1);
}

#[test]
fn error_status_maps_client_and_server_errors() {
    assert_eq!(error_status(&PublishError::InvalidIdempotencyKey), 400);
    assert_eq!(error_status(&PublishError::ExpectedSavedResponse), 500);
    assert_eq!(error_status(&PublishError::CorruptSavedResponse), 500);
    assert_eq!(error_status(&PublishError::IssueIdTaken), 500);
}
