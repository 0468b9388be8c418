use newsletter::domain::{validate_email, validate_subscriber_name, SubscriberEmail};
use newsletter::store::{Store, SubscriberStatus};
use newsletter::subscriptions::{
    confirmation_email, error_chain_fmt, generate_subscription_token, subscribe, subscribe_with,
    FormData, SubscribeError,
};

fn form(name: &str, email: &str) -> FormData {
    FormData {
        name: name.to_string(),
        email: email.to_string(),
        cf_turnstile_response: "test-token".to_string(),
    }
}

#[test]
fn subscribe_persists_a_pending_subscriber_and_its_token() {
    let mut store = Store::new();
    let r = subscribe_with(
        &mut store,
        form("abood", "3la_el_7doood@yahoo.com"),
        true,
        "https://news.example.com",
        11,
        "tok1234567890tok1234567890".to_string(),
        "t0".to_string(),
    )
    .unwrap();
    assert_eq!(r.redirect_to, "/?subscribed=true");
    assert_eq!(store.subscriptions.len(), 1);
    assert_eq!(store.subscriptions[0].id, 11);
    assert_eq!(store.subscriptions[0].name, "abood");
    assert_eq!(store.subscriptions[0].email, "3la_el_7doood@yahoo.com");
    assert_eq!(store.subscriptions[0].status, SubscriberStatus::PendingConfirmation);
    assert_eq!(store.subscription_tokens.len(), 1);
    assert_eq!(store.subscription_tokens[0].subscription_token, "tok1234567890tok1234567890");
    assert_eq!(store.subscription_tokens[0].subscriber_id, 11);
    let email = r.confirmation.unwrap();
    assert_eq!(email.recipient.as_str(), "3la_el_7doood@yahoo.com");
    assert_eq!(email.subject, "Willkommen!");
    let link = "https://news.example.com/subscriptions/confirm?subscription_token=tok1234567890tok1234567890";
    assert_eq!(
        email.plain_body,
        format!(
            "Willkommen zu unserem newzletter!\nVisit {} to confirm your subscription.",
            link
        )
    );
    assert_eq!(
        email.html_body,
        format!(
            "Willkommen zu unserem newzletter!<br />Click <a href=\"{}\">here</a> to confirm your subscription.",
            link
        )
    );
}

#[test]
fn duplicate_email_acknowledges_without_a_second_row_or_email() {
    let mut store = Store::new();
    subscribe_with(
        &mut store,
        form("abood", "dup@example.com"),
        true,
        "https://b",
        11,
        "token-one".to_string(),
        "t0".to_string(),
    )
    .unwrap();
    let r = subscribe_with(
        &mut store,
        form("someone else", "dup@example.com"),
        true,
        "https://b",
        12,
        "token-two".to_string(),
        "t1".to_string(),
    )
    .unwrap();
    assert_eq!(r.redirect_to, "/?subscribed=true");
    assert!(r.confirmation.is_none());
    assert_eq!(store.subscriptions.len(), 1);
    assert_eq!(store.subscription_tokens.len(), 1);
}

#[test]
fn failed_turnstile_rejects_without_touching_storage() {
    let mut store = Store::new();
    let r = subscribe_with(
        &mut store,
        form("abood", "a@example.com"),
        false,
        "https://b",
        11,
        "token-one".to_string(),
        "t0".to_string(),
    );
    assert!(matches!(r.unwrap_err(), SubscribeError::TurnstileError));
    assert!(store.subscriptions.is_empty());
    assert!(store.subscription_tokens.is_empty());
}

#[test]
fn invalid_name_or_email_is_a_validation_error() {
    let mut store = Store::new();
    let r = subscribe_with(
        &mut store,
        form("", "hamada123@yahoo.com"),
        true,
        "https://b",
        11,
        "token-one".to_string(),
        "t0".to_string(),
    );
    let e = r.unwrap_err();
    assert!(matches!(e, SubscribeError::ValidationError(_)));
    assert_eq!(e.redirect_location(), "/?error=validation");
    let r2 = subscribe_with(
        &mut store,
        form("hamada", "definitely-not-(blitzcrank)-an-email"),
        true,
        "https://b",
        11,
        "token-one".to_string(),
        "t0".to_string(),
    );
    assert!(matches!(r2.unwrap_err(), SubscribeError::ValidationError(_)));
    assert!(store.subscriptions.is_empty());
    assert!(store.subscription_tokens.is_empty());
}

#[test]
fn colliding_id_or_token_aborts_with_nothing_committed() {
    let mut store = Store::new();
    subscribe_with(
        &mut store,
        form("first", "first@example.com"),
        true,
        "https://b",
        11,
        "token-one".to_string(),
        "t0".to_string(),
    )
    .unwrap();
    // Same generated subscriber id.
    let r = subscribe_with(
        &mut store,
        form("second", "second@example.com"),
        true,
        "https://b",
        11,
        "token-two".to_string(),
        "t1".to_string(),
    );
    let e = r.unwrap_err();
    assert!(matches!(e, SubscribeError::UnexpectedError(_)));
    assert_eq!(e.redirect_location(), "/?error=server");
    assert_eq!(store.subscriptions.len(), 1);
    assert_eq!(store.subscription_tokens.len(), 1);
    // Same generated token.
    let r2 = subscribe_with(
        &mut store,
        form("second", "second@example.com"),
        true,
        "https://b",
        12,
        "token-one".to_string(),
        "t1".to_string(),
    );
    assert!(matches!(r2.unwrap_err(), SubscribeError::UnexpectedError(_)));
    assert_eq!(store.subscriptions.len(), 1);
    assert_eq!(store.subscription_tokens.len(), 1);
}

#[test]
fn subscribe_with_generated_id_and_token() {
    let mut store = Store::new();
    let r = subscribe(&mut store, form("abood", "gen@example.com"), true, "https://b").unwrap();
    assert_eq!(r.redirect_to, "/?subscribed=true");
    assert_eq!(store.subscriptions.len(), 1);
    assert_eq!(store.subscription_tokens.len(), 1);
    // The stored token is the one in the confirmation link.
    let email = r.confirmation.unwrap();
    assert!(email
        .plain_body
        .contains(&store.subscription_tokens[0].subscription_token));
}

#[test]
fn generated_token_is_25_alphanumeric_characters() {
    let t1 = generate_subscription_token();
    let t2 = generate_subscription_token();
    assert_eq!(t1.chars().count(), 25);
    assert!(t1.chars().all(|c| c.is_ascii_alphanumeric()));
    assert!(t2.chars().all(|c| c.is_ascii_alphanumeric()));
    // 62^25 values: two draws colliding would point at a broken generator.
    assert_ne!(t1, t2);
}

#[test]
fn email_grammar_accepts_and_rejects() {
    assert!(validate_email("3la_el_7doood@yahoo.com"));
    assert!(validate_email("a@b.c"));
    assert!(validate_email("x@y"));
    assert!(!validate_email(""));
    assert!(!validate_email("definitely-not-(blitzcrank)-an-email"));
    assert!(!validate_email("two@@ats.com"));
    assert!(!validate_email("a@"));
    assert!(!validate_email("@b.com"));
    assert!(!validate_email("with space@x.com"));
    assert!(!validate_email("f\u{fc}nf@x.com"));
    assert!(!validate_email(&format!("{}@x.com", "a".repeat(320))));
}

#[test]
fn name_grammar_accepts_and_rejects() {
    assert!(validate_subscriber_name("hamada"));
    assert!(validate_subscriber_name("Ursula von der K\u{f6}nigin"));
    assert!(!validate_subscriber_name(""));
    assert!(!validate_subscriber_name("   "));
    assert!(!validate_subscriber_name("name(with)parens"));
    assert!(!validate_subscriber_name("a/b"));
    assert!(!validate_subscriber_name("<script>"));
    assert!(validate_subscriber_name(&"n".repeat(256)));
    assert!(!validate_subscriber_name(&"n".repeat(257)));
}

#[test]
fn subscriber_email_parse_keeps_the_address() {
    let e = SubscriberEmail::parse("keeper@example.com".to_string()).unwrap();
    assert_eq!(e.as_str(), "keeper@example.com");
    assert!(SubscriberEmail::parse("nope".to_string()).is_err());
}

#[test]
fn confirmation_email_builds_the_exact_bodies() {
    let recipient = SubscriberEmail::parse("r@example.com".to_string()).unwrap();
    let email = confirmation_email(recipient, "https://base", "tok");
    assert_eq!(
        email.plain_body,
        "Willkommen zu unserem newzletter!\nVisit https://base/subscriptions/confirm?subscription_token=tok to confirm your subscription."
    );
    assert_eq!(
        email.html_body,
        "Willkommen zu unserem newzletter!<br />Click <a href=\"https://base/subscriptions/confirm?subscription_token=tok\">here</a> to confirm your subscription."
    );
    assert_eq!(email.subject, "Willkommen!");
}

#[test]
fn error_chain_renders_message_and_causes() {
    let msg = "publish failed".to_string();
    let causes = vec!["storage unavailable".to_string(), "connection refused".to_string()];
    assert_eq!(
        error_chain_fmt(&msg, &causes),
        "publish failed\n\nCaused by:\n\tstorage unavailable\nCaused by:\n\tconnection refused\n"
    );
    assert_eq!(error_chain_fmt(&"alone".to_string(), &Vec::new()), "alone\n\n");
}
