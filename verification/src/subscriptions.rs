//! The subscribe flow: validate the form, insert the subscriber as
//! pending, store a fresh confirmation token — one atomic commit — and
//! hand the embedding process the confirmation email to send. The
//! human-verification check and the send itself are outside work; their
//! outcomes come in and go out as plain values.
use crate::domain::{
    email_error_message, name_error_message, valid_email, valid_subscriber_name, NewSubscriber,
    SubscriberEmail, SubscriberName,
};
use crate::external;
use crate::store::{
    has_subscriber_email, has_subscriber_id, has_token, Store, StoreV, Subscriber,
    SubscriberStatus, SubscriberV, SubscriptionToken, SubscriptionTokenV,
};
use vstd::prelude::*;
use vstd::string::StringExecFns;

verus! {

/// The subscribe form: name, email, and the human-verification token the
/// client obtained.
pub struct FormData {
    pub name: String,
    pub email: String,
    pub cf_turnstile_response: String,
}

/// Mathematical image of `FormData`.
#[verifier::ext_equal]
pub struct FormDataV {
    pub name: Seq<char>,
    pub email: Seq<char>,
    pub cf_turnstile_response: Seq<char>,
}

impl View for FormData {
    type V = FormDataV;

    open spec fn view(&self) -> FormDataV {
        FormDataV {
            name: self.name@,
            email: self.email@,
            cf_turnstile_response: self.cf_turnstile_response@,
        }
    }
}

impl NewSubscriber {
    /// Validate a form into a subscriber: the name first, then the email,
    /// each against its grammar.
    pub fn try_from(value: FormData) -> (r: Result<NewSubscriber, String>)
        ensures
            !valid_subscriber_name(value@.name) ==> (r matches Err(m) && m@
                == name_error_message()),
            valid_subscriber_name(value@.name) && !valid_email(value@.email) ==> (r matches Err(m)
                && m@ == email_error_message()),
            valid_subscriber_name(value@.name) && valid_email(value@.email) ==> (r matches Ok(n)
                && n.name@ == value@.name && n.email@ == value@.email),
    {
        let name = match SubscriberName::parse(value.name) {
            Ok(n) => n,
            Err(m) => {
                return Err(m);
            },
        };
        let email = match SubscriberEmail::parse(value.email) {
            Ok(e) => e,
            Err(m) => {
                return Err(m);
            },
        };
        Ok(NewSubscriber { name, email })
    }
}

/// Why a subscribe request failed.
#[derive(Debug)]
pub enum SubscribeError {
    /// The form's name or email fails its grammar; the message says which.
    ValidationError(String),
    /// The human-verification check did not pass.
    TurnstileError,
    /// A storage-level fault; the message names the step.
    UnexpectedError(String),
}

/// Mathematical image of `SubscribeError`.
pub enum SubscribeErrorV {
    ValidationError(Seq<char>),
    TurnstileError,
    UnexpectedError(Seq<char>),
}

impl View for SubscribeError {
    type V = SubscribeErrorV;

    open spec fn view(&self) -> SubscribeErrorV {
        match self {
            SubscribeError::ValidationError(m) => SubscribeErrorV::ValidationError(m@),
            SubscribeError::TurnstileError => SubscribeErrorV::TurnstileError,
            SubscribeError::UnexpectedError(m) => SubscribeErrorV::UnexpectedError(m@),
        }
    }
}

impl SubscribeError {
    /// Where the client is redirected for each failure: a validation,
    /// captcha or server error page.
    pub fn redirect_location(&self) -> (r: &'static str)
        ensures
            self@ is ValidationError ==> r@ == "/?error=validation"@,
            self@ is TurnstileError ==> r@ == "/?error=captcha"@,
            self@ is UnexpectedError ==> r@ == "/?error=server"@,
    {
        match self {
            SubscribeError::ValidationError(_) => "/?error=validation",
            SubscribeError::TurnstileError => "/?error=captcha",
            SubscribeError::UnexpectedError(_) => "/?error=server",
        }
    }
}

/// A character a subscription token may contain: an ASCII letter or digit.
pub open spec fn is_token_char(c: char) -> bool {
    ('a' <= c && c <= 'z') || ('A' <= c && c <= 'Z') || ('0' <= c && c <= '9')
}

/// A fresh 25-character alphanumeric confirmation token, drawn from the
/// process's random generator.
pub fn generate_subscription_token() -> (r: String)
    ensures
        r@.len() == 25,
        forall|i: int| 0 <= i < r@.len() ==> is_token_char(#[trigger] r@[i]),
{
    let mut bytes: Vec<u8> = Vec::new();
    let mut i: usize = 0;
    while i < 25
        invariant
            bytes@.len() == i,
            0 <= i <= 25,
            forall|j: int|
                0 <= j < i ==> external::is_alphanumeric_byte(#[trigger] bytes@[j]),
        decreases 25 - i,
    {
        bytes.push(external::sample_alphanumeric_byte());
        i = i + 1;
    }
    proof {
        assert forall|j: int| 0 <= j < bytes@.len() implies bytes@[j] < 128 by {
            assert(external::is_alphanumeric_byte(bytes@[j]));
        }
    }
    let ghost bv = bytes@;
    let s = external::ascii_bytes_to_string(bytes);
    proof {
        assert forall|i2: int| 0 <= i2 < s@.len() implies is_token_char(#[trigger] s@[i2]) by {
            assert(s@[i2] == bv[i2] as char);
            assert(external::is_alphanumeric_byte(bv[i2]));
        }
    }
    s
}

/// The confirmation email the embedding process must send.
#[derive(Debug)]
pub struct ConfirmationEmail {
    pub recipient: SubscriberEmail,
    pub subject: String,
    pub html_body: String,
    pub plain_body: String,
}

/// Mathematical image of a `ConfirmationEmail`.
#[verifier::ext_equal]
pub struct ConfirmationEmailV {
    pub recipient: Seq<char>,
    pub subject: Seq<char>,
    pub html_body: Seq<char>,
    pub plain_body: Seq<char>,
}

impl View for ConfirmationEmail {
    type V = ConfirmationEmailV;

    open spec fn view(&self) -> ConfirmationEmailV {
        ConfirmationEmailV {
            recipient: self.recipient@,
            subject: self.subject@,
            html_body: self.html_body@,
            plain_body: self.plain_body@,
        }
    }
}

/// The link a new subscriber must visit to confirm.
pub open spec fn spec_confirmation_link(base_url: Seq<char>, token: Seq<char>) -> Seq<char> {
    base_url + "/subscriptions/confirm?subscription_token="@ + token
}

/// The plain-text body around the confirmation link.
pub open spec fn spec_plain_body(link: Seq<char>) -> Seq<char> {
    "Willkommen zu unserem newzletter!\nVisit "@ + link + " to confirm your subscription."@
}

/// The HTML body around the confirmation link.
pub open spec fn spec_html_body(link: Seq<char>) -> Seq<char> {
    "Willkommen zu unserem newzletter!<br />Click <a href=\""@ + link
        + "\">here</a> to confirm your subscription."@
}

/// The email sent to a new subscriber, built around the confirmation link.
pub open spec fn spec_confirmation_email(
    recipient: Seq<char>,
    base_url: Seq<char>,
    token: Seq<char>,
) -> ConfirmationEmailV {
    let link = spec_confirmation_link(base_url, token);
    ConfirmationEmailV {
        recipient,
        subject: "Willkommen!"@,
        html_body: spec_html_body(link),
        plain_body: spec_plain_body(link),
    }
}

/// Build the confirmation email for a recipient.
pub fn confirmation_email(
    recipient: SubscriberEmail,
    base_url: &str,
    subscription_token: &str,
) -> (r: ConfirmationEmail)
    ensures
        r@ == spec_confirmation_email(recipient@, base_url@, subscription_token@),
{
    let link = String::from_str(base_url).concat(
        "/subscriptions/confirm?subscription_token=",
    ).concat(subscription_token);
    let plain_body = String::from_str("Willkommen zu unserem newzletter!\nVisit ").concat(
        link.as_str(),
    ).concat(" to confirm your subscription.");
    let html_body = String::from_str(
        "Willkommen zu unserem newzletter!<br />Click <a href=\"",
    ).concat(link.as_str()).concat("\">here</a> to confirm your subscription.");
    ConfirmationEmail {
        recipient,
        subject: String::from_str("Willkommen!"),
        html_body,
        plain_body,
    }
}

/// What an accepted subscribe request asks the embedding process to do:
/// redirect the client, and send the confirmation email if one is due
/// (none is sent when the email was already registered).
#[derive(Debug)]
pub struct SubscriptionAccepted {
    pub redirect_to: &'static str,
    pub confirmation: Option<ConfirmationEmail>,
}

/// Mathematical image of `SubscriptionAccepted`.
#[verifier::ext_equal]
pub struct SubscriptionAcceptedV {
    pub redirect_to: Seq<char>,
    pub confirmation: Option<ConfirmationEmailV>,
}

impl View for SubscriptionAccepted {
    type V = SubscriptionAcceptedV;

    open spec fn view(&self) -> SubscriptionAcceptedV {
        SubscriptionAcceptedV {
            redirect_to: self.redirect_to@,
            confirmation: match self.confirmation {
                Some(ref c) => Some(c@),
                None => None,
            },
        }
    }
}

/// The message when a freshly generated subscriber id is already in use.
pub open spec fn insert_error_message() -> Seq<char> {
    "failed to insert new subscriber"@
}

/// The message when a freshly generated token is already in use.
pub open spec fn token_error_message() -> Seq<char> {
    "Failed to store the confirmation token for a new subscriber."@
}

/// The subscriber row a subscribe request inserts: pending confirmation.
pub open spec fn spec_new_subscriber_row(
    subscriber_id: u128,
    name: Seq<char>,
    email: Seq<char>,
) -> SubscriberV {
    SubscriberV {
        id: subscriber_id,
        name,
        email,
        status: SubscriberStatus::PendingConfirmation,
    }
}

/// One subscribe request as a transition on the store: the outcome handed
/// back, and the store afterwards. Either both rows (subscriber and token)
/// are committed or neither is.
pub open spec fn spec_subscribe(
    s: StoreV,
    form: FormDataV,
    turnstile_ok: bool,
    base_url: Seq<char>,
    subscriber_id: u128,
    token: Seq<char>,
) -> (Result<SubscriptionAcceptedV, SubscribeErrorV>, StoreV) {
    if !turnstile_ok {
        (Err(SubscribeErrorV::TurnstileError), s)
    } else if !valid_subscriber_name(form.name) {
        (Err(SubscribeErrorV::ValidationError(name_error_message())), s)
    } else if !valid_email(form.email) {
        (Err(SubscribeErrorV::ValidationError(email_error_message())), s)
    } else if has_subscriber_email(s.subscriptions, form.email) {
        // Already subscribed: acknowledge without leaking that fact and
        // without a second row or email.
        (
            Ok(
                SubscriptionAcceptedV {
                    redirect_to: "/?subscribed=true"@,
                    confirmation: None,
                },
            ),
            s,
        )
    } else if has_subscriber_id(s.subscriptions, subscriber_id) {
        (Err(SubscribeErrorV::UnexpectedError(insert_error_message())), s)
    } else if has_token(s.subscription_tokens, token) {
        (Err(SubscribeErrorV::UnexpectedError(token_error_message())), s)
    } else {
        let s2 = StoreV {
            subscriptions: s.subscriptions.push(
                spec_new_subscriber_row(subscriber_id, form.name, form.email),
            ),
            subscription_tokens: s.subscription_tokens.push(
                SubscriptionTokenV { subscription_token: token, subscriber_id },
            ),
            ..s
        };
        (
            Ok(
                SubscriptionAcceptedV {
                    redirect_to: "/?subscribed=true"@,
                    confirmation: Some(
                        spec_confirmation_email(form.email, base_url, token),
                    ),
                },
            ),
            s2,
        )
    }
}

/// Insert one subscriber row with status pending, honouring the unique
/// email and unique id constraints.
pub fn insert_subscriber(
    store: &mut Store,
    new_subscriber: &NewSubscriber,
    subscriber_id: u128,
    now: String,
) -> (r: Result<u128, SubscribeError>)
    requires
        old(store)@.wf(),
    ensures
        final(store)@.wf(),
        has_subscriber_email(old(store)@.subscriptions, new_subscriber.email@) ==> (r matches Err(
            e,
        ) && e@ == SubscribeErrorV::UnexpectedError(insert_error_message()) && final(store)@ == old(
            store,
        )@),
        !has_subscriber_email(old(store)@.subscriptions, new_subscriber.email@)
            && has_subscriber_id(old(store)@.subscriptions, subscriber_id) ==> (r matches Err(e)
            && e@ == SubscribeErrorV::UnexpectedError(insert_error_message()) && final(store)@
            == old(store)@),
        !has_subscriber_email(old(store)@.subscriptions, new_subscriber.email@)
            && !has_subscriber_id(old(store)@.subscriptions, subscriber_id) ==> (r matches Ok(id)
            && id == subscriber_id && final(store)@ == (StoreV {
            subscriptions: old(store)@.subscriptions.push(
                spec_new_subscriber_row(subscriber_id, new_subscriber.name@, new_subscriber.email@),
            ),
            ..old(store)@
        })),
{
    let email_string = String::from_str(new_subscriber.email.as_str());
    if store.subscriber_email_exists(&email_string) {
        return Err(SubscribeError::UnexpectedError(String::from_str(
            "failed to insert new subscriber",
        )));
    }
    if store.subscriber_id_exists(subscriber_id) {
        return Err(SubscribeError::UnexpectedError(String::from_str(
            "failed to insert new subscriber",
        )));
    }
    let row = Subscriber {
        id: subscriber_id,
        name: String::from_str(new_subscriber.name.as_str()),
        email: email_string,
        status: SubscriberStatus::PendingConfirmation,
    };
    // `now` models the row's subscription timestamp; the schema keeps it
    // only for bookkeeping, so the model does not store it.
    let _ = now;
    store.subscriptions.push(row);
    proof {
        assert(store@.subscriptions =~= old(store)@.subscriptions.push(
            spec_new_subscriber_row(subscriber_id, new_subscriber.name@, new_subscriber.email@),
        ));
        assert(store@ =~= StoreV {
            subscriptions: old(store)@.subscriptions.push(
                spec_new_subscriber_row(subscriber_id, new_subscriber.name@, new_subscriber.email@),
            ),
            ..old(store)@
        });
        lemma_subscriber_push_wf(old(store)@, subscriber_id, new_subscriber.name@,
            new_subscriber.email@);
    }
    Ok(subscriber_id)
}

/// Pushing a subscriber with a fresh id and a fresh email preserves the
/// store's constraints.
proof fn lemma_subscriber_push_wf(s: StoreV, subscriber_id: u128, name: Seq<char>, email: Seq<char>)
    requires
        s.wf(),
        !has_subscriber_email(s.subscriptions, email),
        !has_subscriber_id(s.subscriptions, subscriber_id),
    ensures
        (StoreV {
            subscriptions: s.subscriptions.push(
                spec_new_subscriber_row(subscriber_id, name, email),
            ),
            ..s
        }).wf(),
{
    let s2 = StoreV {
        subscriptions: s.subscriptions.push(spec_new_subscriber_row(subscriber_id, name, email)),
        ..s
    };
    assert forall|i: int, j: int| 0 <= i < j < s2.subscriptions.len() implies (
    #[trigger] s2.subscriptions[i]).id != (#[trigger] s2.subscriptions[j]).id && s2.subscriptions[
        i
    ].email != s2.subscriptions[j].email by {
        if j == s2.subscriptions.len() - 1 {
            assert(s2.subscriptions[i] == s.subscriptions[i]);
            if s.subscriptions[i].id == subscriber_id {
                assert(has_subscriber_id(s.subscriptions, subscriber_id));
            }
            if s.subscriptions[i].email == email {
                assert(has_subscriber_email(s.subscriptions, email));
            }
        } else {
            assert(s2.subscriptions[i] == s.subscriptions[i]);
            assert(s2.subscriptions[j] == s.subscriptions[j]);
        }
    }
}

/// Store a confirmation token for a subscriber, honouring the unique
/// token constraint.
pub fn store_token(store: &mut Store, subscriber_id: u128, subscription_token: &String) -> (r:
    Result<(), SubscribeError>)
    requires
        old(store)@.wf(),
    ensures
        final(store)@.wf(),
        has_token(old(store)@.subscription_tokens, subscription_token@) ==> (r matches Err(e) && e@
            == SubscribeErrorV::UnexpectedError(token_error_message()) && final(store)@ == old(
            store,
        )@),
        !has_token(old(store)@.subscription_tokens, subscription_token@) ==> (r is Ok
            && final(store)@ == (StoreV {
            subscription_tokens: old(store)@.subscription_tokens.push(
                SubscriptionTokenV { subscription_token: subscription_token@, subscriber_id },
            ),
            ..old(store)@
        })),
{
    if store.token_exists(subscription_token) {
        return Err(SubscribeError::UnexpectedError(String::from_str(
            "Failed to store the confirmation token for a new subscriber.",
        )));
    }
    let row = SubscriptionToken {
        subscription_token: crate::newsletter::clone_string(subscription_token),
        subscriber_id,
    };
    store.subscription_tokens.push(row);
    proof {
        let s2 = StoreV {
            subscription_tokens: old(store)@.subscription_tokens.push(
                SubscriptionTokenV { subscription_token: subscription_token@, subscriber_id },
            ),
            ..old(store)@
        };
        assert(store@.subscription_tokens =~= s2.subscription_tokens);
        assert(store@ =~= s2);
        assert forall|i: int, j: int| 0 <= i < j < store@.subscription_tokens.len() implies (
        #[trigger] store@.subscription_tokens[i]).subscription_token != (
        #[trigger] store@.subscription_tokens[j]).subscription_token by {
            if j == store@.subscription_tokens.len() - 1 {
                assert(store@.subscription_tokens[i] == old(store)@.subscription_tokens[i]);
                if old(store)@.subscription_tokens[i].subscription_token == subscription_token@ {
                    assert(has_token(old(store)@.subscription_tokens, subscription_token@));
                }
            } else {
                assert(store@.subscription_tokens[i] == old(store)@.subscription_tokens[i]);
                assert(store@.subscription_tokens[j] == old(store)@.subscription_tokens[j]);
            }
        }
    }
    Ok(())
}

/// The subscribe request with the generated subscriber id and token passed
/// in explicitly: the deterministic heart of the flow. `turnstile_ok` is
/// the outcome of the human-verification call the embedding process made.
pub fn subscribe_with(
    store: &mut Store,
    form: FormData,
    turnstile_ok: bool,
    base_url: &str,
    subscriber_id: u128,
    subscription_token: String,
    now: String,
) -> (r: Result<SubscriptionAccepted, SubscribeError>)
    requires
        old(store)@.wf(),
    ensures
        final(store)@.wf(),
        ({
            let (sr, ss) = spec_subscribe(
                old(store)@,
                form@,
                turnstile_ok,
                base_url@,
                subscriber_id,
                subscription_token@,
            );
            &&& final(store)@ == ss
            &&& match (r, sr) {
                (Ok(a), Ok(av)) => a@ == av,
                (Err(e), Err(ev)) => e@ == ev,
                _ => false,
            }
        }),
{
    if !turnstile_ok {
        return Err(SubscribeError::TurnstileError);
    }
    let new_subscriber = match NewSubscriber::try_from(form) {
        Ok(n) => n,
        Err(m) => {
            return Err(SubscribeError::ValidationError(m));
        },
    };
    let email_string = String::from_str(new_subscriber.email.as_str());
    if store.subscriber_email_exists(&email_string) {
        return Ok(SubscriptionAccepted { redirect_to: "/?subscribed=true", confirmation: None });
    }
    // Check both uniqueness constraints before writing anything, so that a
    // collision aborts the whole unit of work with the store untouched, as
    // the surrounding transaction's rollback would.
    if store.subscriber_id_exists(subscriber_id) {
        return Err(SubscribeError::UnexpectedError(String::from_str(
            "failed to insert new subscriber",
        )));
    }
    if store.token_exists(&subscription_token) {
        return Err(SubscribeError::UnexpectedError(String::from_str(
            "Failed to store the confirmation token for a new subscriber.",
        )));
    }
    let subscriber_id = match insert_subscriber(store, &new_subscriber, subscriber_id, now) {
        Ok(id) => id,
        Err(e) => {
            return Err(e);
        },
    };
    match store_token(store, subscriber_id, &subscription_token) {
        Ok(()) => {},
        Err(e) => {
            // The token was checked fresh above and nothing since added one.
            proof {
                assert(false);
            }
            return Err(e);
        },
    }
    let email = confirmation_email(
        new_subscriber.email,
        base_url,
        subscription_token.as_str(),
    );
    Ok(
        SubscriptionAccepted {
            redirect_to: "/?subscribed=true",
            confirmation: Some(email),
        },
    )
}

/// Subscribe: generate the subscriber id and confirmation token, then run
/// the deterministic flow. Both are random, so the outcome is stated for
/// every value they may take.
pub fn subscribe(store: &mut Store, form: FormData, turnstile_ok: bool, base_url: &str) -> (r:
    Result<SubscriptionAccepted, SubscribeError>)
    requires
        old(store)@.wf(),
    ensures
        final(store)@.wf(),
        exists|subscriber_id: u128, token: Seq<char>|
            {
                let (sr, ss) = #[trigger] spec_subscribe(
                    old(store)@,
                    form@,
                    turnstile_ok,
                    base_url@,
                    subscriber_id,
                    token,
                );
                &&& final(store)@ == ss
                &&& match (r, sr) {
                    (Ok(a), Ok(av)) => a@ == av,
                    (Err(e), Err(ev)) => e@ == ev,
                    _ => false,
                }
            },
{
    let subscriber_id = external::generate_uuid_value();
    let subscription_token = generate_subscription_token();
    let now = external::current_timestamp();
    let ghost tokenv = subscription_token@;
    let r = subscribe_with(
        store,
        form,
        turnstile_ok,
        base_url,
        subscriber_id,
        subscription_token,
        now,
    );
    proof {
        let (sr, ss) = spec_subscribe(
            old(store)@,
            form@,
            turnstile_ok,
            base_url@,
            subscriber_id,
            tokenv,
        );
        assert(final(store)@ == ss);
    }
    r
}

/// Render an error and its chain of causes, the first message on top and
/// each cause on a line of its own.
pub open spec fn spec_cause_lines(causes: Seq<Seq<char>>) -> Seq<char>
    decreases causes.len(),
{
    if causes.len() == 0 {
        Seq::empty()
    } else {
        "Caused by:\n\t"@ + causes[0] + "\n"@ + spec_cause_lines(causes.skip(1))
    }
}

/// The rendered chain: the error's own message, a blank line, then the
/// causes from the outermost inward.
pub open spec fn spec_error_chain(message: Seq<char>, causes: Seq<Seq<char>>) -> Seq<char> {
    message + "\n\n"@ + spec_cause_lines(causes)
}

/// Rendering a concatenation of cause lists renders them back to back.
proof fn lemma_cause_lines_append(a: Seq<Seq<char>>, b: Seq<Seq<char>>)
    ensures
        spec_cause_lines(a + b) == spec_cause_lines(a) + spec_cause_lines(b),
    decreases a.len(),
{
    if a.len() == 0 {
        assert(a + b =~= b);
        assert(spec_cause_lines(a) + spec_cause_lines(b) =~= spec_cause_lines(b));
    } else {
        lemma_cause_lines_append(a.skip(1), b);
        assert((a + b).skip(1) =~= a.skip(1) + b);
        assert(spec_cause_lines(a + b) =~= spec_cause_lines(a) + spec_cause_lines(b));
    }
}

/// Format an error's message and its chain of causes, outermost first, as
/// the logs print them.
pub fn error_chain_fmt(message: &String, causes: &Vec<String>) -> (r: String)
    ensures
        r@ == spec_error_chain(message@, causes@.map_values(|c: String| c@)),
{
    let ghost cs = causes@.map_values(|c: String| c@);
    let mut out = String::from_str(message.as_str());
    out.append("\n\n");
    let mut i: usize = 0;
    proof {
        assert(cs.take(0) =~= Seq::<Seq<char>>::empty());
        assert(out@ =~= message@ + "\n\n"@ + spec_cause_lines(cs.take(0)));
    }
    while i < causes.len()
        invariant
            0 <= i <= cs.len(),
            cs == causes@.map_values(|c: String| c@),
            out@ == message@ + "\n\n"@ + spec_cause_lines(cs.take(i as int)),
        decreases cs.len() - i,
    {
        out.append("Caused by:\n\t");
        out.append(causes[i].as_str());
        out.append("\n");
        proof {
            assert(cs.take(i + 1) =~= cs.take(i as int) + seq![cs[i as int]]);
            lemma_cause_lines_append(cs.take(i as int), seq![cs[i as int]]);
            assert(seq![cs[i as int]].skip(1) =~= Seq::<Seq<char>>::empty());
            assert(spec_cause_lines(Seq::<Seq<char>>::empty()) == Seq::<char>::empty());
            assert(seq![cs[i as int]][0] == cs[i as int]);
            assert(spec_cause_lines(seq![cs[i as int]]) == "Caused by:\n\t"@ + cs[i as int] + "\n"@
                + spec_cause_lines(Seq::<Seq<char>>::empty()));
            assert(spec_cause_lines(seq![cs[i as int]]) =~= "Caused by:\n\t"@ + cs[i as int]
                + "\n"@);
            assert(out@ =~= message@ + "\n\n"@ + spec_cause_lines(cs.take(i + 1)));
        }
        i = i + 1;
    }
    proof {
        assert(cs.take(cs.len() as int) =~= cs);
    }
    out
}

} // verus!
