//! The publish orchestrator: one logical request either replays the cached
//! response for its idempotency key or — inside the reservation's
//! transaction — inserts the issue, fans out one delivery task per
//! confirmed subscriber, and commits everything together with the cached
//! response.
use crate::external;
use crate::idempotency::{
    save_response, spec_commit, spec_committed_record, spec_reservation, spec_saved_response,
    spec_try_processing, try_processing, valid_idempotency_key, IdempotencyError, IdempotencyKey,
    NextAction, SpecNextAction, Transaction, TransactionV,
};
use crate::response::{HeaderPair, HeaderPairV, HttpResponse, HttpResponseV};
use crate::store::{
    confirmed_subscribers, has_issue, has_record, record_at, record_matches, DeliveryTask,
    DeliveryTaskV,
    NewsletterIssue, NewsletterIssueV, Store, StoreV, SubscriberStatus, SubscriberV,
};
use vstd::prelude::*;

verus! {

/// The publish form: the issue's contents plus the client's idempotency
/// key, all plain text.
pub struct FormData {
    pub title: String,
    pub text_content: String,
    pub html_content: String,
    pub idempotency_key: String,
}

/// Mathematical image of `FormData`.
#[verifier::ext_equal]
pub struct FormDataV {
    pub title: Seq<char>,
    pub text_content: Seq<char>,
    pub html_content: Seq<char>,
    pub idempotency_key: Seq<char>,
}

impl View for FormData {
    type V = FormDataV;

    open spec fn view(&self) -> FormDataV {
        FormDataV {
            title: self.title@,
            text_content: self.text_content@,
            html_content: self.html_content@,
            idempotency_key: self.idempotency_key@,
        }
    }
}

/// Why a publish request failed. The malformed key is a client error; the
/// rest are server errors.
#[derive(Clone, Copy, PartialEq, Eq, Debug)]
pub enum PublishError {
    /// The idempotency key does not satisfy the grammar; rejected before
    /// the store is touched.
    InvalidIdempotencyKey,
    /// A record for the key exists without a completed response.
    ExpectedSavedResponse,
    /// A completed record whose response could not be reconstructed.
    CorruptSavedResponse,
    /// The freshly generated issue id was already taken, so the insert's
    /// uniqueness constraint would reject it.
    IssueIdTaken,
}

/// The HTTP status a publish failure maps to: a client error for the
/// malformed key, a server error otherwise.
pub open spec fn spec_error_status(e: PublishError) -> u16 {
    match e {
        PublishError::InvalidIdempotencyKey => 400,
        _ => 500,
    }
}

/// Executable mirror of `spec_error_status`.
pub fn error_status(e: &PublishError) -> (r: u16)
    ensures
        r == spec_error_status(*e),
{
    match e {
        PublishError::InvalidIdempotencyKey => 400,
        _ => 500,
    }
}

/// The bytes of the header name `location`.
pub open spec fn location_header_name() -> Seq<u8> {
    seq![108u8, 111u8, 99u8, 97u8, 116u8, 105u8, 111u8, 110u8]
}

/// The bytes of the path `/admin/newsletters`.
pub open spec fn admin_newsletters_path() -> Seq<u8> {
    seq![
        47u8,
        97u8,
        100u8,
        109u8,
        105u8,
        110u8,
        47u8,
        110u8,
        101u8,
        119u8,
        115u8,
        108u8,
        101u8,
        116u8,
        116u8,
        101u8,
        114u8,
        115u8,
    ]
}

/// The acknowledgment a successful publish returns and caches: a redirect
/// (see-other) back to the newsletter form.
pub open spec fn spec_success_response() -> HttpResponseV {
    HttpResponseV {
        status: 303,
        headers: seq![
            HeaderPairV { name: location_header_name(), value: admin_newsletters_path() },
        ],
        body: Seq::empty(),
    }
}

/// The success response is a cacheable response.
pub proof fn lemma_success_response_wf()
    ensures
        spec_success_response().wf(),
{
    let r = spec_success_response();
    assert forall|i: int| 0 <= i < r.headers.len() implies (#[trigger] r.headers[i]).wf() by {
        assert(r.headers[i] == r.headers[0]);
    }
}

/// Build the success response.
pub fn success_response() -> (r: HttpResponse)
    ensures
        r@ == spec_success_response(),
{
    let mut name: Vec<u8> = Vec::new();
    name.push(108);
    name.push(111);
    name.push(99);
    name.push(97);
    name.push(116);
    name.push(105);
    name.push(111);
    name.push(110);
    let mut value: Vec<u8> = Vec::new();
    value.push(47);
    value.push(97);
    value.push(100);
    value.push(109);
    value.push(105);
    value.push(110);
    value.push(47);
    value.push(110);
    value.push(101);
    value.push(119);
    value.push(115);
    value.push(108);
    value.push(101);
    value.push(116);
    value.push(116);
    value.push(101);
    value.push(114);
    value.push(115);
    let mut headers: Vec<HeaderPair> = Vec::new();
    headers.push(HeaderPair { name, value });
    let r = HttpResponse { status: 303, headers, body: Vec::new() };
    proof {
        assert(r@.headers[0].name =~= location_header_name());
        assert(r@.headers[0].value =~= admin_newsletters_path());
        assert(r@.headers =~= spec_success_response().headers);
        assert(r@.body =~= spec_success_response().body);
        assert(r@ =~= spec_success_response());
    }
    r
}

/// The issue row a publish inserts.
pub open spec fn spec_new_issue(
    title: Seq<char>,
    text_content: Seq<char>,
    html_content: Seq<char>,
    id: u128,
    published_at: Seq<char>,
) -> NewsletterIssueV {
    NewsletterIssueV { id, title, text_content, html_content, published_at }
}

/// The fan-out: one delivery task per subscriber confirmed at this
/// instant, in table order.
pub open spec fn spec_fanout_tasks(subs: Seq<SubscriberV>, issue_id: u128) -> Seq<DeliveryTaskV> {
    confirmed_subscribers(subs).map_values(
        |s: SubscriberV|
            DeliveryTaskV { newsletter_issue_id: issue_id, subscriber_email: s.email },
    )
}

/// Copy a string; the copy has the same characters.
pub fn clone_string(s: &String) -> (r: String)
    ensures
        r@ == s@,
{
    s.clone()
}

/// Stage the new issue row in the open transaction, after checking its id
/// against the committed issues as the insert's uniqueness constraint
/// would.
pub fn insert_newsletter_issue(
    transaction: &mut Transaction,
    store: &Store,
    title: &String,
    text_content: &String,
    html_content: &String,
    newsletter_issue_id: u128,
    now: String,
) -> (r: Result<u128, PublishError>)
    ensures
        has_issue(store@.newsletter_issues, newsletter_issue_id) ==> (r matches Err(e) && e
            == PublishError::IssueIdTaken && final(transaction)@ == old(transaction)@),
        !has_issue(store@.newsletter_issues, newsletter_issue_id) ==> (r matches Ok(id) && id
            == newsletter_issue_id && final(transaction)@ == TransactionV {
            newsletter_issue: Some(
                spec_new_issue(title@, text_content@, html_content@, newsletter_issue_id, now@),
            ),
            ..old(transaction)@
        }),
{
    if store.find_issue(newsletter_issue_id).is_some() {
        return Err(PublishError::IssueIdTaken);
    }
    let issue = NewsletterIssue {
        id: newsletter_issue_id,
        title: clone_string(title),
        text_content: clone_string(text_content),
        html_content: clone_string(html_content),
        published_at: now,
    };
    transaction.newsletter_issue = Some(issue);
    Ok(newsletter_issue_id)
}

/// Stage one delivery task for every subscriber whose status is confirmed
/// right now: a point-in-time snapshot, not a live subscription.
pub fn enqueue_delivery_tasks(
    transaction: &mut Transaction,
    store: &Store,
    newsletter_issue_id: u128,
)
    ensures
        final(transaction)@ == (TransactionV {
            tasks: old(transaction)@.tasks + spec_fanout_tasks(
                store@.subscriptions,
                newsletter_issue_id,
            ),
            ..old(transaction)@
        }),
{
    let ghost subsv = store@.subscriptions;
    let ghost tasks0 = transaction@.tasks;
    let ghost t0 = transaction@;
    proof {
        assert(subsv.take(0) =~= Seq::<SubscriberV>::empty());
        reveal(Seq::filter);
        assert(spec_fanout_tasks(subsv.take(0), newsletter_issue_id) =~= Seq::<
            DeliveryTaskV,
        >::empty());
        assert(transaction@.tasks =~= tasks0 + spec_fanout_tasks(
            subsv.take(0),
            newsletter_issue_id,
        ));
    }
    let mut i: usize = 0;
    while i < store.subscriptions.len()
        invariant
            0 <= i <= subsv.len(),
            subsv == store@.subscriptions,
            transaction@ == (TransactionV {
                tasks: tasks0 + spec_fanout_tasks(subsv.take(i as int), newsletter_issue_id),
                ..t0
            }),
        decreases subsv.len() - i,
    {
        let sub = &store.subscriptions[i];
        let ghost pre = subsv.take(i as int);
        let confirmed = match sub.status {
            SubscriberStatus::Confirmed => true,
            SubscriberStatus::PendingConfirmation => false,
        };
        if confirmed {
            let task = DeliveryTask {
                newsletter_issue_id,
                subscriber_email: clone_string(&sub.email),
            };
            transaction.tasks.push(task);
        }
        proof {
            reveal(Seq::filter);
            assert(subsv.take(i + 1) =~= pre.push(subsv[i as int]));
            assert(pre.push(subsv[i as int]).drop_last() =~= pre);
            assert(pre.push(subsv[i as int]).last() == subsv[i as int]);
            let p = |s: SubscriberV| s.status is Confirmed;
            assert(confirmed_subscribers(pre.push(subsv[i as int])) == if p(subsv[i as int]) {
                confirmed_subscribers(pre).push(subsv[i as int])
            } else {
                confirmed_subscribers(pre)
            });
            let taskv = DeliveryTaskV {
                newsletter_issue_id,
                subscriber_email: subsv[i as int].email,
            };
            assert(spec_fanout_tasks(subsv.take(i + 1), newsletter_issue_id) =~= if p(
                subsv[i as int],
            ) {
                spec_fanout_tasks(pre, newsletter_issue_id).push(taskv)
            } else {
                spec_fanout_tasks(pre, newsletter_issue_id)
            });
            if p(subsv[i as int]) {
                assert(transaction@.tasks =~= (tasks0 + spec_fanout_tasks(
                    pre,
                    newsletter_issue_id,
                )).push(taskv));
                assert((tasks0 + spec_fanout_tasks(pre, newsletter_issue_id)).push(taskv)
                    =~= tasks0 + spec_fanout_tasks(pre, newsletter_issue_id).push(taskv));
            }
            assert(transaction@.tasks =~= tasks0 + spec_fanout_tasks(
                subsv.take(i + 1),
                newsletter_issue_id,
            ));
            assert(transaction@ == TransactionV {
                tasks: tasks0 + spec_fanout_tasks(subsv.take(i + 1), newsletter_issue_id),
                ..t0
            });
        }
        i = i + 1;
    }
    proof {
        assert(subsv.take(subsv.len() as int) =~= subsv);
    }
}

/// The whole publish request as a transition on the store: reject a
/// malformed key, replay a cached response, or execute-and-commit. The
/// first component is the outcome handed to the client, the second the
/// store afterwards.
pub open spec fn spec_publish(
    s: StoreV,
    user_id: u128,
    form: FormDataV,
    issue_id: u128,
    now: Seq<char>,
) -> (Result<HttpResponseV, PublishError>, StoreV) {
    if !valid_idempotency_key(form.idempotency_key) {
        (Err(PublishError::InvalidIdempotencyKey), s)
    } else {
        match spec_try_processing(s, user_id, form.idempotency_key, now) {
            Ok(SpecNextAction::ReturnSavedResponse(resp)) => (Ok(resp), s),
            Ok(SpecNextAction::StartProcessing(t)) => {
                if has_issue(s.newsletter_issues, issue_id) {
                    (Err(PublishError::IssueIdTaken), s)
                } else {
                    let t2 = TransactionV {
                        newsletter_issue: Some(
                            spec_new_issue(
                                form.title,
                                form.text_content,
                                form.html_content,
                                issue_id,
                                now,
                            ),
                        ),
                        tasks: spec_fanout_tasks(s.subscriptions, issue_id),
                        ..t
                    };
                    (Ok(spec_success_response()), spec_commit(s, t2, spec_success_response()))
                }
            },
            Err(IdempotencyError::ExpectedSavedResponse) => (
                Err(PublishError::ExpectedSavedResponse),
                s,
            ),
            Err(IdempotencyError::CorruptSavedResponse) => (
                Err(PublishError::CorruptSavedResponse),
                s,
            ),
        }
    }
}

/// Publish with the generated issue id and timestamp passed in explicitly:
/// the deterministic heart of the orchestrator.
pub fn publish_newsletter_with(
    store: &mut Store,
    user_id: u128,
    form: FormData,
    newsletter_issue_id: u128,
    now: String,
) -> (r: Result<HttpResponse, PublishError>)
    requires
        old(store)@.wf(),
    ensures
        final(store)@.wf(),
        ({
            let (sr, ss) = spec_publish(old(store)@, user_id, form@, newsletter_issue_id, now@);
            &&& final(store)@ == ss
            &&& match (r, sr) {
                (Ok(resp), Ok(rv)) => resp@ == rv,
                (Err(e), Err(ev)) => e == ev,
                _ => false,
            }
        }),
{
    let idempotency_key = match IdempotencyKey::try_from(clone_string(&form.idempotency_key)) {
        Ok(k) => k,
        Err(_) => {
            return Err(PublishError::InvalidIdempotencyKey);
        },
    };
    let mut transaction = match try_processing(store, &idempotency_key, user_id, clone_string(&now))
        {
        Ok(NextAction::ReturnSavedResponse(resp)) => {
            return Ok(resp);
        },
        Ok(NextAction::StartProcessing(t)) => t,
        Err(IdempotencyError::ExpectedSavedResponse) => {
            return Err(PublishError::ExpectedSavedResponse);
        },
        Err(IdempotencyError::CorruptSavedResponse) => {
            return Err(PublishError::CorruptSavedResponse);
        },
    };
    let issue_id = match insert_newsletter_issue(
        &mut transaction,
        store,
        &form.title,
        &form.text_content,
        &form.html_content,
        newsletter_issue_id,
        now,
    ) {
        Ok(id) => id,
        Err(e) => {
            return Err(e);
        },
    };
    enqueue_delivery_tasks(&mut transaction, store, issue_id);
    let response = success_response();
    let response = save_response(store, transaction, response);
    Ok(response)
}

/// Publish a newsletter issue: generate the issue id and timestamp, then
/// run the deterministic orchestrator. The generated id is random, so the
/// outcome is stated for every value it may take.
pub fn publish_newsletter(store: &mut Store, user_id: u128, form: FormData) -> (r: Result<
    HttpResponse,
    PublishError,
>)
    requires
        old(store)@.wf(),
    ensures
        final(store)@.wf(),
        exists|issue_id: u128, now: Seq<char>|
            {
                let (sr, ss) = #[trigger] spec_publish(old(store)@, user_id, form@, issue_id, now);
                &&& final(store)@ == ss
                &&& match (r, sr) {
                    (Ok(resp), Ok(rv)) => resp@ == rv,
                    (Err(e), Err(ev)) => e == ev,
                    _ => false,
                }
            },
{
    let newsletter_issue_id = external::generate_uuid_value();
    let now = external::current_timestamp();
    let ghost nowv = now@;
    let r = publish_newsletter_with(store, user_id, form, newsletter_issue_id, now);
    proof {
        let (sr, ss) = spec_publish(old(store)@, user_id, form@, newsletter_issue_id, nowv);
        assert(final(store)@ == ss);
    }
    r
}

/// The transaction a first-time publish commits: the reservation plus the
/// staged issue and fan-out.
pub open spec fn spec_executed_transaction(
    s: StoreV,
    user_id: u128,
    form: FormDataV,
    issue_id: u128,
    now: Seq<char>,
) -> TransactionV {
    TransactionV {
        user_id,
        idempotency_key: form.idempotency_key,
        created_at: now,
        newsletter_issue: Some(
            spec_new_issue(form.title, form.text_content, form.html_content, issue_id, now),
        ),
        tasks: spec_fanout_tasks(s.subscriptions, issue_id),
    }
}

/// A publish whose key is unseen and whose generated id is fresh executes:
/// it returns the acknowledgment and commits exactly one issue row, one
/// fan-out of tasks, and one completed record that replays that
/// acknowledgment.
pub proof fn lemma_publish_executes(
    s: StoreV,
    user_id: u128,
    form: FormDataV,
    issue_id: u128,
    now: Seq<char>,
)
    requires
        s.wf(),
        valid_idempotency_key(form.idempotency_key),
        !has_record(s.idempotency, user_id, form.idempotency_key),
        !has_issue(s.newsletter_issues, issue_id),
    ensures
        ({
            let (r1, s1) = spec_publish(s, user_id, form, issue_id, now);
            let t2 = spec_executed_transaction(s, user_id, form, issue_id, now);
            &&& r1 == Ok::<HttpResponseV, PublishError>(spec_success_response())
            &&& s1 == spec_commit(s, t2, spec_success_response())
            &&& s1.wf()
            &&& s1.newsletter_issues == s.newsletter_issues.push(
                spec_new_issue(form.title, form.text_content, form.html_content, issue_id, now),
            )
            &&& s1.issue_delivery_queue == s.issue_delivery_queue + spec_fanout_tasks(
                s.subscriptions,
                issue_id,
            )
            &&& s1.subscriptions == s.subscriptions
            &&& s1.subscription_tokens == s.subscription_tokens
            &&& has_record(s1.idempotency, user_id, form.idempotency_key)
            &&& spec_saved_response(record_at(s1.idempotency, user_id, form.idempotency_key))
                == Ok::<HttpResponseV, IdempotencyError>(spec_success_response())
        }),
{
    let (r1, s1) = spec_publish(s, user_id, form, issue_id, now);
    let t2 = spec_executed_transaction(s, user_id, form, issue_id, now);
    assert(s1 == spec_commit(s, t2, spec_success_response()));
    assert(t2.committable(s));
    crate::idempotency::lemma_commit_wf(s, t2, spec_success_response());
    lemma_success_response_wf();
    crate::idempotency::lemma_replay_after_commit(s, t2, spec_success_response(), now);
    assert(s1.newsletter_issues =~= s.newsletter_issues.push(
        spec_new_issue(form.title, form.text_content, form.html_content, issue_id, now),
    ));
    let n = s.idempotency.len() as int;
    assert(record_matches(s1.idempotency[n], user_id, form.idempotency_key));
    crate::store::lemma_record_unique(s1, user_id, form.idempotency_key, n);
}

/// Idempotent replay: after a publish executes for `(user, key)`, a second
/// sequential publish with the same key — whatever its body, generated id
/// or timestamp — receives the byte-identical response and changes
/// nothing: exactly one issue row and one set of delivery tasks exist.
pub proof fn lemma_idempotent_replay(
    s: StoreV,
    user_id: u128,
    form: FormDataV,
    issue_id: u128,
    now: Seq<char>,
    form2: FormDataV,
    issue_id2: u128,
    now2: Seq<char>,
)
    requires
        s.wf(),
        valid_idempotency_key(form.idempotency_key),
        !has_record(s.idempotency, user_id, form.idempotency_key),
        !has_issue(s.newsletter_issues, issue_id),
        form2.idempotency_key == form.idempotency_key,
    ensures
        ({
            let (r1, s1) = spec_publish(s, user_id, form, issue_id, now);
            let (r2, s2) = spec_publish(s1, user_id, form2, issue_id2, now2);
            &&& r1 is Ok
            &&& r2 == r1
            &&& s2 == s1
            &&& s1.newsletter_issues == s.newsletter_issues.push(
                spec_new_issue(form.title, form.text_content, form.html_content, issue_id, now),
            )
            &&& s1.issue_delivery_queue == s.issue_delivery_queue + spec_fanout_tasks(
                s.subscriptions,
                issue_id,
            )
        }),
{
    lemma_publish_executes(s, user_id, form, issue_id, now);
}

/// A linearized burst of publish requests, applied in order.
pub open spec fn spec_publish_seq(
    s: StoreV,
    user_id: u128,
    reqs: Seq<(FormDataV, u128, Seq<char>)>,
) -> StoreV
    decreases reqs.len(),
{
    if reqs.len() == 0 {
        s
    } else {
        spec_publish_seq(
            spec_publish(s, user_id, reqs[0].0, reqs[0].1, reqs[0].2).1,
            user_id,
            reqs.skip(1),
        )
    }
}

/// Once a record for the key replays `resp0`, any burst of requests with
/// that key leaves the store untouched, and each of them receives `resp0`.
proof fn lemma_publish_seq_stable(
    s1: StoreV,
    user_id: u128,
    reqs: Seq<(FormDataV, u128, Seq<char>)>,
    key: Seq<char>,
    resp0: HttpResponseV,
)
    requires
        s1.wf(),
        valid_idempotency_key(key),
        forall|i: int| 0 <= i < reqs.len() ==> (#[trigger] reqs[i]).0.idempotency_key == key,
        has_record(s1.idempotency, user_id, key),
        spec_saved_response(record_at(s1.idempotency, user_id, key)) == Ok::<
            HttpResponseV,
            IdempotencyError,
        >(resp0),
    ensures
        spec_publish_seq(s1, user_id, reqs) == s1,
        forall|i: int|
            0 <= i < reqs.len() ==> #[trigger] spec_publish(
                s1,
                user_id,
                reqs[i].0,
                reqs[i].1,
                reqs[i].2,
            ) == (Ok::<HttpResponseV, PublishError>(resp0), s1),
    decreases reqs.len(),
{
    assert forall|i: int| 0 <= i < reqs.len() implies #[trigger] spec_publish(
        s1,
        user_id,
        reqs[i].0,
        reqs[i].1,
        reqs[i].2,
    ) == (Ok::<HttpResponseV, PublishError>(resp0), s1) by {
        assert(reqs[i].0.idempotency_key == key);
    }
    if reqs.len() > 0 {
        lemma_publish_seq_stable(s1, user_id, reqs.skip(1), key, resp0);
    }
}

/// Isolation under concurrency: the storage's unique constraint linearizes
/// concurrent publishes with one key, so model them as a burst applied in
/// order. Exactly the first executes; every other request replays the
/// first one's response and changes nothing.
pub proof fn lemma_isolation_under_concurrency(
    s: StoreV,
    user_id: u128,
    reqs: Seq<(FormDataV, u128, Seq<char>)>,
)
    requires
        s.wf(),
        reqs.len() >= 1,
        forall|i: int|
            0 <= i < reqs.len() ==> (#[trigger] reqs[i]).0.idempotency_key
                == reqs[0].0.idempotency_key,
        valid_idempotency_key(reqs[0].0.idempotency_key),
        !has_record(s.idempotency, user_id, reqs[0].0.idempotency_key),
        !has_issue(s.newsletter_issues, reqs[0].1),
    ensures
        ({
            let (r1, s1) = spec_publish(s, user_id, reqs[0].0, reqs[0].1, reqs[0].2);
            &&& r1 is Ok
            &&& s1.newsletter_issues == s.newsletter_issues.push(
                spec_new_issue(
                    reqs[0].0.title,
                    reqs[0].0.text_content,
                    reqs[0].0.html_content,
                    reqs[0].1,
                    reqs[0].2,
                ),
            )
            &&& spec_publish_seq(s, user_id, reqs) == s1
            &&& forall|i: int|
                1 <= i < reqs.len() ==> #[trigger] spec_publish(
                    s1,
                    user_id,
                    reqs[i].0,
                    reqs[i].1,
                    reqs[i].2,
                ) == (r1, s1)
        }),
{
    let key = reqs[0].0.idempotency_key;
    lemma_publish_executes(s, user_id, reqs[0].0, reqs[0].1, reqs[0].2);
    let (r1, s1) = spec_publish(s, user_id, reqs[0].0, reqs[0].1, reqs[0].2);
    assert forall|i: int| 0 <= i < reqs.skip(1).len() implies (
    #[trigger] reqs.skip(1)[i]).0.idempotency_key == key by {
        assert(reqs.skip(1)[i] == reqs[i + 1]);
    }
    lemma_publish_seq_stable(s1, user_id, reqs.skip(1), key, spec_success_response());
    assert(spec_publish_seq(s, user_id, reqs) == spec_publish_seq(s1, user_id, reqs.skip(1)));
    assert forall|i: int| 1 <= i < reqs.len() implies #[trigger] spec_publish(
        s1,
        user_id,
        reqs[i].0,
        reqs[i].1,
        reqs[i].2,
    ) == (r1, s1) by {
        assert(reqs.skip(1)[i - 1] == reqs[i]);
        assert(spec_publish(s1, user_id, reqs.skip(1)[i - 1].0, reqs.skip(1)[i - 1].1, reqs.skip(
            1,
        )[i - 1].2) == (Ok::<HttpResponseV, PublishError>(spec_success_response()), s1));
    }
}

/// Queue drains to empty, end to end: publish an issue to K confirmed
/// subscribers on an idle queue, and the next K worker attempts each
/// complete a task, the queue is then empty, and the attempt after that
/// reports the empty queue.
pub proof fn lemma_publish_then_drain(
    s: StoreV,
    user_id: u128,
    form: FormDataV,
    issue_id: u128,
    now: Seq<char>,
)
    requires
        s.wf(),
        valid_idempotency_key(form.idempotency_key),
        !has_record(s.idempotency, user_id, form.idempotency_key),
        !has_issue(s.newsletter_issues, issue_id),
        s.issue_delivery_queue.len() == 0,
    ensures
        ({
            let s1 = spec_publish(s, user_id, form, issue_id, now).1;
            let k = confirmed_subscribers(s.subscriptions).len();
            &&& s1.issue_delivery_queue.len() == k
            &&& forall|n: nat|
                n < k ==> (#[trigger] crate::issue_delivery_worker::spec_try_execute_task(
                    crate::issue_delivery_worker::spec_drain(s1, n),
                ).0 matches Ok(o) && o.0 is TaskCompleted)
            &&& crate::issue_delivery_worker::spec_drain(s1, k).issue_delivery_queue == Seq::<
                DeliveryTaskV,
            >::empty()
            &&& crate::issue_delivery_worker::spec_try_execute_task(
                crate::issue_delivery_worker::spec_drain(s1, k),
            ).0 == Ok::<_, crate::issue_delivery_worker::WorkerError>(
                (
                    crate::issue_delivery_worker::ExecutionOutcome::EmptyQueue,
                    None::<crate::issue_delivery_worker::DeliveryActionV>,
                ),
            )
        }),
{
    lemma_publish_executes(s, user_id, form, issue_id, now);
    let s1 = spec_publish(s, user_id, form, issue_id, now).1;
    assert(s1.issue_delivery_queue =~= spec_fanout_tasks(s.subscriptions, issue_id));
    assert forall|i: int| 0 <= i < s1.issue_delivery_queue.len() implies has_issue(
        s1.newsletter_issues,
        (#[trigger] s1.issue_delivery_queue[i]).newsletter_issue_id,
    ) by {
        assert(s1.issue_delivery_queue[i].newsletter_issue_id == issue_id);
        let n = s.newsletter_issues.len() as int;
        assert(s1.newsletter_issues[n].id == issue_id);
    }
    crate::issue_delivery_worker::lemma_queue_drains_to_empty(s1);
}

/// Partial-failure atomicity: a request that reserves and stages writes
/// but fails before `save_response` commits leaves the store untouched —
/// by construction, since `try_processing` borrows the store immutably and
/// only `save_response` writes. A later request with the same key
/// therefore re-reserves and re-executes cleanly on the same store value.
pub proof fn lemma_partial_failure_atomicity(
    s: StoreV,
    user_id: u128,
    form: FormDataV,
    issue_id: u128,
    now: Seq<char>,
)
    requires
        s.wf(),
        valid_idempotency_key(form.idempotency_key),
        !has_record(s.idempotency, user_id, form.idempotency_key),
        !has_issue(s.newsletter_issues, issue_id),
    ensures
        spec_try_processing(s, user_id, form.idempotency_key, now) == Ok::<
            SpecNextAction,
            IdempotencyError,
        >(SpecNextAction::StartProcessing(spec_reservation(user_id, form.idempotency_key, now))),
        ({
            let (r1, s1) = spec_publish(s, user_id, form, issue_id, now);
            &&& r1 == Ok::<HttpResponseV, PublishError>(spec_success_response())
            &&& s1.newsletter_issues == s.newsletter_issues.push(
                spec_new_issue(form.title, form.text_content, form.html_content, issue_id, now),
            )
            &&& s1.issue_delivery_queue == s.issue_delivery_queue + spec_fanout_tasks(
                s.subscriptions,
                issue_id,
            )
            &&& has_record(s1.idempotency, user_id, form.idempotency_key)
        }),
{
    lemma_publish_executes(s, user_id, form, issue_id, now);
}

} // verus!
