//! The durable relational store, modelled as a value: idempotency records,
//! published issues, the delivery queue, subscribers and their confirmation
//! tokens.
//!
//! The embedding process keeps these tables in a real database; everything
//! here describes the rows as plain values, with the uniqueness constraints
//! the logic relies on stated in `StoreV::wf`.
use vstd::prelude::*;

verus! {

/// Lifecycle of a subscriber row.
#[derive(Clone, Copy, PartialEq, Eq, Structural, Debug)]
pub enum SubscriberStatus {
    PendingConfirmation,
    Confirmed,
}

/// A subscriber row: stable id, display name, email address, status.
#[derive(Debug)]
pub struct Subscriber {
    pub id: u128,
    pub name: String,
    pub email: String,
    pub status: SubscriberStatus,
}

#[verifier::ext_equal]
pub struct SubscriberV {
    pub id: u128,
    pub name: Seq<char>,
    pub email: Seq<char>,
    pub status: SubscriberStatus,
}

impl View for Subscriber {
    type V = SubscriberV;

    open spec fn view(&self) -> SubscriberV {
        SubscriberV { id: self.id, name: self.name@, email: self.email@, status: self.status }
    }
}

/// A confirmation token row, keyed by the token itself.
#[derive(Debug)]
pub struct SubscriptionToken {
    pub subscription_token: String,
    pub subscriber_id: u128,
}

#[verifier::ext_equal]
pub struct SubscriptionTokenV {
    pub subscription_token: Seq<char>,
    pub subscriber_id: u128,
}

impl View for SubscriptionToken {
    type V = SubscriptionTokenV;

    open spec fn view(&self) -> SubscriptionTokenV {
        SubscriptionTokenV {
            subscription_token: self.subscription_token@,
            subscriber_id: self.subscriber_id,
        }
    }
}

/// A published newsletter issue; immutable once created.
#[derive(Debug)]
pub struct NewsletterIssue {
    pub id: u128,
    pub title: String,
    pub text_content: String,
    pub html_content: String,
    pub published_at: String,
}

#[verifier::ext_equal]
pub struct NewsletterIssueV {
    pub id: u128,
    pub title: Seq<char>,
    pub text_content: Seq<char>,
    pub html_content: Seq<char>,
    pub published_at: Seq<char>,
}

impl View for NewsletterIssue {
    type V = NewsletterIssueV;

    open spec fn view(&self) -> NewsletterIssueV {
        NewsletterIssueV {
            id: self.id,
            title: self.title@,
            text_content: self.text_content@,
            html_content: self.html_content@,
            published_at: self.published_at@,
        }
    }
}

/// One pending send: which issue, to which (still unvalidated) address.
#[derive(Debug)]
pub struct DeliveryTask {
    pub newsletter_issue_id: u128,
    pub subscriber_email: String,
}

#[verifier::ext_equal]
pub struct DeliveryTaskV {
    pub newsletter_issue_id: u128,
    pub subscriber_email: Seq<char>,
}

impl View for DeliveryTask {
    type V = DeliveryTaskV;

    open spec fn view(&self) -> DeliveryTaskV {
        DeliveryTaskV {
            newsletter_issue_id: self.newsletter_issue_id,
            subscriber_email: self.subscriber_email@,
        }
    }
}

/// The response columns of a completed idempotency record: status code,
/// framed header bytes, body bytes.
#[derive(Debug)]
pub struct ResponseColumns {
    pub response_status_code: u16,
    pub response_headers: Vec<u8>,
    pub response_body: Vec<u8>,
}

#[verifier::ext_equal]
pub struct ResponseColumnsV {
    pub response_status_code: u16,
    pub response_headers: Seq<u8>,
    pub response_body: Seq<u8>,
}

impl View for ResponseColumns {
    type V = ResponseColumnsV;

    open spec fn view(&self) -> ResponseColumnsV {
        ResponseColumnsV {
            response_status_code: self.response_status_code,
            response_headers: self.response_headers@,
            response_body: self.response_body@,
        }
    }
}

/// An idempotency record. `response` is `None` while the owning request is
/// still in flight (reserved) and `Some` once completed.
#[derive(Debug)]
pub struct IdempotencyRecord {
    pub user_id: u128,
    pub idempotency_key: String,
    pub created_at: String,
    pub response: Option<ResponseColumns>,
}

#[verifier::ext_equal]
pub struct IdempotencyRecordV {
    pub user_id: u128,
    pub idempotency_key: Seq<char>,
    pub created_at: Seq<char>,
    pub response: Option<ResponseColumnsV>,
}

impl View for IdempotencyRecord {
    type V = IdempotencyRecordV;

    open spec fn view(&self) -> IdempotencyRecordV {
        IdempotencyRecordV {
            user_id: self.user_id,
            idempotency_key: self.idempotency_key@,
            created_at: self.created_at@,
            response: match self.response {
                Some(ref c) => Some(c@),
                None => None,
            },
        }
    }
}

/// The whole durable store.
pub struct Store {
    pub idempotency: Vec<IdempotencyRecord>,
    pub subscriptions: Vec<Subscriber>,
    pub subscription_tokens: Vec<SubscriptionToken>,
    pub newsletter_issues: Vec<NewsletterIssue>,
    pub issue_delivery_queue: Vec<DeliveryTask>,
}

/// Mathematical image of the store: each table as a sequence of rows.
#[verifier::ext_equal]
pub struct StoreV {
    pub idempotency: Seq<IdempotencyRecordV>,
    pub subscriptions: Seq<SubscriberV>,
    pub subscription_tokens: Seq<SubscriptionTokenV>,
    pub newsletter_issues: Seq<NewsletterIssueV>,
    pub issue_delivery_queue: Seq<DeliveryTaskV>,
}

impl View for Store {
    type V = StoreV;

    open spec fn view(&self) -> StoreV {
        StoreV {
            idempotency: self.idempotency@.map_values(|r: IdempotencyRecord| r@),
            subscriptions: self.subscriptions@.map_values(|r: Subscriber| r@),
            subscription_tokens: self.subscription_tokens@.map_values(
                |r: SubscriptionToken| r@,
            ),
            newsletter_issues: self.newsletter_issues@.map_values(|r: NewsletterIssue| r@),
            issue_delivery_queue: self.issue_delivery_queue@.map_values(|r: DeliveryTask| r@),
        }
    }
}

/// Does record `r` belong to `(user, key)`?
pub open spec fn record_matches(r: IdempotencyRecordV, user_id: u128, key: Seq<char>) -> bool {
    r.user_id == user_id && r.idempotency_key == key
}

/// Is there a record for `(user, key)`?
pub open spec fn has_record(recs: Seq<IdempotencyRecordV>, user_id: u128, key: Seq<char>) -> bool {
    exists|i: int| 0 <= i < recs.len() && record_matches(#[trigger] recs[i], user_id, key)
}

/// Index of the record for `(user, key)`; meaningful when `has_record`
/// holds (and unique under `StoreV::wf`).
pub open spec fn record_idx(recs: Seq<IdempotencyRecordV>, user_id: u128, key: Seq<char>) -> int {
    choose|i: int| 0 <= i < recs.len() && record_matches(#[trigger] recs[i], user_id, key)
}

/// The record for `(user, key)`.
pub open spec fn record_at(
    recs: Seq<IdempotencyRecordV>,
    user_id: u128,
    key: Seq<char>,
) -> IdempotencyRecordV {
    recs[record_idx(recs, user_id, key)]
}

/// Is there an issue with this id?
pub open spec fn has_issue(issues: Seq<NewsletterIssueV>, id: u128) -> bool {
    exists|i: int| 0 <= i < issues.len() && (#[trigger] issues[i]).id == id
}

/// Index of the issue with this id; meaningful when `has_issue` holds.
pub open spec fn issue_idx(issues: Seq<NewsletterIssueV>, id: u128) -> int {
    choose|i: int| 0 <= i < issues.len() && (#[trigger] issues[i]).id == id
}

/// The issue with this id.
pub open spec fn issue_at(issues: Seq<NewsletterIssueV>, id: u128) -> NewsletterIssueV {
    issues[issue_idx(issues, id)]
}

/// Is some subscriber registered under this email?
pub open spec fn has_subscriber_email(subs: Seq<SubscriberV>, email: Seq<char>) -> bool {
    exists|i: int| 0 <= i < subs.len() && (#[trigger] subs[i]).email == email
}

/// Is some subscriber registered under this id?
pub open spec fn has_subscriber_id(subs: Seq<SubscriberV>, id: u128) -> bool {
    exists|i: int| 0 <= i < subs.len() && (#[trigger] subs[i]).id == id
}

/// Is this confirmation token already stored?
pub open spec fn has_token(toks: Seq<SubscriptionTokenV>, token: Seq<char>) -> bool {
    exists|i: int| 0 <= i < toks.len() && (#[trigger] toks[i]).subscription_token == token
}

/// The confirmed subscribers, in table order: the snapshot a publish fans
/// out to.
pub open spec fn confirmed_subscribers(subs: Seq<SubscriberV>) -> Seq<SubscriberV> {
    subs.filter(|s: SubscriberV| s.status is Confirmed)
}

impl StoreV {
    /// The uniqueness constraints of the schema: the compound idempotency
    /// key, issue ids, subscriber ids and emails, and tokens are unique.
    pub open spec fn wf(self) -> bool {
        &&& forall|i: int, j: int|
            #![trigger self.idempotency[i], self.idempotency[j]]
            0 <= i < j < self.idempotency.len() ==> !record_matches(
                self.idempotency[i],
                self.idempotency[j].user_id,
                self.idempotency[j].idempotency_key,
            )
        &&& forall|i: int, j: int|
            #![trigger self.newsletter_issues[i], self.newsletter_issues[j]]
            0 <= i < j < self.newsletter_issues.len() ==> self.newsletter_issues[i].id
                != self.newsletter_issues[j].id
        &&& forall|i: int, j: int|
            #![trigger self.subscriptions[i], self.subscriptions[j]]
            0 <= i < j < self.subscriptions.len() ==> self.subscriptions[i].id
                != self.subscriptions[j].id && self.subscriptions[i].email
                != self.subscriptions[j].email
        &&& forall|i: int, j: int|
            #![trigger self.subscription_tokens[i], self.subscription_tokens[j]]
            0 <= i < j < self.subscription_tokens.len() ==> self.subscription_tokens[
                i
            ].subscription_token != self.subscription_tokens[j].subscription_token
    }
}

impl Store {
    /// An empty store: no rows in any table.
    pub fn new() -> (r: Store)
        ensures
            r@.idempotency == Seq::<IdempotencyRecordV>::empty(),
            r@.subscriptions == Seq::<SubscriberV>::empty(),
            r@.subscription_tokens == Seq::<SubscriptionTokenV>::empty(),
            r@.newsletter_issues == Seq::<NewsletterIssueV>::empty(),
            r@.issue_delivery_queue == Seq::<DeliveryTaskV>::empty(),
            r@.wf(),
    {
        let r = Store {
            idempotency: Vec::new(),
            subscriptions: Vec::new(),
            subscription_tokens: Vec::new(),
            newsletter_issues: Vec::new(),
            issue_delivery_queue: Vec::new(),
        };
        proof {
            assert(r@.idempotency =~= Seq::<IdempotencyRecordV>::empty());
            assert(r@.subscriptions =~= Seq::<SubscriberV>::empty());
            assert(r@.subscription_tokens =~= Seq::<SubscriptionTokenV>::empty());
            assert(r@.newsletter_issues =~= Seq::<NewsletterIssueV>::empty());
            assert(r@.issue_delivery_queue =~= Seq::<DeliveryTaskV>::empty());
        }
        r
    }

    /// Find the row index of the idempotency record for `(user, key)`.
    pub fn find_record(&self, user_id: u128, key: &String) -> (r: Option<usize>)
        ensures
            match r {
                Some(i) => i < self@.idempotency.len() && record_matches(
                    self@.idempotency[i as int],
                    user_id,
                    key@,
                ),
                None => !has_record(self@.idempotency, user_id, key@),
            },
    {
        let mut i: usize = 0;
        while i < self.idempotency.len()
            invariant
                0 <= i <= self@.idempotency.len(),
                forall|j: int|
                    0 <= j < i ==> !record_matches(#[trigger] self@.idempotency[j], user_id, key@),
            decreases self@.idempotency.len() - i,
        {
            let rec = &self.idempotency[i];
            if rec.user_id == user_id && rec.idempotency_key == *key {
                return Some(i);
            }
            i = i + 1;
        }
        None
    }

    /// Is some subscriber registered under this email?
    pub fn subscriber_email_exists(&self, email: &String) -> (r: bool)
        ensures
            r == has_subscriber_email(self@.subscriptions, email@),
    {
        let mut i: usize = 0;
        while i < self.subscriptions.len()
            invariant
                0 <= i <= self@.subscriptions.len(),
                forall|j: int| 0 <= j < i ==> (#[trigger] self@.subscriptions[j]).email != email@,
            decreases self@.subscriptions.len() - i,
        {
            if self.subscriptions[i].email == *email {
                proof {
                    assert(self@.subscriptions[i as int].email == email@);
                }
                return true;
            }
            i = i + 1;
        }
        false
    }

    /// Is some subscriber registered under this id?
    pub fn subscriber_id_exists(&self, id: u128) -> (r: bool)
        ensures
            r == has_subscriber_id(self@.subscriptions, id),
    {
        let mut i: usize = 0;
        while i < self.subscriptions.len()
            invariant
                0 <= i <= self@.subscriptions.len(),
                forall|j: int| 0 <= j < i ==> (#[trigger] self@.subscriptions[j]).id != id,
            decreases self@.subscriptions.len() - i,
        {
            if self.subscriptions[i].id == id {
                proof {
                    assert(self@.subscriptions[i as int].id == id);
                }
                return true;
            }
            i = i + 1;
        }
        false
    }

    /// Is this confirmation token already stored?
    pub fn token_exists(&self, token: &String) -> (r: bool)
        ensures
            r == has_token(self@.subscription_tokens, token@),
    {
        let mut i: usize = 0;
        while i < self.subscription_tokens.len()
            invariant
                0 <= i <= self@.subscription_tokens.len(),
                forall|j: int|
                    0 <= j < i ==> (#[trigger] self@.subscription_tokens[j]).subscription_token
                        != token@,
            decreases self@.subscription_tokens.len() - i,
        {
            if self.subscription_tokens[i].subscription_token == *token {
                proof {
                    assert(self@.subscription_tokens[i as int].subscription_token == token@);
                }
                return true;
            }
            i = i + 1;
        }
        false
    }

    /// Find the row index of the issue with `id`.
    pub fn find_issue(&self, id: u128) -> (r: Option<usize>)
        ensures
            match r {
                Some(i) => i < self@.newsletter_issues.len() && self@.newsletter_issues[i as int].id
                    == id,
                None => !has_issue(self@.newsletter_issues, id),
            },
    {
        let mut i: usize = 0;
        while i < self.newsletter_issues.len()
            invariant
                0 <= i <= self@.newsletter_issues.len(),
                forall|j: int| 0 <= j < i ==> (#[trigger] self@.newsletter_issues[j]).id != id,
            decreases self@.newsletter_issues.len() - i,
        {
            if self.newsletter_issues[i].id == id {
                return Some(i);
            }
            i = i + 1;
        }
        None
    }
}

/// Under `wf`, the record found for `(user, key)` is the only one, so it is
/// `record_at`.
pub proof fn lemma_record_unique(s: StoreV, user_id: u128, key: Seq<char>, i: int)
    requires
        s.wf(),
        0 <= i < s.idempotency.len(),
        record_matches(s.idempotency[i], user_id, key),
    ensures
        has_record(s.idempotency, user_id, key),
        record_idx(s.idempotency, user_id, key) == i,
        record_at(s.idempotency, user_id, key) == s.idempotency[i],
{
    assert(has_record(s.idempotency, user_id, key));
    let j = record_idx(s.idempotency, user_id, key);
    assert(0 <= j < s.idempotency.len() && record_matches(s.idempotency[j], user_id, key));
    if i != j {
        assert(false);
    }
}

/// Under `wf`, the issue found for `id` is the only one, so it is
/// `issue_at`.
pub proof fn lemma_issue_unique(s: StoreV, id: u128, i: int)
    requires
        s.wf(),
        0 <= i < s.newsletter_issues.len(),
        s.newsletter_issues[i].id == id,
    ensures
        has_issue(s.newsletter_issues, id),
        issue_idx(s.newsletter_issues, id) == i,
        issue_at(s.newsletter_issues, id) == s.newsletter_issues[i],
{
    assert(has_issue(s.newsletter_issues, id));
    let j = issue_idx(s.newsletter_issues, id);
    assert(0 <= j < s.newsletter_issues.len() && s.newsletter_issues[j].id == id);
    if i != j {
        assert(false);
    }
}

} // verus!
