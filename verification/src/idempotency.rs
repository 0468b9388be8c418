//! The idempotency cache: maps `(user, idempotency key)` to a previously
//! computed response so that a retried publish request never re-runs its
//! side effects.
//!
//! `try_processing` is the begin step: it either hands back a reservation
//! (a transaction value holding the pending writes) or replays the saved
//! response. `save_response` is the complete step: the single commit that
//! makes the reservation, the staged issue, the staged tasks and the
//! response columns visible atomically. Abandoning a reservation writes
//! nothing: only `save_response` takes the store mutably.
use crate::response::{
    spec_decode_headers, spec_encode_headers, decode_headers, encode_headers, HttpResponse,
    HttpResponseV,
};
use crate::store::{
    has_issue, has_record, record_at, record_matches, DeliveryTask, DeliveryTaskV,
    IdempotencyRecord, IdempotencyRecordV, NewsletterIssue, NewsletterIssueV, ResponseColumns,
    ResponseColumnsV, Store, StoreV,
};
use vstd::prelude::*;
use vstd::string::StringSliceAdditionalSpecFns;

verus! {

/// A character an idempotency key may contain: ASCII letters, digits,
/// hyphen, underscore.
pub open spec fn is_key_char(c: char) -> bool {
    ('a' <= c && c <= 'z') || ('A' <= c && c <= 'Z') || ('0' <= c && c <= '9') || c == '-' || c
        == '_'
}

/// The idempotency-key grammar: non-empty, at most
/// `IDEMPOTENCY_KEY_MAX_LEN` characters, all from the restricted set.
pub open spec fn valid_idempotency_key(s: Seq<char>) -> bool {
    &&& 1 <= s.len() <= crate::IDEMPOTENCY_KEY_MAX_LEN
    &&& forall|i: int| 0 <= i < s.len() ==> is_key_char(#[trigger] s[i])
}

/// Check a candidate key against the grammar.
pub fn validate_idempotency_key(s: &str) -> (r: bool)
    ensures
        r == valid_idempotency_key(s@),
{
    if !s.is_ascii() {
        proof {
            if valid_idempotency_key(s@) {
                assert forall|i: int| 0 <= i < s@.len() implies '\0' <= #[trigger] s@[i]
                    <= '\u{7f}' by {
                    assert(is_key_char(s@[i]));
                }
                assert(vstd::utf8::is_ascii_chars(s@));
            }
        }
        return false;
    }
    proof {
        vstd::utf8::is_ascii_chars_encode_utf8(s@);
    }
    let b = s.as_bytes();
    if b.len() < 1 || b.len() > crate::IDEMPOTENCY_KEY_MAX_LEN {
        return false;
    }
    let mut i: usize = 0;
    while i < b.len()
        invariant
            0 <= i <= b@.len(),
            b@ == s.spec_bytes(),
            vstd::utf8::is_ascii_chars(s@),
            s@.len() == b@.len(),
            forall|j: int| #![trigger s@[j]] 0 <= j < s@.len() ==> s@[j] as u8 == b@[j],
            forall|j: int| 0 <= j < i ==> is_key_char(#[trigger] s@[j]),
        decreases b@.len() - i,
    {
        let c = b[i];
        // ASCII codes: a-z, A-Z, 0-9, '-' (45), '_' (95)
        let ok = (97 <= c && c <= 122) || (65 <= c && c <= 90) || (48 <= c && c <= 57) || c == 45
            || c == 95;
        proof {
            assert(s@[i as int] as u8 == b@[i as int]);
            assert('\0' <= s@[i as int] <= '\u{7f}');
        }
        if !ok {
            return false;
        }
        i = i + 1;
    }
    true
}

/// A validated idempotency key: the token that scopes one logical
/// side-effecting operation.
pub struct IdempotencyKey {
    key: String,
}

impl View for IdempotencyKey {
    type V = Seq<char>;

    closed spec fn view(&self) -> Seq<char> {
        self.key@
    }
}

impl Clone for IdempotencyKey {
    fn clone(&self) -> (r: Self)
        ensures
            r@ == self@,
    {
        IdempotencyKey { key: self.key.clone() }
    }
}

impl IdempotencyKey {
    /// Every value of the type satisfies the grammar.
    pub open spec fn wf(self) -> bool {
        valid_idempotency_key(self@)
    }

    /// Accept a client-supplied token, rejecting anything outside the
    /// grammar before storage is touched.
    pub fn try_from(s: String) -> (r: Result<IdempotencyKey, String>)
        ensures
            valid_idempotency_key(s@) ==> (r matches Ok(k) && k@ == s@),
            !valid_idempotency_key(s@) ==> r is Err,
            r matches Ok(k) ==> k.wf(),
    {
        if validate_idempotency_key(s.as_str()) {
            Ok(IdempotencyKey { key: s })
        } else {
            Err(String::from_str("the idempotency key must be 1 to 50 characters, each a letter, a digit, a hyphen or an underscore"))
        }
    }

    /// The key's characters.
    pub fn as_str(&self) -> (r: &str)
        ensures
            r@ == self@,
    {
        self.key.as_str()
    }
}

/// Failures of the cache itself, distinct from client errors.
#[derive(Clone, Copy, PartialEq, Eq, Debug)]
pub enum IdempotencyError {
    /// A record for the key exists but holds no completed response: its
    /// owner crashed before completing, or a bug. Fatal for this request.
    ExpectedSavedResponse,
    /// A completed record whose response columns cannot be reconstructed.
    CorruptSavedResponse,
}

/// An open unit of work: the reservation made for `(user, key)` plus the
/// writes staged behind it. Dropping it commits nothing; only
/// `save_response` writes to the store.
pub struct Transaction {
    pub user_id: u128,
    pub idempotency_key: IdempotencyKey,
    pub created_at: String,
    pub newsletter_issue: Option<NewsletterIssue>,
    pub tasks: Vec<DeliveryTask>,
}

/// Mathematical image of a `Transaction`.
#[verifier::ext_equal]
pub struct TransactionV {
    pub user_id: u128,
    pub idempotency_key: Seq<char>,
    pub created_at: Seq<char>,
    pub newsletter_issue: Option<NewsletterIssueV>,
    pub tasks: Seq<DeliveryTaskV>,
}

impl View for Transaction {
    type V = TransactionV;

    open spec fn view(&self) -> TransactionV {
        TransactionV {
            user_id: self.user_id,
            idempotency_key: self.idempotency_key@,
            created_at: self.created_at@,
            newsletter_issue: match self.newsletter_issue {
                Some(ref i) => Some(i@),
                None => None,
            },
            tasks: self.tasks@.map_values(|t: DeliveryTask| t@),
        }
    }
}

impl TransactionV {
    /// The transaction can still commit against `s`: its reservation is
    /// the only one for the key, and its staged issue id is unused. The
    /// storage's locking guarantees this between begin and complete.
    pub open spec fn committable(self, s: StoreV) -> bool {
        &&& !has_record(s.idempotency, self.user_id, self.idempotency_key)
        &&& match self.newsletter_issue {
            Some(iss) => !has_issue(s.newsletter_issues, iss.id),
            None => true,
        }
    }
}

/// A fresh reservation: no staged writes yet.
pub open spec fn spec_reservation(user_id: u128, key: Seq<char>, now: Seq<char>) -> TransactionV {
    TransactionV {
        user_id,
        idempotency_key: key,
        created_at: now,
        newsletter_issue: None,
        tasks: Seq::empty(),
    }
}

/// What `try_processing` hands back: either the open reservation, or the
/// response saved by the execution that owned this key.
pub enum NextAction {
    StartProcessing(Transaction),
    ReturnSavedResponse(HttpResponse),
}

/// Spec-level image of `NextAction`.
pub enum SpecNextAction {
    StartProcessing(TransactionV),
    ReturnSavedResponse(HttpResponseV),
}

/// Reconstruct the response saved in a record: the inverse of
/// `spec_response_columns`, or an error for a reserved or corrupt record.
pub open spec fn spec_saved_response(rec: IdempotencyRecordV) -> Result<
    HttpResponseV,
    IdempotencyError,
> {
    match rec.response {
        None => Err(IdempotencyError::ExpectedSavedResponse),
        Some(cols) => {
            if !(100 <= cols.response_status_code <= 999) {
                Err(IdempotencyError::CorruptSavedResponse)
            } else {
                match spec_decode_headers(cols.response_headers) {
                    Some(hs) => Ok(
                        HttpResponseV {
                            status: cols.response_status_code,
                            headers: hs,
                            body: cols.response_body,
                        },
                    ),
                    None => Err(IdempotencyError::CorruptSavedResponse),
                }
            }
        },
    }
}

/// The begin step on the store value: reserve if the key is unseen, else
/// replay (or fail on a reserved/corrupt record).
pub open spec fn spec_try_processing(
    s: StoreV,
    user_id: u128,
    key: Seq<char>,
    now: Seq<char>,
) -> Result<SpecNextAction, IdempotencyError> {
    if !has_record(s.idempotency, user_id, key) {
        Ok(SpecNextAction::StartProcessing(spec_reservation(user_id, key, now)))
    } else {
        match spec_saved_response(record_at(s.idempotency, user_id, key)) {
            Ok(resp) => Ok(SpecNextAction::ReturnSavedResponse(resp)),
            Err(e) => Err(e),
        }
    }
}

/// How a response is serialized into record columns.
pub open spec fn spec_response_columns(resp: HttpResponseV) -> ResponseColumnsV {
    ResponseColumnsV {
        response_status_code: resp.status,
        response_headers: spec_encode_headers(resp.headers),
        response_body: resp.body,
    }
}

/// The record a completed transaction leaves behind.
pub open spec fn spec_committed_record(t: TransactionV, resp: HttpResponseV) -> IdempotencyRecordV {
    IdempotencyRecordV {
        user_id: t.user_id,
        idempotency_key: t.idempotency_key,
        created_at: t.created_at,
        response: Some(spec_response_columns(resp)),
    }
}

/// The single atomic commit: the completed record, the staged issue and
/// the staged tasks become visible together; nothing else changes.
pub open spec fn spec_commit(s: StoreV, t: TransactionV, resp: HttpResponseV) -> StoreV {
    StoreV {
        idempotency: s.idempotency.push(spec_committed_record(t, resp)),
        subscriptions: s.subscriptions,
        subscription_tokens: s.subscription_tokens,
        newsletter_issues: s.newsletter_issues + (match t.newsletter_issue {
            Some(iss) => seq![iss],
            None => Seq::empty(),
        }),
        issue_delivery_queue: s.issue_delivery_queue + t.tasks,
    }
}

/// Copy a byte vector; the copy has the same bytes.
pub fn clone_bytes(v: &Vec<u8>) -> (r: Vec<u8>)
    ensures
        r@ == v@,
{
    let r = v.clone();
    proof {
        assert forall|i: int| 0 <= i < v@.len() implies r@[i] == v@[i] by {
            assert(cloned::<u8>(v[i], r[i]));
        }
        assert(r@ =~= v@);
    }
    r
}

/// Look up the response saved for `(user, key)`: `Ok(None)` when no record
/// exists, the reconstructed response when a completed one does, an error
/// when the record is reserved or corrupt.
pub fn get_saved_response(store: &Store, idempotency_key: &IdempotencyKey, user_id: u128) -> (r:
    Result<Option<HttpResponse>, IdempotencyError>)
    requires
        store@.wf(),
    ensures
        !has_record(store@.idempotency, user_id, idempotency_key@) ==> (r matches Ok(o) && o
            is None),
        has_record(store@.idempotency, user_id, idempotency_key@) ==> match spec_saved_response(
            record_at(store@.idempotency, user_id, idempotency_key@),
        ) {
            Ok(v) => r matches Ok(o) && o matches Some(resp) && resp@ == v,
            Err(e) => r matches Err(e2) && e2 == e,
        },
{
    let idx = match store.find_record(user_id, &idempotency_key_string(idempotency_key)) {
        None => {
            return Ok(None);
        },
        Some(i) => i,
    };
    proof {
        crate::store::lemma_record_unique(store@, user_id, idempotency_key@, idx as int);
    }
    let rec = &store.idempotency[idx];
    match rec.response {
        None => Err(IdempotencyError::ExpectedSavedResponse),
        Some(ref cols) => {
            if !(100 <= cols.response_status_code && cols.response_status_code <= 999) {
                return Err(IdempotencyError::CorruptSavedResponse);
            }
            match decode_headers(cols.response_headers.as_slice()) {
                None => Err(IdempotencyError::CorruptSavedResponse),
                Some(headers) => Ok(
                    Some(
                        HttpResponse {
                            status: cols.response_status_code,
                            headers,
                            body: clone_bytes(&cols.response_body),
                        },
                    ),
                ),
            }
        },
    }
}

/// The key's characters as an owned string, for row comparisons.
fn idempotency_key_string(k: &IdempotencyKey) -> (r: String)
    ensures
        r@ == k@,
{
    String::from_str(k.as_str())
}

/// The begin step. Within one storage transaction, try to reserve
/// `(user, key)`; on conflict fall onto the lookup-and-replay path.
/// Takes the store immutably: the reservation is pending inside the
/// returned transaction until `save_response` commits it.
pub fn try_processing(
    store: &Store,
    idempotency_key: &IdempotencyKey,
    user_id: u128,
    now: String,
) -> (r: Result<NextAction, IdempotencyError>)
    requires
        store@.wf(),
    ensures
        match (r, spec_try_processing(store@, user_id, idempotency_key@, now@)) {
            (Ok(NextAction::StartProcessing(t)), Ok(SpecNextAction::StartProcessing(tv))) => t@
                == tv,
            (
                Ok(NextAction::ReturnSavedResponse(resp)),
                Ok(SpecNextAction::ReturnSavedResponse(rv)),
            ) => resp@ == rv,
            (Err(e), Err(ev)) => e == ev,
            _ => false,
        },
{
    let found = match store.find_record(user_id, &idempotency_key_string(idempotency_key)) {
        Some(i) => {
            proof {
                crate::store::lemma_record_unique(store@, user_id, idempotency_key@, i as int);
            }
            true
        },
        None => false,
    };
    if found {
        match get_saved_response(store, idempotency_key, user_id) {
            Ok(Some(resp)) => Ok(NextAction::ReturnSavedResponse(resp)),
            Ok(None) => {
                // A record was found above, so the lookup cannot miss.
                proof {
                    assert(false);
                }
                Err(IdempotencyError::ExpectedSavedResponse)
            },
            Err(e) => Err(e),
        }
    } else {
        let t = Transaction {
            user_id,
            idempotency_key: idempotency_key.clone(),
            created_at: now,
            newsletter_issue: None,
            tasks: Vec::new(),
        };
        proof {
            assert(t@.tasks =~= Seq::<DeliveryTaskV>::empty());
            assert(t@ =~= spec_reservation(user_id, idempotency_key@, now@));
        }
        Ok(NextAction::StartProcessing(t))
    }
}

/// The complete step: fill the reserved record with the response's status,
/// framed headers and body, and commit everything the transaction staged.
/// Returns the response unchanged (pass-through).
pub fn save_response(store: &mut Store, transaction: Transaction, response: HttpResponse) -> (r:
    HttpResponse)
    requires
        old(store)@.wf(),
        transaction@.committable(old(store)@),
    ensures
        final(store)@ == spec_commit(old(store)@, transaction@, response@),
        final(store)@.wf(),
        r == response,
{
    let ghost s0 = store@;
    let Transaction { user_id, idempotency_key, created_at, newsletter_issue, tasks: mut tasks } =
        transaction;
    let cols = ResponseColumns {
        response_status_code: response.status,
        response_headers: encode_headers(&response.headers),
        response_body: clone_bytes(&response.body),
    };
    let rec = IdempotencyRecord {
        user_id,
        idempotency_key: idempotency_key_string(&idempotency_key),
        created_at,
        response: Some(cols),
    };
    store.idempotency.push(rec);
    match newsletter_issue {
        Some(issue) => {
            store.newsletter_issues.push(issue);
        },
        None => {},
    }
    store.issue_delivery_queue.append(&mut tasks);
    proof {
        let sc = spec_commit(s0, transaction@, response@);
        assert(store@.idempotency =~= sc.idempotency);
        assert(store@.newsletter_issues =~= sc.newsletter_issues);
        assert(store@.issue_delivery_queue =~= sc.issue_delivery_queue);
        assert(store@ =~= sc);
        lemma_commit_wf(s0, transaction@, response@);
    }
    response
}

/// Header/body fidelity: a response carried through the complete step and
/// looked up again by the begin step comes back exactly — status code,
/// headers in order with duplicate names intact, and body bytes — whatever
/// timestamp the later request carries.
pub proof fn lemma_replay_after_commit(
    s: StoreV,
    t: TransactionV,
    resp: HttpResponseV,
    now2: Seq<char>,
)
    requires
        s.wf(),
        t.committable(s),
        resp.wf(),
    ensures
        spec_try_processing(spec_commit(s, t, resp), t.user_id, t.idempotency_key, now2) == Ok::<
            SpecNextAction,
            IdempotencyError,
        >(SpecNextAction::ReturnSavedResponse(resp)),
{
    let s2 = spec_commit(s, t, resp);
    lemma_commit_wf(s, t, resp);
    let n = s.idempotency.len() as int;
    let rec = spec_committed_record(t, resp);
    assert(s2.idempotency[n] == rec);
    assert(record_matches(s2.idempotency[n], t.user_id, t.idempotency_key));
    crate::store::lemma_record_unique(s2, t.user_id, t.idempotency_key, n);
    crate::response::lemma_headers_round_trip(resp.headers);
    assert(spec_saved_response(rec) == Ok::<HttpResponseV, IdempotencyError>(
        HttpResponseV { status: resp.status, headers: resp.headers, body: resp.body },
    ));
    assert(HttpResponseV { status: resp.status, headers: resp.headers, body: resp.body } =~= resp);
}

/// Committing a committable transaction preserves the store's constraints.
pub proof fn lemma_commit_wf(s: StoreV, t: TransactionV, resp: HttpResponseV)
    requires
        s.wf(),
        t.committable(s),
    ensures
        spec_commit(s, t, resp).wf(),
{
    let sc = spec_commit(s, t, resp);
    assert forall|i: int, j: int| 0 <= i < j < sc.idempotency.len() implies !record_matches(
        #[trigger] sc.idempotency[i],
        #[trigger] sc.idempotency[j].user_id,
        sc.idempotency[j].idempotency_key,
    ) by {
        if j == sc.idempotency.len() - 1 {
            assert(sc.idempotency[i] == s.idempotency[i]);
            if record_matches(s.idempotency[i], t.user_id, t.idempotency_key) {
                assert(has_record(s.idempotency, t.user_id, t.idempotency_key));
            }
        } else {
            assert(sc.idempotency[i] == s.idempotency[i]);
            assert(sc.idempotency[j] == s.idempotency[j]);
        }
    }
    assert forall|i: int, j: int| 0 <= i < j < sc.newsletter_issues.len() implies (
    #[trigger] sc.newsletter_issues[i]).id != (#[trigger] sc.newsletter_issues[j]).id by {
        if j >= s.newsletter_issues.len() {
            let iss = t.newsletter_issue->Some_0;
            assert(sc.newsletter_issues[j] == iss);
            assert(sc.newsletter_issues[i] == s.newsletter_issues[i]);
            if s.newsletter_issues[i].id == iss.id {
                assert(has_issue(s.newsletter_issues, iss.id));
            }
        } else {
            assert(sc.newsletter_issues[i] == s.newsletter_issues[i]);
            assert(sc.newsletter_issues[j] == s.newsletter_issues[j]);
        }
    }
}

} // verus!
