//! The delivery worker: claim one task from the durable queue (an atomic
//! delete-and-return), validate the recipient, look up the issue, and hand
//! the embedding process the send to perform. A claimed task is gone
//! whatever happens next: a malformed address or a failed send is logged
//! and dropped, never retried.
use crate::domain::valid_email;
use crate::domain::validate_email;
use crate::store::{
    has_issue, issue_at, DeliveryTask, DeliveryTaskV, NewsletterIssue, Store, StoreV,
};
use vstd::prelude::*;

verus! {

/// What one worker attempt did: claimed and finished a task, or found the
/// queue empty.
#[derive(Clone, Copy, PartialEq, Eq, Debug)]
pub enum ExecutionOutcome {
    TaskCompleted,
    EmptyQueue,
}

/// The outside work a completed attempt asks the embedding process to do.
#[derive(Debug)]
pub enum DeliveryAction {
    /// Send the issue to this (validated) recipient. A send failure is
    /// logged and dropped: the task cannot be reclaimed.
    SendEmail {
        subscriber_email: crate::domain::SubscriberEmail,
        title: String,
        html_content: String,
        text_content: String,
    },
    /// The stored address is malformed: log and drop.
    SkipInvalid { subscriber_email: String },
}

/// Mathematical image of a `DeliveryAction`.
pub enum DeliveryActionV {
    SendEmail {
        subscriber_email: Seq<char>,
        title: Seq<char>,
        html_content: Seq<char>,
        text_content: Seq<char>,
    },
    SkipInvalid { subscriber_email: Seq<char> },
}

impl View for DeliveryAction {
    type V = DeliveryActionV;

    open spec fn view(&self) -> DeliveryActionV {
        match self {
            DeliveryAction::SendEmail {
                subscriber_email,
                title,
                html_content,
                text_content,
            } => DeliveryActionV::SendEmail {
                subscriber_email: subscriber_email@,
                title: title@,
                html_content: html_content@,
                text_content: text_content@,
            },
            DeliveryAction::SkipInvalid { subscriber_email } => DeliveryActionV::SkipInvalid {
                subscriber_email: subscriber_email@,
            },
        }
    }
}

/// A data-integrity fault: a claimed task points at an issue that does not
/// exist. Issues are created before their tasks and never deleted, so this
/// cannot arise from this library's own transitions.
#[derive(Clone, Copy, PartialEq, Eq, Debug)]
pub enum WorkerError {
    IssueMissing { newsletter_issue_id: u128 },
}

/// One worker attempt as a transition on the store: the outcome (with the
/// send to perform) and the store afterwards. The claimed task is removed
/// in every case, including the error.
pub open spec fn spec_try_execute_task(s: StoreV) -> (Result<
    (ExecutionOutcome, Option<DeliveryActionV>),
    WorkerError,
>, StoreV) {
    if s.issue_delivery_queue.len() == 0 {
        (Ok((ExecutionOutcome::EmptyQueue, None)), s)
    } else {
        let task = s.issue_delivery_queue[0];
        let s2 = StoreV { issue_delivery_queue: s.issue_delivery_queue.drop_first(), ..s };
        if !valid_email(task.subscriber_email) {
            (
                Ok(
                    (
                        ExecutionOutcome::TaskCompleted,
                        Some(
                            DeliveryActionV::SkipInvalid {
                                subscriber_email: task.subscriber_email,
                            },
                        ),
                    ),
                ),
                s2,
            )
        } else if !has_issue(s.newsletter_issues, task.newsletter_issue_id) {
            (Err(WorkerError::IssueMissing { newsletter_issue_id: task.newsletter_issue_id }), s2)
        } else {
            let issue = issue_at(s.newsletter_issues, task.newsletter_issue_id);
            (
                Ok(
                    (
                        ExecutionOutcome::TaskCompleted,
                        Some(
                            DeliveryActionV::SendEmail {
                                subscriber_email: task.subscriber_email,
                                title: issue.title,
                                html_content: issue.html_content,
                                text_content: issue.text_content,
                            },
                        ),
                    ),
                ),
                s2,
            )
        }
    }
}

/// Atomically delete and return one pending task; `None` on an empty
/// queue. No two claims can return the same row.
pub fn dequeue_task(store: &mut Store) -> (r: Option<DeliveryTask>)
    requires
        old(store)@.wf(),
    ensures
        final(store)@.wf(),
        old(store)@.issue_delivery_queue.len() == 0 ==> (r is None && final(store)@ == old(
            store,
        )@),
        old(store)@.issue_delivery_queue.len() > 0 ==> (r matches Some(t) && t@ == old(
            store,
        )@.issue_delivery_queue[0] && final(store)@ == (StoreV {
            issue_delivery_queue: old(store)@.issue_delivery_queue.drop_first(),
            ..old(store)@
        })),
{
    if store.issue_delivery_queue.len() == 0 {
        return None;
    }
    let t = store.issue_delivery_queue.remove(0);
    proof {
        assert(store@.issue_delivery_queue =~= old(store)@.issue_delivery_queue.drop_first());
        assert(store@ =~= StoreV {
            issue_delivery_queue: old(store)@.issue_delivery_queue.drop_first(),
            ..old(store)@
        });
    }
    Some(t)
}

/// Copy an issue row; the copy holds the same values.
fn clone_issue(issue: &NewsletterIssue) -> (r: NewsletterIssue)
    ensures
        r@ == issue@,
{
    NewsletterIssue {
        id: issue.id,
        title: crate::newsletter::clone_string(&issue.title),
        text_content: crate::newsletter::clone_string(&issue.text_content),
        html_content: crate::newsletter::clone_string(&issue.html_content),
        published_at: crate::newsletter::clone_string(&issue.published_at),
    }
}

/// Load the issue a task points at. Issues are immutable and created
/// before their tasks, so a miss is a data-integrity fault.
pub fn get_issue(store: &Store, newsletter_issue_id: u128) -> (r: Result<
    NewsletterIssue,
    WorkerError,
>)
    requires
        store@.wf(),
    ensures
        has_issue(store@.newsletter_issues, newsletter_issue_id) ==> (r matches Ok(issue)
            && issue@ == issue_at(store@.newsletter_issues, newsletter_issue_id)),
        !has_issue(store@.newsletter_issues, newsletter_issue_id) ==> (r matches Err(e) && e
            == (WorkerError::IssueMissing { newsletter_issue_id })),
{
    match store.find_issue(newsletter_issue_id) {
        None => Err(WorkerError::IssueMissing { newsletter_issue_id }),
        Some(i) => {
            proof {
                crate::store::lemma_issue_unique(store@, newsletter_issue_id, i as int);
            }
            Ok(clone_issue(&store.newsletter_issues[i]))
        },
    }
}

/// One worker attempt: claim a task, validate its recipient, load its
/// issue, and say what to send. Mirrors `spec_try_execute_task` exactly.
pub fn try_execute_task(store: &mut Store) -> (r: Result<
    (ExecutionOutcome, Option<DeliveryAction>),
    WorkerError,
>)
    requires
        old(store)@.wf(),
    ensures
        final(store)@.wf(),
        ({
            let (sr, ss) = spec_try_execute_task(old(store)@);
            &&& final(store)@ == ss
            &&& match (r, sr) {
                (Ok((o1, a1)), Ok((o2, a2))) => o1 == o2 && match (a1, a2) {
                    (Some(x), Some(y)) => x@ == y,
                    (None, None) => true,
                    _ => false,
                },
                (Err(e1), Err(e2)) => e1 == e2,
                _ => false,
            }
        }),
{
    let task = match dequeue_task(store) {
        None => {
            return Ok((ExecutionOutcome::EmptyQueue, None));
        },
        Some(t) => t,
    };
    if !validate_email(task.subscriber_email.as_str()) {
        return Ok(
            (
                ExecutionOutcome::TaskCompleted,
                Some(DeliveryAction::SkipInvalid { subscriber_email: task.subscriber_email }),
            ),
        );
    }
    let issue = match get_issue(store, task.newsletter_issue_id) {
        Err(e) => {
            return Err(e);
        },
        Ok(issue) => issue,
    };
    let subscriber_email = match crate::domain::SubscriberEmail::parse(task.subscriber_email) {
        Ok(e) => e,
        Err(_) => {
            // The address was just validated.
            proof {
                assert(false);
            }
            return Err(WorkerError::IssueMissing { newsletter_issue_id: task.newsletter_issue_id });
        },
    };
    Ok(
        (
            ExecutionOutcome::TaskCompleted,
            Some(
                DeliveryAction::SendEmail {
                    subscriber_email,
                    title: issue.title,
                    html_content: issue.html_content,
                    text_content: issue.text_content,
                },
            ),
        ),
    )
}

/// The loop policy around `try_execute_task`: idle a while when the queue
/// is empty, back off briefly after an error, move straight on after a
/// completed task. The embedding process runs the loop and sleeps.
pub open spec fn spec_worker_backoff_seconds(
    r: Result<(ExecutionOutcome, Option<DeliveryActionV>), WorkerError>,
) -> u64 {
    match r {
        Ok((ExecutionOutcome::EmptyQueue, _)) => 10,
        Ok((ExecutionOutcome::TaskCompleted, _)) => 0,
        Err(_) => 1,
    }
}

/// Executable mirror of `spec_worker_backoff_seconds`.
pub fn worker_backoff_seconds(r: &Result<(ExecutionOutcome, Option<DeliveryAction>), WorkerError>)
    -> (n: u64)
    ensures
        match r {
            Ok((ExecutionOutcome::EmptyQueue, _)) => n == 10,
            Ok((ExecutionOutcome::TaskCompleted, _)) => n == 0,
            Err(_) => n == 1,
        },
{
    match r {
        Ok((ExecutionOutcome::EmptyQueue, _)) => 10,
        Ok((ExecutionOutcome::TaskCompleted, _)) => 0,
        Err(_) => 1,
    }
}

/// The store after `n` worker attempts.
pub open spec fn spec_drain(s: StoreV, n: nat) -> StoreV
    decreases n,
{
    if n == 0 {
        s
    } else {
        spec_drain(spec_try_execute_task(s).1, (n - 1) as nat)
    }
}

/// Worker attempts never refill the queue: after `n` attempts the queue is
/// exactly the original minus its first `n` rows. A claimed task — dropped
/// for a malformed address, a failed send, or anything else — never
/// reappears.
pub proof fn lemma_worker_never_requeues(s: StoreV, n: nat)
    ensures
        spec_drain(s, n).issue_delivery_queue == (if n <= s.issue_delivery_queue.len() {
            s.issue_delivery_queue.skip(n as int)
        } else {
            Seq::<DeliveryTaskV>::empty()
        }),
        spec_drain(s, n).idempotency == s.idempotency,
        spec_drain(s, n).subscriptions == s.subscriptions,
        spec_drain(s, n).subscription_tokens == s.subscription_tokens,
        spec_drain(s, n).newsletter_issues == s.newsletter_issues,
    decreases n,
{
    if n == 0 {
        assert(s.issue_delivery_queue.skip(0) =~= s.issue_delivery_queue);
    } else {
        let s2 = spec_try_execute_task(s).1;
        lemma_worker_never_requeues(s2, (n - 1) as nat);
        if s.issue_delivery_queue.len() == 0 {
            assert(s2 == s);
        } else {
            assert(s2.issue_delivery_queue =~= s.issue_delivery_queue.skip(1));
            if n <= s.issue_delivery_queue.len() {
                assert(s.issue_delivery_queue.skip(1).skip(n - 1) =~= s.issue_delivery_queue.skip(
                    n as int,
                ));
            }
        }
    }
}

/// Malformed recipient is dropped, not retried: when the next task's
/// address fails the grammar, one attempt completes, asks only for a
/// logged skip, removes exactly that task, and touches nothing else.
/// With `lemma_worker_never_requeues`, the dropped task never reappears.
pub proof fn lemma_malformed_recipient_dropped(s: StoreV)
    requires
        s.issue_delivery_queue.len() > 0,
        !valid_email(s.issue_delivery_queue[0].subscriber_email),
    ensures
        ({
            let (r, s2) = spec_try_execute_task(s);
            &&& r == Ok::<_, WorkerError>(
                (
                    ExecutionOutcome::TaskCompleted,
                    Some(
                        DeliveryActionV::SkipInvalid {
                            subscriber_email: s.issue_delivery_queue[0].subscriber_email,
                        },
                    ),
                ),
            )
            &&& s2.issue_delivery_queue == s.issue_delivery_queue.drop_first()
            &&& s2.idempotency == s.idempotency
            &&& s2.subscriptions == s.subscriptions
            &&& s2.subscription_tokens == s.subscription_tokens
            &&& s2.newsletter_issues == s.newsletter_issues
        }),
{
}

/// Queue drains to empty: when every queued task points at an existing
/// issue — as every task enqueued by a publish does — each of the next
/// `len` attempts completes a task, the queue is then empty, the attempt
/// after that reports the empty queue, and no other table ever changes.
pub proof fn lemma_queue_drains_to_empty(s: StoreV)
    requires
        forall|i: int|
            0 <= i < s.issue_delivery_queue.len() ==> has_issue(
                s.newsletter_issues,
                (#[trigger] s.issue_delivery_queue[i]).newsletter_issue_id,
            ),
    ensures
        forall|n: nat|
            n < s.issue_delivery_queue.len() ==> (#[trigger] spec_try_execute_task(
                spec_drain(s, n),
            ).0 matches Ok(o) && o.0 is TaskCompleted),
        spec_drain(s, s.issue_delivery_queue.len() as nat).issue_delivery_queue == Seq::<
            DeliveryTaskV,
        >::empty(),
        spec_try_execute_task(spec_drain(s, s.issue_delivery_queue.len() as nat)).0 == Ok::<
            _,
            WorkerError,
        >((ExecutionOutcome::EmptyQueue, None::<DeliveryActionV>)),
        spec_drain(s, s.issue_delivery_queue.len() as nat).newsletter_issues
            == s.newsletter_issues,
        spec_drain(s, s.issue_delivery_queue.len() as nat).idempotency == s.idempotency,
        spec_drain(s, s.issue_delivery_queue.len() as nat).subscriptions == s.subscriptions,
        spec_drain(s, s.issue_delivery_queue.len() as nat).subscription_tokens
            == s.subscription_tokens,
    decreases s.issue_delivery_queue.len(),
{
    let len = s.issue_delivery_queue.len();
    lemma_worker_never_requeues(s, len as nat);
    if len == 0 {
    } else {
        let s2 = spec_try_execute_task(s).1;
        assert(s2.issue_delivery_queue =~= s.issue_delivery_queue.drop_first());
        assert forall|i: int| 0 <= i < s2.issue_delivery_queue.len() implies has_issue(
            s2.newsletter_issues,
            (#[trigger] s2.issue_delivery_queue[i]).newsletter_issue_id,
        ) by {
            assert(s2.issue_delivery_queue[i] == s.issue_delivery_queue[i + 1]);
        }
        lemma_queue_drains_to_empty(s2);
        assert(spec_drain(s, len as nat) == spec_drain(s2, (len - 1) as nat));
        assert forall|n: nat| n < len implies (#[trigger] spec_try_execute_task(
            spec_drain(s, n),
        ).0 matches Ok(o) && o.0 is TaskCompleted) by {
            if n == 0 {
                assert(spec_drain(s, 0) == s);
            } else {
                assert(spec_drain(s, n) == spec_drain(s2, (n - 1) as nat));
            }
        }
    }
}

} // verus!
