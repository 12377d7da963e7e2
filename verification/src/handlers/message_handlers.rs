use vstd::prelude::*;

use crate::config::text_or;
use crate::models::request::{EmailMessageStatus, EmailRequest};

verus! {

/// One message of a creation request: a subject and content for a list of recipients.
pub struct Message {
    pub topic_id: Option<String>,
    pub emails: Vec<String>,
    pub subject: String,
    pub content: String,
}

/// A request to create messages, sent at `scheduled_at` (local time) or at once.
pub struct CreateMessageRequest {
    pub messages: Vec<Message>,
    pub scheduled_at: Option<String>,
}

/// The status new requests start in: `Processed` (sent at once) where no schedule time
/// is given or it is empty, `Created` (waiting for the scheduler) otherwise.
pub open spec fn initial_status(scheduled_at: Option<String>) -> EmailMessageStatus {
    match scheduled_at {
        Some(s) => if s@.len() == 0 {
            EmailMessageStatus::Processed
        } else {
            EmailMessageStatus::Created
        },
        None => EmailMessageStatus::Processed,
    }
}

/// Number of recipients in the first `count` messages.
pub open spec fn recipients_before(messages: Seq<Message>, count: int) -> int
    decreases count,
{
    if count <= 0 {
        0
    } else {
        recipients_before(messages, count - 1) + messages[count - 1].emails@.len()
    }
}

/// The request created for recipient `email` of message `message`.
pub open spec fn is_request_for(
    r: EmailRequest,
    message: Message,
    email: String,
    scheduled_at: Option<String>,
    status: EmailMessageStatus,
) -> bool {
    &&& r.id is None
    &&& r.topic_id is Some
    &&& r.topic_id.unwrap()@ == text_or(message.topic_id, ""@)
    &&& r.email == email
    &&& r.subject == message.subject
    &&& r.content == message.content
    &&& r.scheduled_at == scheduled_at
    &&& r.status == status.code_of()
    &&& r.error is None
    &&& r.message_id is None
}

/// The status new requests start in.
pub fn message_status(scheduled_at: &Option<String>) -> (r: EmailMessageStatus)
    ensures
        r == initial_status(*scheduled_at),
{
    match scheduled_at {
        Some(s) => if s.as_str().is_empty() {
            EmailMessageStatus::Processed
        } else {
            EmailMessageStatus::Created
        },
        None => EmailMessageStatus::Processed,
    }
}

/// Whether a request is handed to the sender as soon as it is saved.
pub fn dispatch_on_save(status: EmailMessageStatus) -> (r: bool)
    ensures
        r == (status == EmailMessageStatus::Processed),
{
    match status {
        EmailMessageStatus::Processed => true,
        _ => false,
    }
}

/// Requests go to the sender as soon as they are saved exactly when no schedule time
/// (or an empty one) is given; otherwise they wait for the scheduler in `Created`.
pub proof fn lemma_immediate_dispatch(scheduled_at: Option<String>)
    ensures
        (initial_status(scheduled_at) == EmailMessageStatus::Processed) <==> (scheduled_at is None
            || scheduled_at.unwrap()@.len() == 0),
        (initial_status(scheduled_at) == EmailMessageStatus::Created) <==> (scheduled_at is Some
            && scheduled_at.unwrap()@.len() > 0),
{
}

/// The recipients are counted message by message: none before the first message, and each
/// message adds exactly its number of recipients, so the requests are exactly one per
/// recipient of each message.
pub proof fn lemma_recipients_add_up(messages: Seq<Message>, k: int)
    requires
        0 <= k < messages.len(),
    ensures
        recipients_before(messages, 0) == 0,
        recipients_before(messages, k + 1) == recipients_before(messages, k)
            + messages[k].emails@.len(),
        recipients_before(messages, messages.len() as int) == messages.map_values(
            |m: Message| m.emails@.len() as int,
        ).fold_left(0int, |acc: int, n: int| acc + n),
{
    lemma_recipients_total(messages, messages.len() as int);
    assert(messages.take(messages.len() as int) =~= messages);
}

/// The recipients of the first `count` messages add up as their recipient numbers do.
pub proof fn lemma_recipients_total(messages: Seq<Message>, count: int)
    requires
        0 <= count <= messages.len(),
    ensures
        recipients_before(messages, count) == messages.take(count).map_values(
            |m: Message| m.emails@.len() as int,
        ).fold_left(0int, |acc: int, n: int| acc + n),
    decreases count,
{
    let f = |m: Message| m.emails@.len() as int;
    let g = |acc: int, n: int| acc + n;
    if count == 0 {
        assert(messages.take(0).map_values(f) =~= Seq::<int>::empty());
    } else {
        lemma_recipients_total(messages, count - 1);
        let s = messages.take(count).map_values(f);
        assert(s.drop_last() =~= messages.take(count - 1).map_values(f));
        assert(s.last() == messages[count - 1].emails@.len() as int);
    }
    if count == messages.len() {
        assert(messages.take(count) =~= messages);
    }
}

/// Recipient counts only grow along the messages.
pub proof fn lemma_recipients_before_monotone(messages: Seq<Message>, a: int, b: int)
    requires
        0 <= a <= b,
    ensures
        recipients_before(messages, a) <= recipients_before(messages, b),
    decreases b - a,
{
    if a < b {
        lemma_recipients_before_monotone(messages, a, b - 1);
    }
}

fn copy_text_option(value: &Option<String>) -> (r: Option<String>)
    ensures
        r == *value,
{
    match value {
        Some(s) => Some(s.clone()),
        None => None,
    }
}

fn topic_or_empty(topic_id: &Option<String>) -> (r: String)
    ensures
        r@ == text_or(*topic_id, ""@),
{
    match topic_id {
        Some(t) => t.clone(),
        None => {
            proof {
                reveal_strlit("");
            }
            String::new()
        },
    }
}

/// One request per recipient of each message, message by message and recipient by
/// recipient, all in `status`.
pub fn expand_messages(payload: &CreateMessageRequest, status: EmailMessageStatus) -> (r: Vec<
    EmailRequest,
>)
    ensures
        r@.len() == recipients_before(payload.messages@, payload.messages@.len() as int),
        forall|i: int, j: int|
            #![trigger payload.messages@[i].emails@[j]]
            0 <= i < payload.messages@.len() && 0 <= j < payload.messages@[i].emails@.len()
                ==> is_request_for(
                r@[recipients_before(payload.messages@, i) + j],
                payload.messages@[i],
                payload.messages@[i].emails@[j],
                payload.scheduled_at,
                status,
            ),
{
    let ghost ms = payload.messages@;
    let mut requests: Vec<EmailRequest> = Vec::new();
    let code = status.code();
    let n = payload.messages.len();
    let mut i: usize = 0;
    while i < n
        invariant
            ms == payload.messages@,
            n == ms.len(),
            i <= n,
            code == status.code_of(),
            requests@.len() == recipients_before(ms, i as int),
            forall|a: int, b: int|
                #![trigger ms[a].emails@[b]]
                0 <= a < i && 0 <= b < ms[a].emails@.len() ==> is_request_for(
                    requests@[recipients_before(ms, a) + b],
                    ms[a],
                    ms[a].emails@[b],
                    payload.scheduled_at,
                    status,
                ),
        decreases n - i,
    {
        let message = &payload.messages[i];
        let m = message.emails.len();
        let mut j: usize = 0;
        let ghost base = recipients_before(ms, i as int);
        while j < m
            invariant
                ms == payload.messages@,
                n == ms.len(),
                i < n,
                *message == ms[i as int],
                m == message.emails@.len(),
                j <= m,
                code == status.code_of(),
                base == recipients_before(ms, i as int),
                requests@.len() == base + j,
                forall|a: int, b: int|
                    #![trigger ms[a].emails@[b]]
                    0 <= a < i && 0 <= b < ms[a].emails@.len() ==> is_request_for(
                        requests@[recipients_before(ms, a) + b],
                        ms[a],
                        ms[a].emails@[b],
                        payload.scheduled_at,
                        status,
                    ),
                forall|b: int|
                    #![trigger ms[i as int].emails@[b]]
                    0 <= b < j ==> is_request_for(
                        requests@[base + b],
                        ms[i as int],
                        ms[i as int].emails@[b],
                        payload.scheduled_at,
                        status,
                    ),
            decreases m - j,
        {
            let request = EmailRequest {
                id: None,
                topic_id: Some(topic_or_empty(&message.topic_id)),
                email: message.emails[j].clone(),
                subject: message.subject.clone(),
                content: message.content.clone(),
                scheduled_at: copy_text_option(&payload.scheduled_at),
                status: code,
                error: None,
                message_id: None,
            };
            let ghost before = requests@;
            let ghost added = request;
            requests.push(request);
            assert(requests@ == before.push(added));
            proof {
                assert forall|a: int, b: int|
                    #![trigger ms[a].emails@[b]]
                    0 <= a < i && 0 <= b < ms[a].emails@.len() implies is_request_for(
                        requests@[recipients_before(ms, a) + b],
                        ms[a],
                        ms[a].emails@[b],
                        payload.scheduled_at,
                        status,
                    ) by {
                    lemma_recipients_before_monotone(ms, a + 1, i as int);
                    lemma_recipients_before_monotone(ms, 0, a);
                    assert(recipients_before(ms, a + 1) == recipients_before(ms, a)
                        + ms[a].emails@.len());
                    assert(recipients_before(ms, a) + b < before.len());
                    assert(before.push(added)[recipients_before(ms, a) + b] == before[recipients_before(ms, a) + b]);
                    assert(requests@[recipients_before(ms, a) + b] == before[recipients_before(
                        ms,
                        a,
                    ) + b]);
                }
                assert forall|b: int|
                    #![trigger ms[i as int].emails@[b]]
                    0 <= b < j + 1 implies is_request_for(
                        requests@[base + b],
                        ms[i as int],
                        ms[i as int].emails@[b],
                        payload.scheduled_at,
                        status,
                    ) by {
                    if b < j {
                        lemma_recipients_before_monotone(ms, 0, i as int);
                        assert(base + b < before.len());
                        assert(before.push(added)[base + b] == before[base + b]);
                        assert(requests@[base + b] == before[base + b]);
                    }
                }
            }
            j = j + 1;
        }
        i = i + 1;
    }
    requests
}

} // verus!
