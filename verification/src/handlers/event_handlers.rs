use vstd::prelude::*;

use crate::models::request::open_tracking_tag;
use crate::models::result::EmailResult;
use crate::text::{i32_of_text, int_text, lemma_i32_text_round_trip, parse_i32, str_eq};

verus! {

/// Query of the open-tracking pixel.
pub struct OpenMessageQueryParams {
    pub request_id: Option<String>,
}

/// Query of the sent count.
pub struct GetSentCountQueryParams {
    pub hours: Option<i32>,
}

/// Answer of the sent count.
pub struct GetSentCountResponse {
    pub count: i32,
}

/// A JSON value, with numbers kept as their text.
pub enum JsonValue {
    Null,
    Bool(bool),
    Number(String),
    Text(String),
    Array(Vec<JsonValue>),
    Object(Vec<(String, JsonValue)>),
}

/// The value under `key` among object members: the first member with that key.
pub open spec fn member_in(entries: Seq<(String, JsonValue)>, key: Seq<char>) -> Option<JsonValue>
    decreases entries.len(),
{
    if entries.len() == 0 {
        None
    } else if entries[0].0@ == key {
        Some(entries[0].1)
    } else {
        member_in(entries.drop_first(), key)
    }
}

/// The member `key` of an object; nothing for any other value.
pub open spec fn member(value: JsonValue, key: Seq<char>) -> Option<JsonValue> {
    match value {
        JsonValue::Object(entries) => member_in(entries@, key),
        _ => None,
    }
}

/// The text of a JSON string; nothing for any other value.
pub open spec fn text_of(value: Option<JsonValue>) -> Option<Seq<char>> {
    match value {
        Some(JsonValue::Text(s)) => Some(s@),
        _ => None,
    }
}

/// The SES message id of a notification's fields: the string at `mail.messageId`.
pub open spec fn ses_message_id_of(fields: JsonValue) -> Option<Seq<char>> {
    match member(fields, "mail"@) {
        Some(mail) => text_of(member(mail, "messageId"@)),
        None => None,
    }
}

/// An object's member `key` is the value of its first member with that key, wherever
/// it stands.
pub proof fn lemma_member_in_finds_first(entries: Seq<(String, JsonValue)>, key: Seq<char>, i: int)
    requires
        0 <= i < entries.len(),
        entries[i].0@ == key,
        forall|j: int| 0 <= j < i ==> entries[j].0@ != key,
    ensures
        member_in(entries, key) == Some(entries[i].1),
    decreases i,
{
    if i > 0 {
        let rest = entries.drop_first();
        assert forall|j: int| 0 <= j < i - 1 implies rest[j].0@ != key by {
            assert(rest[j] == entries[j + 1]);
        }
        assert(rest[i - 1] == entries[i]);
        lemma_member_in_finds_first(rest, key, i - 1);
    }
}

/// An object without a member `key` has no such member.
pub proof fn lemma_member_in_absent(entries: Seq<(String, JsonValue)>, key: Seq<char>)
    requires
        forall|j: int| 0 <= j < entries.len() ==> entries[j].0@ != key,
    ensures
        member_in(entries, key) is None,
    decreases entries.len(),
{
    if entries.len() > 0 {
        let rest = entries.drop_first();
        assert forall|j: int| 0 <= j < rest.len() implies rest[j].0@ != key by {
            assert(rest[j] == entries[j + 1]);
        }
        lemma_member_in_absent(rest, key);
    }
}

/// The SES message id is found wherever `mail` and its `messageId` stand among their
/// objects' members: it is the text of the first `messageId` of the first `mail`.
pub proof fn lemma_ses_message_id_found(
    fields: Vec<(String, JsonValue)>,
    i: int,
    mail: Vec<(String, JsonValue)>,
    k: int,
    id: String,
)
    requires
        0 <= i < fields@.len(),
        fields@[i].0@ == "mail"@,
        forall|j: int| 0 <= j < i ==> fields@[j].0@ != "mail"@,
        fields@[i].1 == JsonValue::Object(mail),
        0 <= k < mail@.len(),
        mail@[k].0@ == "messageId"@,
        forall|j: int| 0 <= j < k ==> mail@[j].0@ != "messageId"@,
        mail@[k].1 == JsonValue::Text(id),
    ensures
        ses_message_id_of(JsonValue::Object(fields)) == Some(id@),
{
    lemma_member_in_finds_first(fields@, "mail"@, i);
    lemma_member_in_finds_first(mail@, "messageId"@, k);
}

impl JsonValue {
    /// The member `key` of an object (the first, should the key occur twice).
    pub fn get(&self, key: &str) -> (r: Option<&JsonValue>)
        ensures
            match r {
                Some(v) => member(*self, key@) == Some(*v),
                None => member(*self, key@) is None,
            },
    {
        match self {
            JsonValue::Object(entries) => {
                let n = entries.len();
                let mut i: usize = 0;
                assert(entries@.skip(0) =~= entries@);
                while i < n
                    invariant
                        n == entries@.len(),
                        member(*self, key@) == member_in(entries@, key@),
                        i <= n,
                        member_in(entries@, key@) == member_in(entries@.skip(i as int), key@),
                    decreases n - i,
                {
                    let ghost rest = entries@.skip(i as int);
                    assert(rest[0] == entries@[i as int]);
                    assert(rest.drop_first() =~= entries@.skip(i + 1));
                    if str_eq(entries[i].0.as_str(), key) {
                        return Some(&entries[i].1);
                    }
                    i = i + 1;
                }
                None
            },
            _ => None,
        }
    }

    /// The text of a JSON string.
    pub fn as_text(&self) -> (r: Option<&String>)
        ensures
            match r {
                Some(s) => text_of(Some(*self)) == Some(s@),
                None => text_of(Some(*self)) is None,
            },
    {
        match self {
            JsonValue::Text(s) => Some(s),
            _ => None,
        }
    }
}

/// The SES message id of a notification: the string at `mail.messageId` of its fields.
pub fn ses_message_id(fields: &JsonValue) -> (r: Option<String>)
    ensures
        match ses_message_id_of(*fields) {
            Some(id) => r is Some && r.unwrap()@ == id,
            None => r is None,
        },
{
    proof {
        reveal_strlit("mail");
        reveal_strlit("messageId");
    }
    match fields.get("mail") {
        Some(mail) => match mail.get("messageId") {
            Some(id) => match id.as_text() {
                Some(s) => Some(s.clone()),
                None => None,
            },
            None => None,
        },
        None => None,
    }
}

/// A message that SNS posts: a subscription confirmation, a notification, or any
/// other JSON value.
pub enum CreateEventRequest {
    SubscriptionConfirmation { subscribe_url: String },
    Notification { message: String, message_id: String },
    Other(JsonValue),
}

/// An SES event notification: its type and its other fields.
pub struct CreateEventNotification {
    pub event_type: String,
    pub other_fields: JsonValue,
}

/// How the event endpoint answers.
#[derive(Clone, Copy, PartialEq, Eq, Structural, Debug)]
pub enum EventResponse {
    InvalidMessageType,
    BodyUnreadable,
    SnsParseFailed,
    SubscriptionConfirmationRequired,
    NonSesNotification,
    SesMessageIdMissing,
    RequestIdNotFound,
    SaveFailed,
    Saved,
    OtherMessageType,
}

/// The HTTP status of an answer.
pub open spec fn response_status(response: EventResponse) -> u16 {
    match response {
        EventResponse::InvalidMessageType => 400,
        EventResponse::BodyUnreadable => 400,
        EventResponse::SnsParseFailed => 400,
        EventResponse::SubscriptionConfirmationRequired => 200,
        EventResponse::NonSesNotification => 200,
        EventResponse::SesMessageIdMissing => 400,
        EventResponse::RequestIdNotFound => 500,
        EventResponse::SaveFailed => 500,
        EventResponse::Saved => 200,
        EventResponse::OtherMessageType => 200,
    }
}

/// The body text of an answer.
pub open spec fn response_text(response: EventResponse) -> Seq<char> {
    match response {
        EventResponse::InvalidMessageType => "Invalid SNS Message Type"@,
        EventResponse::BodyUnreadable => "Failed to read body"@,
        EventResponse::SnsParseFailed => "Failed to parse SNS message"@,
        EventResponse::SubscriptionConfirmationRequired => "Subscription confirmation required"@,
        EventResponse::NonSesNotification => "Non-SES notification received"@,
        EventResponse::SesMessageIdMissing => "SES message_id not found"@,
        EventResponse::RequestIdNotFound => "Failed to retrieve request_id"@,
        EventResponse::SaveFailed => "Failed to save event"@,
        EventResponse::Saved => "OK"@,
        EventResponse::OtherMessageType => "Other message type received"@,
    }
}

impl EventResponse {
    /// The HTTP status of this answer.
    pub fn status_code(&self) -> (r: u16)
        ensures
            r == response_status(*self),
    {
        match self {
            EventResponse::InvalidMessageType => 400,
            EventResponse::BodyUnreadable => 400,
            EventResponse::SnsParseFailed => 400,
            EventResponse::SubscriptionConfirmationRequired => 200,
            EventResponse::NonSesNotification => 200,
            EventResponse::SesMessageIdMissing => 400,
            EventResponse::RequestIdNotFound => 500,
            EventResponse::SaveFailed => 500,
            EventResponse::Saved => 200,
            EventResponse::OtherMessageType => 200,
        }
    }

    /// The body text of this answer.
    pub fn text(&self) -> (r: &'static str)
        ensures
            r@ == response_text(*self),
    {
        match self {
            EventResponse::InvalidMessageType => {
                proof {
                    reveal_strlit("Invalid SNS Message Type");
                }
                "Invalid SNS Message Type"
            },
            EventResponse::BodyUnreadable => {
                proof {
                    reveal_strlit("Failed to read body");
                }
                "Failed to read body"
            },
            EventResponse::SnsParseFailed => {
                proof {
                    reveal_strlit("Failed to parse SNS message");
                }
                "Failed to parse SNS message"
            },
            EventResponse::SubscriptionConfirmationRequired => {
                proof {
                    reveal_strlit("Subscription confirmation required");
                }
                "Subscription confirmation required"
            },
            EventResponse::NonSesNotification => {
                proof {
                    reveal_strlit("Non-SES notification received");
                }
                "Non-SES notification received"
            },
            EventResponse::SesMessageIdMissing => {
                proof {
                    reveal_strlit("SES message_id not found");
                }
                "SES message_id not found"
            },
            EventResponse::RequestIdNotFound => {
                proof {
                    reveal_strlit("Failed to retrieve request_id");
                }
                "Failed to retrieve request_id"
            },
            EventResponse::SaveFailed => {
                proof {
                    reveal_strlit("Failed to save event");
                }
                "Failed to save event"
            },
            EventResponse::Saved => {
                proof {
                    reveal_strlit("OK");
                }
                "OK"
            },
            EventResponse::OtherMessageType => {
                proof {
                    reveal_strlit("Other message type received");
                }
                "Other message type received"
            },
        }
    }
}

/// Whether the `x-amz-sns-message-type` header (where present and readable as text)
/// names a type the endpoint takes: `Notification` or `SubscriptionConfirmation`.
pub fn sns_message_type_accepted(header: Option<&str>) -> (r: bool)
    ensures
        r == (match header {
            Some(h) => h@ == "Notification"@ || h@ == "SubscriptionConfirmation"@,
            None => false,
        }),
{
    match header {
        Some(h) => str_eq(h, "Notification") || str_eq(h, "SubscriptionConfirmation"),
        None => false,
    }
}

/// The next step for an SNS message.
pub enum SnsRoute {
    /// Answer at once.
    Respond(EventResponse),
    /// Read the notification's message as an SES event.
    ReadNotification { message: String, message_id: String },
}

/// The next step for an SNS message: confirmations and other messages are answered
/// at once; a notification's message is read as an SES event.
pub fn route_sns_message(request: CreateEventRequest) -> (r: SnsRoute)
    ensures
        match request {
            CreateEventRequest::SubscriptionConfirmation { .. } => r == SnsRoute::Respond(
                EventResponse::SubscriptionConfirmationRequired,
            ),
            CreateEventRequest::Notification { message, message_id } => r
                == SnsRoute::ReadNotification { message, message_id },
            CreateEventRequest::Other(_) => r == SnsRoute::Respond(EventResponse::OtherMessageType),
        },
{
    match request {
        CreateEventRequest::SubscriptionConfirmation { .. } => SnsRoute::Respond(
            EventResponse::SubscriptionConfirmationRequired,
        ),
        CreateEventRequest::Notification { message, message_id } => SnsRoute::ReadNotification {
            message,
            message_id,
        },
        CreateEventRequest::Other(_) => SnsRoute::Respond(EventResponse::OtherMessageType),
    }
}

/// The next step for a notification's message.
pub enum SesRoute {
    /// Answer at once.
    Respond(EventResponse),
    /// Find the request that SES sent under `ses_message_id` and record the event.
    FindRequest { ses_message_id: String, event_type: String, raw: String },
}

/// The next step for a notification's `message`, given what it reads as (`None` where it
/// is not an SES event): an SES event with a message id leads to the request it concerns.
pub fn route_ses_notification(parsed: Option<CreateEventNotification>, message: String) -> (r:
    SesRoute)
    ensures
        match parsed {
            None => r == SesRoute::Respond(EventResponse::NonSesNotification),
            Some(n) => match ses_message_id_of(n.other_fields) {
                None => r == SesRoute::Respond(EventResponse::SesMessageIdMissing),
                Some(id) => match r {
                    SesRoute::FindRequest { ses_message_id, event_type, raw } => ses_message_id@
                        == id && event_type == n.event_type && raw == message,
                    _ => false,
                },
            },
        },
{
    match parsed {
        None => SesRoute::Respond(EventResponse::NonSesNotification),
        Some(n) => match ses_message_id(&n.other_fields) {
            None => SesRoute::Respond(EventResponse::SesMessageIdMissing),
            Some(id) => SesRoute::FindRequest {
                ses_message_id: id,
                event_type: n.event_type,
                raw: message,
            },
        },
    }
}

/// The result to record for an SES event of `event_type` with the notification `raw`,
/// given the request found for it (`None` where none was found).
pub fn event_result(request_id: Option<i32>, event_type: String, raw: String) -> (r: Result<
    EmailResult,
    EventResponse,
>)
    ensures
        match request_id {
            None => r == Err::<EmailResult, EventResponse>(EventResponse::RequestIdNotFound),
            Some(id) => r == Ok::<EmailResult, EventResponse>(
                EmailResult { id: None, request_id: id, status: event_type, raw: Some(raw) },
            ),
        },
{
    match request_id {
        None => Err(EventResponse::RequestIdNotFound),
        Some(id) => Ok(EmailResult { id: None, request_id: id, status: event_type, raw: Some(raw) }),
    }
}

/// The answer once recording the event succeeded or failed.
pub fn saved_response(saved: bool) -> (r: EventResponse)
    ensures
        r == (if saved {
            EventResponse::Saved
        } else {
            EventResponse::SaveFailed
        }),
{
    if saved {
        EventResponse::Saved
    } else {
        EventResponse::SaveFailed
    }
}

/// The request id an open-tracking query names, if it reads as an `i32`.
pub open spec fn opened_request_id(request_id: Option<String>) -> Option<i32> {
    match request_id {
        Some(t) => i32_of_text(t@),
        None => None,
    }
}

/// The `Open` result to record for an open-tracking query, where it names a request.
pub fn open_event_result(query: &OpenMessageQueryParams) -> (r: Option<EmailResult>)
    ensures
        match opened_request_id(query.request_id) {
            Some(id) => r is Some && r.unwrap().id is None && r.unwrap().request_id == id
                && r.unwrap().status@ == "Open"@ && r.unwrap().raw is None,
            None => r is None,
        },
{
    match &query.request_id {
        Some(t) => match parse_i32(t.as_str()) {
            Some(id) => {
                proof {
                    reveal_strlit("Open");
                }
                Some(EmailResult { id: None, request_id: id, status: String::from_str("Open"), raw: None })
            },
            None => None,
        },
        None => None,
    }
}

/// The request id that the open-tracking tag of a request carries in its link leads the
/// open endpoint back to that request.
pub proof fn lemma_open_tracking_round_trip(server_url: Seq<char>, id: i32, query: String)
    requires
        open_tracking_tag(server_url, id as int) == "<img src=\""@ + server_url
            + "/v1/events/open?request_id="@ + query@ + "\">"@,
    ensures
        opened_request_id(Some(query)) == Some(id),
{
    let head = "<img src=\""@ + server_url + "/v1/events/open?request_id="@;
    let tail = "\">"@;
    let tag = open_tracking_tag(server_url, id as int);
    assert(tag =~= head + int_text(id as int) + tail);
    assert((head + int_text(id as int) + tail).len() == (head + query@ + tail).len());
    assert(query@ =~= (head + query@ + tail).subrange(head.len() as int, (head.len() + query@.len()) as int));
    assert(int_text(id as int) =~= (head + int_text(id as int) + tail).subrange(
        head.len() as int,
        (head.len() + int_text(id as int).len()) as int,
    ));
    lemma_i32_text_round_trip(id);
}

/// A 1x1 transparent PNG image: the signature, an IHDR chunk (1x1, 8-bit RGBA), an IDAT
/// chunk holding the zlib stream of one all-zero scanline, and an IEND chunk, each chunk
/// with its length and CRC.
pub open spec fn tracking_pixel_bytes() -> Seq<u8> {
    seq![
        0x89u8, 0x50, 0x4E, 0x47, 0x0D, 0x0A, 0x1A, 0x0A, 0x00, 0x00, 0x00, 0x0D, 0x49, 0x48, 0x44,
        0x52, 0x00, 0x00, 0x00, 0x01, 0x00, 0x00, 0x00, 0x01, 0x08, 0x06, 0x00, 0x00, 0x00, 0x1F,
        0x15, 0xC4, 0x89, 0x00, 0x00, 0x00, 0x0B, 0x49, 0x44, 0x41, 0x54, 0x78, 0xDA, 0x63, 0x60,
        0x00, 0x02, 0x00, 0x00, 0x05, 0x00, 0x01, 0xE9, 0xFA, 0xDC, 0xD8, 0x00, 0x00, 0x00, 0x00,
        0x49, 0x45, 0x4E, 0x44, 0xAE, 0x42, 0x60, 0x82,
    ]
}

/// The image the open-tracking endpoint answers with.
pub fn tracking_pixel() -> (r: Vec<u8>)
    ensures
        r@ == tracking_pixel_bytes(),
{
    let r = vec![
        0x89u8, 0x50, 0x4E, 0x47, 0x0D, 0x0A, 0x1A, 0x0A, 0x00, 0x00, 0x00, 0x0D, 0x49, 0x48, 0x44,
        0x52, 0x00, 0x00, 0x00, 0x01, 0x00, 0x00, 0x00, 0x01, 0x08, 0x06, 0x00, 0x00, 0x00, 0x1F,
        0x15, 0xC4, 0x89, 0x00, 0x00, 0x00, 0x0B, 0x49, 0x44, 0x41, 0x54, 0x78, 0xDA, 0x63, 0x60,
        0x00, 0x02, 0x00, 0x00, 0x05, 0x00, 0x01, 0xE9, 0xFA, 0xDC, 0xD8, 0x00, 0x00, 0x00, 0x00,
        0x49, 0x45, 0x4E, 0x44, 0xAE, 0x42, 0x60, 0x82,
    ];
    assert(r@ =~= tracking_pixel_bytes());
    r
}

/// The content type of the open-tracking image.
pub fn tracking_pixel_content_type() -> (r: &'static str)
    ensures
        r@ == "image/png"@,
{
    proof {
        reveal_strlit("image/png");
    }
    "image/png"
}

/// The window of the sent count in hours: the query's, or 24.
pub fn sent_count_hours(query: &GetSentCountQueryParams) -> (r: i32)
    ensures
        r == (match query.hours {
            Some(h) => h,
            None => 24,
        }),
{
    match query.hours {
        Some(h) => h,
        None => 24,
    }
}

} // verus!
