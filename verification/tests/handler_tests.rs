use ses_mailer::handlers::event_handlers::{
    event_result, open_event_result, route_ses_notification, route_sns_message, saved_response,
    sent_count_hours, ses_message_id, sns_message_type_accepted, tracking_pixel,
    tracking_pixel_content_type, CreateEventNotification, CreateEventRequest, EventResponse,
    GetSentCountQueryParams, JsonValue, OpenMessageQueryParams, SesRoute, SnsRoute,
};
use ses_mailer::handlers::message_handlers::{
    dispatch_on_save, expand_messages, message_status, CreateMessageRequest, Message,
};
use ses_mailer::handlers::topic_handlers::{check_topic_id, stop_topic_response, TopicResponse};
use ses_mailer::models::request::{EmailMessageStatus, EmailRequest};

fn object(entries: Vec<(&str, JsonValue)>) -> JsonValue {
    JsonValue::Object(entries.into_iter().map(|(k, v)| (k.to_string(), v)).collect())
}

fn text(s: &str) -> JsonValue {
    JsonValue::Text(s.to_string())
}

#[test]
fn sns_header_check() {
    assert!(sns_message_type_accepted(Some("Notification")));
    assert!(sns_message_type_accepted(Some("SubscriptionConfirmation")));
    assert!(!sns_message_type_accepted(Some("UnsubscribeConfirmation")));
    assert!(!sns_message_type_accepted(None));
}

#[test]
fn sns_routing() {
    let confirm = CreateEventRequest::SubscriptionConfirmation { subscribe_url: "https://x".to_string() };
    assert!(matches!(
        route_sns_message(confirm),
        SnsRoute::Respond(EventResponse::SubscriptionConfirmationRequired)
    ));
    let other = CreateEventRequest::Other(JsonValue::Null);
    assert!(matches!(route_sns_message(other), SnsRoute::Respond(EventResponse::OtherMessageType)));
    let note = CreateEventRequest::Notification { message: "{}".to_string(), message_id: "sns-1".to_string() };
    match route_sns_message(note) {
        SnsRoute::ReadNotification { message, message_id } => {
            assert_eq!(message, "{}");
            assert_eq!(message_id, "sns-1");
        }
        _ => panic!("notification not read"),
    }
}

#[test]
fn ses_message_id_lookup() {
    let fields = object(vec![
        ("eventType", text("Delivery")),
        ("mail", object(vec![("messageId", text("ses-77")), ("source", text("a@b"))])),
    ]);
    assert_eq!(ses_message_id(&fields), Some("ses-77".to_string()));
    let numeric = object(vec![("mail", object(vec![("messageId", JsonValue::Number("5".to_string()))]))]);
    assert_eq!(ses_message_id(&numeric), None);
    assert_eq!(ses_message_id(&object(vec![])), None);
    assert_eq!(ses_message_id(&JsonValue::Array(vec![text("mail")])), None);
}

#[test]
fn ses_routing() {
    assert!(matches!(
        route_ses_notification(None, "not json".to_string()),
        SesRoute::Respond(EventResponse::NonSesNotification)
    ));
    let missing = CreateEventNotification { event_type: "Bounce".to_string(), other_fields: object(vec![]) };
    assert!(matches!(
        route_ses_notification(Some(missing), "m".to_string()),
        SesRoute::Respond(EventResponse::SesMessageIdMissing)
    ));
    let found = CreateEventNotification {
        event_type: "Bounce".to_string(),
        other_fields: object(vec![("mail", object(vec![("messageId", text("ses-1"))]))]),
    };
    match route_ses_notification(Some(found), "raw".to_string()) {
        SesRoute::FindRequest { ses_message_id, event_type, raw } => {
            assert_eq!(ses_message_id, "ses-1");
            assert_eq!(event_type, "Bounce");
            assert_eq!(raw, "raw");
        }
        _ => panic!("request not looked up"),
    }
}

#[test]
fn event_results_and_answers() {
    assert!(matches!(
        event_result(None, "Delivery".to_string(), "raw".to_string()),
        Err(EventResponse::RequestIdNotFound)
    ));
    let result = event_result(Some(8), "Delivery".to_string(), "raw".to_string()).unwrap();
    assert_eq!(result.request_id, 8);
    assert_eq!(result.status, "Delivery");
    assert_eq!(result.raw, Some("raw".to_string()));
    assert_eq!(result.id, None);
    assert_eq!(saved_response(true), EventResponse::Saved);
    assert_eq!(saved_response(false), EventResponse::SaveFailed);
}

#[test]
fn event_answer_codes_and_texts() {
    let all = [
        (EventResponse::InvalidMessageType, 400, "Invalid SNS Message Type"),
        (EventResponse::BodyUnreadable, 400, "Failed to read body"),
        (EventResponse::SnsParseFailed, 400, "Failed to parse SNS message"),
        (EventResponse::SubscriptionConfirmationRequired, 200, "Subscription confirmation required"),
        (EventResponse::NonSesNotification, 200, "Non-SES notification received"),
        (EventResponse::SesMessageIdMissing, 400, "SES message_id not found"),
        (EventResponse::RequestIdNotFound, 500, "Failed to retrieve request_id"),
        (EventResponse::SaveFailed, 500, "Failed to save event"),
        (EventResponse::Saved, 200, "OK"),
        (EventResponse::OtherMessageType, 200, "Other message type received"),
    ];
    for (response, code, body) in all {
        assert_eq!(response.status_code(), code);
        assert_eq!(response.text(), body);
    }
}

#[test]
fn open_event_records_named_request() {
    let result = open_event_result(&OpenMessageQueryParams { request_id: Some("1".to_string()) }).unwrap();
    assert_eq!(result.request_id, 1);
    assert_eq!(result.status, "Open");
    assert_eq!(result.raw, None);
    assert!(open_event_result(&OpenMessageQueryParams { request_id: None }).is_none());
    assert!(open_event_result(&OpenMessageQueryParams { request_id: Some("x".to_string()) }).is_none());
}

#[test]
fn tracking_link_leads_back_to_request() {
    for id in [0, 7, 123456, i32::MAX] {
        let request = EmailRequest {
            id: Some(id),
            topic_id: None,
            email: String::new(),
            subject: String::new(),
            content: String::new(),
            scheduled_at: None,
            status: 1,
            error: None,
            message_id: None,
        };
        let decorated = request.with_open_tracking("https://h");
        let query = decorated
            .content
            .strip_prefix("<img src=\"https://h/v1/events/open?request_id=")
            .unwrap()
            .strip_suffix("\">")
            .unwrap()
            .to_string();
        let result = open_event_result(&OpenMessageQueryParams { request_id: Some(query) }).unwrap();
        assert_eq!(result.request_id, id);
    }
}

fn crc32(bytes: &[u8]) -> u32 {
    let mut crc: u32 = 0xFFFF_FFFF;
    for &b in bytes {
        crc ^= b as u32;
        for _ in 0..8 {
            crc = if crc & 1 != 0 { (crc >> 1) ^ 0xEDB8_8320 } else { crc >> 1 };
        }
    }
    !crc
}

fn be32(bytes: &[u8]) -> u32 {
    u32::from_be_bytes([bytes[0], bytes[1], bytes[2], bytes[3]])
}

#[test]
fn tracking_pixel_is_png() {
    let png = tracking_pixel();
    assert_eq!(&png[..8], &[0x89, 0x50, 0x4E, 0x47, 0x0D, 0x0A, 0x1A, 0x0A]);
    let mut chunks = Vec::new();
    let mut at = 8;
    while at < png.len() {
        let len = be32(&png[at..]) as usize;
        let kind = &png[at + 4..at + 8];
        let data = &png[at + 8..at + 8 + len];
        let crc = be32(&png[at + 8 + len..]);
        assert_eq!(crc, crc32(&png[at + 4..at + 8 + len]), "CRC of chunk {:?}", kind);
        chunks.push((kind.to_vec(), data.to_vec()));
        at += 12 + len;
    }
    assert_eq!(at, png.len());
    let kinds: Vec<&[u8]> = chunks.iter().map(|(k, _)| k.as_slice()).collect();
    assert_eq!(kinds, vec![&b"IHDR"[..], &b"IDAT"[..], &b"IEND"[..]]);
    // 1x1, 8 bits per channel, RGBA, no interlace
    assert_eq!(chunks[0].1, vec![0, 0, 0, 1, 0, 0, 0, 1, 8, 6, 0, 0, 0]);
    // zlib stream whose Adler-32 is that of one scanline: filter byte and four zero bytes
    let idat = &chunks[1].1;
    assert_eq!(idat[0] & 0x0F, 8);
    assert_eq!(((idat[0] as u16) << 8 | idat[1] as u16) % 31, 0);
    assert_eq!(be32(&idat[idat.len() - 4..]), 0x0005_0001);
    assert!(chunks[2].1.is_empty());
    assert_eq!(tracking_pixel_content_type(), "image/png");
}

#[test]
fn sent_count_defaults_to_a_day() {
    assert_eq!(sent_count_hours(&GetSentCountQueryParams { hours: None }), 24);
    assert_eq!(sent_count_hours(&GetSentCountQueryParams { hours: Some(3) }), 3);
}

#[test]
fn message_status_follows_schedule() {
    assert_eq!(message_status(&None), EmailMessageStatus::Processed);
    assert_eq!(message_status(&Some(String::new())), EmailMessageStatus::Processed);
    assert_eq!(message_status(&Some("2024-01-01 09:00:00".to_string())), EmailMessageStatus::Created);
    assert!(dispatch_on_save(EmailMessageStatus::Processed));
    assert!(!dispatch_on_save(EmailMessageStatus::Created));
}

#[test]
fn messages_expand_per_recipient() {
    let payload = CreateMessageRequest {
        messages: vec![
            Message {
                topic_id: Some("newsletter".to_string()),
                emails: vec!["a@x".to_string(), "b@x".to_string()],
                subject: "s1".to_string(),
                content: "c1".to_string(),
            },
            Message { topic_id: None, emails: vec![], subject: "s2".to_string(), content: "c2".to_string() },
            Message {
                topic_id: None,
                emails: vec!["c@x".to_string()],
                subject: "s3".to_string(),
                content: "c3".to_string(),
            },
        ],
        scheduled_at: Some("2024-01-01 09:00:00".to_string()),
    };
    let status = message_status(&payload.scheduled_at);
    let requests = expand_messages(&payload, status);
    assert_eq!(requests.len(), 3);
    assert_eq!(requests[0].email, "a@x");
    assert_eq!(requests[1].email, "b@x");
    assert_eq!(requests[1].topic_id, Some("newsletter".to_string()));
    assert_eq!(requests[2].email, "c@x");
    assert_eq!(requests[2].topic_id, Some(String::new()));
    assert_eq!(requests[2].subject, "s3");
    for r in &requests {
        assert_eq!(r.status, 0);
        assert_eq!(r.scheduled_at, Some("2024-01-01 09:00:00".to_string()));
        assert_eq!(r.id, None);
    }
}

#[test]
fn topic_answers() {
    assert_eq!(check_topic_id(""), Some(TopicResponse::TopicIdRequired));
    assert_eq!(check_topic_id("t"), None);
    assert_eq!(stop_topic_response(true), TopicResponse::Stopped);
    assert_eq!(stop_topic_response(false), TopicResponse::StopFailed);
    assert_eq!(TopicResponse::TopicIdRequired.status_code(), 400);
    assert_eq!(TopicResponse::TopicIdRequired.text(), "topicId is required");
    assert_eq!(TopicResponse::Stopped.status_code(), 200);
    assert_eq!(TopicResponse::Stopped.text(), "OK");
    assert_eq!(TopicResponse::StopFailed.status_code(), 500);
    assert_eq!(TopicResponse::StopFailed.text(), "Failed to stop topic");
}
