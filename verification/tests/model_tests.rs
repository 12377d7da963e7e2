use ses_mailer::models::counts::StatusCounts;
use ses_mailer::models::request::{status_name, EmailMessageStatus, EmailRequest};
use ses_mailer::models::result::EmailResult;

fn request(id: Option<i32>, content: &str) -> EmailRequest {
    EmailRequest {
        id,
        topic_id: Some("topic".to_string()),
        email: "user@example.com".to_string(),
        subject: "subject".to_string(),
        content: content.to_string(),
        scheduled_at: None,
        status: EmailMessageStatus::Processed.code(),
        error: None,
        message_id: None,
    }
}

#[test]
fn status_codes_and_names() {
    let all = [
        (EmailMessageStatus::Created, 0, "Created"),
        (EmailMessageStatus::Processed, 1, "Processed"),
        (EmailMessageStatus::Sent, 2, "Sent"),
        (EmailMessageStatus::Failed, 3, "Failed"),
        (EmailMessageStatus::Stopped, 4, "Stopped"),
    ];
    for (status, code, name) in all {
        assert_eq!(status.code(), code);
        assert_eq!(status.name(), name);
        assert_eq!(EmailMessageStatus::from_code(code as i64), Some(status));
        assert_eq!(status_name(code as i64), name);
    }
    assert_eq!(EmailMessageStatus::from_code(5), None);
    assert_eq!(EmailMessageStatus::from_code(-1), None);
    assert_eq!(status_name(9), "Unknown");
}

#[test]
fn with_id_sets_the_id() {
    let saved = request(None, "hello").with_id(17);
    assert_eq!(saved.id, Some(17));
    assert_eq!(saved.content, "hello");
    let narrowed = request(None, "hello").with_id((1i64 << 32) + 5);
    assert_eq!(narrowed.id, Some(5));
}

#[test]
fn open_tracking_is_appended() {
    let decorated = request(Some(42), "<p>hi</p>").with_open_tracking("https://mail.example.com");
    assert_eq!(
        decorated.content,
        "<p>hi</p><img src=\"https://mail.example.com/v1/events/open?request_id=42\">"
    );
    assert_eq!(decorated.email, "user@example.com");
    let untracked_id = request(None, "").with_open_tracking("");
    assert_eq!(untracked_id.content, "<img src=\"/v1/events/open?request_id=0\">");
}

#[test]
fn send_outcome_is_recorded() {
    let sent = request(Some(1), "c").record_send_outcome(Ok("ses-123".to_string()));
    assert_eq!(sent.status, EmailMessageStatus::Sent.code());
    assert_eq!(sent.message_id, Some("ses-123".to_string()));
    assert_eq!(sent.error, None);
    let failed = request(Some(1), "c").record_send_outcome(Err("throttled".to_string()));
    assert_eq!(failed.status, EmailMessageStatus::Failed.code());
    assert_eq!(failed.error, Some("Failed to send email: throttled".to_string()));
    assert_eq!(failed.message_id, None);
}

#[test]
fn sent_count_window_text() {
    assert_eq!(EmailRequest::sent_count_window(24), "-24 hours");
    assert_eq!(EmailRequest::sent_count_window(1), "-1 hours");
    assert_eq!(EmailRequest::sent_count_window(-2), "--2 hours");
}

#[test]
fn request_counts_name_the_statuses() {
    let rows = vec![(0i64, Some(3i64)), (2, Some(5)), (4, None), (7, Some(1)), (9, Some(2))];
    let counts = EmailRequest::counts_by_status(&rows);
    assert_eq!(counts.get("Created"), Some(3));
    assert_eq!(counts.get("Sent"), Some(5));
    assert_eq!(counts.get("Stopped"), Some(0));
    assert_eq!(counts.get("Unknown"), Some(2));
    assert_eq!(counts.get("Failed"), None);
    assert_eq!(counts.entries().len(), 4);
}

#[test]
fn result_counts_one_per_status() {
    let rows = vec![("success".to_string(), 1i64), ("failed".to_string(), 1i64)];
    let counts = EmailResult::counts_by_status(&rows);
    let mut entries = counts.entries().clone();
    entries.sort();
    assert_eq!(entries, vec![("failed".to_string(), 1), ("success".to_string(), 1)]);
}

#[test]
fn result_counts_without_rows_are_empty() {
    let counts = EmailResult::counts_by_status(&Vec::new());
    assert!(counts.is_empty());
}

#[test]
fn later_count_replaces_earlier() {
    let mut counts = StatusCounts::new();
    assert!(counts.is_empty());
    counts.insert("Open".to_string(), 1);
    counts.insert("Delivery".to_string(), 2);
    counts.insert("Open".to_string(), 3);
    assert_eq!(counts.get("Open"), Some(3));
    assert_eq!(counts.get("Delivery"), Some(2));
    assert_eq!(counts.entries().len(), 2);
    assert!(!counts.is_empty());
}

#[test]
fn result_with_id() {
    let result = EmailResult { id: None, request_id: 3, status: "Open".to_string(), raw: None };
    assert_eq!(result.clone().with_id(Some(9)).id, Some(9));
    assert_eq!(result.with_id(None).id, None);
}
