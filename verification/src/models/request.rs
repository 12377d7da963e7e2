use vstd::prelude::*;

use crate::models::counts::{
    counts_map, lemma_counts_map_absent, lemma_counts_map_last_wins, StatusCounts,
};
use crate::text::{i32_text, int_text};

verus! {

/// Delivery status of one e-mail request, stored as its numeric code.
#[derive(Clone, Copy, PartialEq, Eq, Structural, Debug)]
pub enum EmailMessageStatus {
    /// Accepted and waiting for its scheduled time.
    Created,
    /// Handed to the sender.
    Processed,
    /// Accepted by SES.
    Sent,
    /// Rejected by SES.
    Failed,
    /// Cancelled before it was sent.
    Stopped,
}

impl EmailMessageStatus {
    /// The numeric code under which the status is stored.
    pub open spec fn code_of(self) -> i32 {
        match self {
            EmailMessageStatus::Created => 0,
            EmailMessageStatus::Processed => 1,
            EmailMessageStatus::Sent => 2,
            EmailMessageStatus::Failed => 3,
            EmailMessageStatus::Stopped => 4,
        }
    }

    /// The status stored under a numeric code, if any.
    pub open spec fn of_code(code: int) -> Option<EmailMessageStatus> {
        if code == 0 {
            Some(EmailMessageStatus::Created)
        } else if code == 1 {
            Some(EmailMessageStatus::Processed)
        } else if code == 2 {
            Some(EmailMessageStatus::Sent)
        } else if code == 3 {
            Some(EmailMessageStatus::Failed)
        } else if code == 4 {
            Some(EmailMessageStatus::Stopped)
        } else {
            None
        }
    }

    /// The name under which the status is reported.
    pub open spec fn name_of(self) -> Seq<char> {
        match self {
            EmailMessageStatus::Created => "Created"@,
            EmailMessageStatus::Processed => "Processed"@,
            EmailMessageStatus::Sent => "Sent"@,
            EmailMessageStatus::Failed => "Failed"@,
            EmailMessageStatus::Stopped => "Stopped"@,
        }
    }

    /// The numeric code of this status.
    pub fn code(&self) -> (c: i32)
        ensures
            c == self.code_of(),
    {
        match self {
            EmailMessageStatus::Created => 0,
            EmailMessageStatus::Processed => 1,
            EmailMessageStatus::Sent => 2,
            EmailMessageStatus::Failed => 3,
            EmailMessageStatus::Stopped => 4,
        }
    }

    /// The status stored under `code`, or `None` for a code no status has.
    pub fn from_code(code: i64) -> (r: Option<EmailMessageStatus>)
        ensures
            r == EmailMessageStatus::of_code(code as int),
    {
        if code == 0 {
            Some(EmailMessageStatus::Created)
        } else if code == 1 {
            Some(EmailMessageStatus::Processed)
        } else if code == 2 {
            Some(EmailMessageStatus::Sent)
        } else if code == 3 {
            Some(EmailMessageStatus::Failed)
        } else if code == 4 {
            Some(EmailMessageStatus::Stopped)
        } else {
            None
        }
    }

    /// The name of this status.
    pub fn name(&self) -> (r: &'static str)
        ensures
            r@ == self.name_of(),
    {
        match self {
            EmailMessageStatus::Created => {
                proof {
                    reveal_strlit("Created");
                }
                "Created"
            },
            EmailMessageStatus::Processed => {
                proof {
                    reveal_strlit("Processed");
                }
                "Processed"
            },
            EmailMessageStatus::Sent => {
                proof {
                    reveal_strlit("Sent");
                }
                "Sent"
            },
            EmailMessageStatus::Failed => {
                proof {
                    reveal_strlit("Failed");
                }
                "Failed"
            },
            EmailMessageStatus::Stopped => {
                proof {
                    reveal_strlit("Stopped");
                }
                "Stopped"
            },
        }
    }
}

/// The name reported for a stored status code: the status's name, or `Unknown`.
pub open spec fn status_code_name(code: int) -> Seq<char> {
    match EmailMessageStatus::of_code(code) {
        Some(s) => s.name_of(),
        None => "Unknown"@,
    }
}

/// The name reported for a stored status code, `Unknown` where no status has the code.
pub fn status_name(code: i64) -> (r: &'static str)
    ensures
        r@ == status_code_name(code as int),
{
    match EmailMessageStatus::from_code(code) {
        Some(s) => s.name(),
        None => {
            proof {
                reveal_strlit("Unknown");
            }
            "Unknown"
        },
    }
}

/// Every status reads back from its code.
pub proof fn lemma_status_code_round_trip(s: EmailMessageStatus)
    ensures
        EmailMessageStatus::of_code(s.code_of() as int) == Some(s),
{
}

/// Distinct statuses have distinct codes and distinct names.
pub proof fn lemma_status_codes_distinct(a: EmailMessageStatus, b: EmailMessageStatus)
    requires
        a != b,
    ensures
        a.code_of() != b.code_of(),
        a.name_of() != b.name_of(),
{
    reveal_strlit("Created");
    reveal_strlit("Processed");
    reveal_strlit("Sent");
    reveal_strlit("Failed");
    reveal_strlit("Stopped");
    if a.name_of().len() == b.name_of().len() {
        assert(a.name_of()[0] != b.name_of()[0]);
    }
}

/// One e-mail to one recipient, as stored in `email_requests`.
#[derive(Clone, Debug)]
pub struct EmailRequest {
    pub id: Option<i32>,
    pub topic_id: Option<String>,
    pub email: String,
    pub subject: String,
    pub content: String,
    pub scheduled_at: Option<String>,
    pub status: i32,
    pub error: Option<String>,
    pub message_id: Option<String>,
}

/// The HTML that asks the mail client to fetch the open-tracking pixel of a request.
pub open spec fn open_tracking_tag(server_url: Seq<char>, request_id: int) -> Seq<char> {
    "<img src=\""@ + server_url + "/v1/events/open?request_id="@ + int_text(request_id) + "\">"@
}

/// The `(name, count)` pairs that rows of `(status code, count)` stand for.
pub open spec fn request_count_pairs(rows: Seq<(i64, Option<i64>)>) -> Seq<(Seq<char>, i32)> {
    rows.map_values(
        |row: (i64, Option<i64>)|
            (
                status_code_name(row.0 as int),
                (match row.1 {
                    Some(c) => c,
                    None => 0,
                }) as i32,
            ),
    )
}

/// The window text that selects the last `hours` hours in SQLite's `datetime('now', ?)`.
pub open spec fn hours_window(hours: int) -> Seq<char> {
    "-"@ + int_text(hours) + " hours"@
}

/// Each status's count is the count of the last row whose code names it (0 where the row
/// has none), narrowed to `i32`; the status of code `c` is named as `EmailMessageStatus`
/// names it, and a name no row's code gives has no count.
pub proof fn lemma_request_counts_are_row_counts(
    rows: Seq<(i64, Option<i64>)>,
    j: int,
    other: Seq<char>,
)
    requires
        0 <= j < rows.len(),
        forall|k: int|
            j < k < rows.len() ==> status_code_name(rows[k].0 as int) != status_code_name(
                rows[j].0 as int,
            ),
    ensures
        counts_map(request_count_pairs(rows)).contains_key(status_code_name(rows[j].0 as int)),
        counts_map(request_count_pairs(rows))[status_code_name(rows[j].0 as int)] == (match rows[j].1 {
            Some(c) => c,
            None => 0,
        }) as i32,
        EmailMessageStatus::of_code(rows[j].0 as int) matches Some(s) ==> status_code_name(
            rows[j].0 as int,
        ) == s.name_of() && s.code_of() == rows[j].0,
        (forall|k: int| 0 <= k < rows.len() ==> status_code_name(rows[k].0 as int) != other)
            ==> !counts_map(request_count_pairs(rows)).contains_key(other),
{
    let pairs = request_count_pairs(rows);
    assert forall|k: int| j < k < pairs.len() implies pairs[k].0 != pairs[j].0 by {
        assert(pairs[k].0 == status_code_name(rows[k].0 as int));
    }
    lemma_counts_map_last_wins(pairs, j);
    if forall|k: int| 0 <= k < rows.len() ==> status_code_name(rows[k].0 as int) != other {
        assert forall|k: int| 0 <= k < pairs.len() implies pairs[k].0 != other by {
            assert(pairs[k].0 == status_code_name(rows[k].0 as int));
        }
        lemma_counts_map_absent(pairs, other);
    }
}

impl EmailRequest {
    /// The request as stored under the row id `id` (the id narrowed to `i32`).
    pub fn with_id(self, id: i64) -> (r: EmailRequest)
        ensures
            r == (EmailRequest { id: Some(id as i32), ..self }),
    {
        EmailRequest { id: Some(id as i32), ..self }
    }

    /// The request with the open-tracking pixel appended to its content; a request
    /// without an id carries id 0 in the link.
    pub fn with_open_tracking(self, server_url: &str) -> (r: EmailRequest)
        ensures
            r.content@ == self.content@ + open_tracking_tag(
                server_url@,
                (match self.id {
                    Some(id) => id,
                    None => 0,
                }) as int,
            ),
            r == (EmailRequest { content: r.content, ..self }),
    {
        let id: i32 = match self.id {
            Some(id) => id,
            None => 0,
        };
        let mut content = self.content;
        let ghost start = content@;
        content.append("<img src=\"");
        content.append(server_url);
        content.append("/v1/events/open?request_id=");
        let id_text = i32_text(id);
        content.append(id_text.as_str());
        content.append("\">");
        proof {
            reveal_strlit("<img src=\"");
            reveal_strlit("/v1/events/open?request_id=");
            reveal_strlit("\">");
            assert(content@ =~= start + open_tracking_tag(server_url@, id as int));
        }
        EmailRequest { content, ..self }
    }

    /// The request after the sender reported `outcome`: the SES message id on success,
    /// the error text on failure.
    pub fn record_send_outcome(self, outcome: Result<String, String>) -> (r: EmailRequest)
        ensures
            match outcome {
                Ok(message_id) => r == (EmailRequest {
                    status: EmailMessageStatus::Sent.code_of(),
                    message_id: Some(message_id),
                    ..self
                }),
                Err(e) => r.status == EmailMessageStatus::Failed.code_of() && r.error.is_some()
                    && r.error.unwrap()@ == "Failed to send email: "@ + e@ && r == (EmailRequest {
                    status: r.status,
                    error: r.error,
                    ..self
                }),
            },
    {
        match outcome {
            Ok(message_id) => EmailRequest {
                status: EmailMessageStatus::Sent.code(),
                message_id: Some(message_id),
                ..self
            },
            Err(e) => {
                let mut text = String::new();
                text.append("Failed to send email: ");
                text.append(e.as_str());
                proof {
                    reveal_strlit("Failed to send email: ");
                    assert(text@ =~= "Failed to send email: "@ + e@);
                }
                EmailRequest { status: EmailMessageStatus::Failed.code(), error: Some(text), ..self }
            },
        }
    }

    /// The SQLite modifier for "the last `hours` hours", as the sent count uses it.
    pub fn sent_count_window(hours: i32) -> (r: String)
        ensures
            r@ == hours_window(hours as int),
    {
        let mut text = String::new();
        text.append("-");
        let h = i32_text(hours);
        text.append(h.as_str());
        text.append(" hours");
        proof {
            reveal_strlit("-");
            reveal_strlit(" hours");
            assert(text@ =~= hours_window(hours as int));
        }
        text
    }

    /// Counts per status name from rows of `(status code, count)`; codes without a status
    /// count under `Unknown`, a missing count is 0, and a later row replaces an earlier one.
    pub fn counts_by_status(rows: &Vec<(i64, Option<i64>)>) -> (r: StatusCounts)
        ensures
            r@ == counts_map(request_count_pairs(rows@)),
    {
        let mut counts = StatusCounts::new();
        let ghost pairs = request_count_pairs(rows@);
        let n = rows.len();
        let mut i: usize = 0;
        assert(pairs.take(0) =~= Seq::<(Seq<char>, i32)>::empty());
        while i < n
            invariant
                n == rows@.len(),
                pairs == request_count_pairs(rows@),
                i <= n,
                counts@ == counts_map(pairs.take(i as int)),
            decreases n - i,
        {
            let (code, count) = rows[i];
            let c: i64 = match count {
                Some(c) => c,
                None => 0,
            };
            let name = String::from_str(status_name(code));
            counts.insert(name, c as i32);
            assert(pairs.take(i + 1).drop_last() =~= pairs.take(i as int));
            i = i + 1;
        }
        assert(pairs.take(n as int) =~= pairs);
        counts
    }
}

} // verus!
