use vstd::prelude::*;

verus! {

/// How the topic endpoints answer, besides the counts themselves.
#[derive(Clone, Copy, PartialEq, Eq, Structural, Debug)]
pub enum TopicResponse {
    TopicIdRequired,
    Stopped,
    StopFailed,
}

/// The HTTP status of an answer.
pub open spec fn topic_response_status(response: TopicResponse) -> u16 {
    match response {
        TopicResponse::TopicIdRequired => 400,
        TopicResponse::Stopped => 200,
        TopicResponse::StopFailed => 500,
    }
}

/// The body text of an answer.
pub open spec fn topic_response_text(response: TopicResponse) -> Seq<char> {
    match response {
        TopicResponse::TopicIdRequired => "topicId is required"@,
        TopicResponse::Stopped => "OK"@,
        TopicResponse::StopFailed => "Failed to stop topic"@,
    }
}

impl TopicResponse {
    /// The HTTP status of this answer.
    pub fn status_code(&self) -> (r: u16)
        ensures
            r == topic_response_status(*self),
    {
        match self {
            TopicResponse::TopicIdRequired => 400,
            TopicResponse::Stopped => 200,
            TopicResponse::StopFailed => 500,
        }
    }

    /// The body text of this answer.
    pub fn text(&self) -> (r: &'static str)
        ensures
            r@ == topic_response_text(*self),
    {
        match self {
            TopicResponse::TopicIdRequired => {
                proof {
                    reveal_strlit("topicId is required");
                }
                "topicId is required"
            },
            TopicResponse::Stopped => {
                proof {
                    reveal_strlit("OK");
                }
                "OK"
            },
            TopicResponse::StopFailed => {
                proof {
                    reveal_strlit("Failed to stop topic");
                }
                "Failed to stop topic"
            },
        }
    }
}

/// The answer for a topic lookup that names no topic; `None` where a topic is named.
pub fn check_topic_id(topic_id: &str) -> (r: Option<TopicResponse>)
    ensures
        r == (if topic_id@.len() == 0 {
            Some(TopicResponse::TopicIdRequired)
        } else {
            None
        }),
{
    if topic_id.is_empty() {
        Some(TopicResponse::TopicIdRequired)
    } else {
        None
    }
}

/// The answer once stopping a topic's waiting requests succeeded or failed.
pub fn stop_topic_response(stopped: bool) -> (r: TopicResponse)
    ensures
        r == (if stopped {
            TopicResponse::Stopped
        } else {
            TopicResponse::StopFailed
        }),
{
    if stopped {
        TopicResponse::Stopped
    } else {
        TopicResponse::StopFailed
    }
}

} // verus!
