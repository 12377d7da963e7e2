use vstd::prelude::*;

use crate::text::{i32_of_text, parse_i32};

verus! {

/// Settings of the server.
pub struct Environment {
    pub server_port: String,
    pub server_url: String,
    pub jwt_secret: String,
    pub aws_region: String,
    pub aws_ses_from_email: String,
    pub max_send_per_second: i32,
    pub sentry_dsn: String,
}

/// The raw values of the settings' variables, `None` where a variable is unset.
pub struct EnvironmentVariables {
    pub server_port: Option<String>,
    pub server_url: Option<String>,
    pub jwt_secret: Option<String>,
    pub aws_region: Option<String>,
    pub aws_ses_from_email: Option<String>,
    pub max_send_per_second: Option<String>,
    pub sentry_dsn: Option<String>,
}

/// The text of a variable, or `default` where it is unset.
pub open spec fn text_or(value: Option<String>, default: Seq<char>) -> Seq<char> {
    match value {
        Some(v) => v@,
        None => default,
    }
}

/// The send rate: the variable read as an `i32` (24 when unset), or 24 where it does
/// not read as one.
pub open spec fn send_rate_of(value: Option<String>) -> i32 {
    match i32_of_text(text_or(value, "24"@)) {
        Some(n) => n,
        None => 24,
    }
}

fn string_or(value: Option<String>, default: &str) -> (r: String)
    ensures
        r@ == text_or(value, default@),
{
    match value {
        Some(v) => v,
        None => String::from_str(default),
    }
}

/// The settings that the variables give, with the documented defaults: port 8080,
/// region ap-northeast-2, 24 sends per second, and empty text for the rest.
pub fn get_environments(vars: EnvironmentVariables) -> (r: Environment)
    ensures
        r.server_port@ == text_or(vars.server_port, "8080"@),
        r.server_url@ == text_or(vars.server_url, ""@),
        r.jwt_secret@ == text_or(vars.jwt_secret, ""@),
        r.aws_region@ == text_or(vars.aws_region, "ap-northeast-2"@),
        r.aws_ses_from_email@ == text_or(vars.aws_ses_from_email, ""@),
        r.max_send_per_second == send_rate_of(vars.max_send_per_second),
        r.sentry_dsn@ == text_or(vars.sentry_dsn, ""@),
{
    let rate_text = string_or(vars.max_send_per_second, "24");
    let max_send_per_second = match parse_i32(rate_text.as_str()) {
        Some(n) => n,
        None => 24,
    };
    Environment {
        server_port: string_or(vars.server_port, "8080"),
        server_url: string_or(vars.server_url, ""),
        jwt_secret: string_or(vars.jwt_secret, ""),
        aws_region: string_or(vars.aws_region, "ap-northeast-2"),
        aws_ses_from_email: string_or(vars.aws_ses_from_email, ""),
        max_send_per_second,
        sentry_dsn: string_or(vars.sentry_dsn, ""),
    }
}

} // verus!
