use ses_mailer::config::{get_environments, EnvironmentVariables};

fn unset() -> EnvironmentVariables {
    EnvironmentVariables {
        server_port: None,
        server_url: None,
        jwt_secret: None,
        aws_region: None,
        aws_ses_from_email: None,
        max_send_per_second: None,
        sentry_dsn: None,
    }
}

#[test]
fn unset_variables_take_defaults() {
    let env = get_environments(unset());
    assert_eq!(env.server_port, "8080");
    assert_eq!(env.server_url, "");
    assert_eq!(env.jwt_secret, "");
    assert_eq!(env.aws_region, "ap-northeast-2");
    assert_eq!(env.aws_ses_from_email, "");
    assert_eq!(env.max_send_per_second, 24);
    assert_eq!(env.sentry_dsn, "");
}

#[test]
fn set_variables_are_kept() {
    let mut vars = unset();
    vars.server_port = Some("3000".to_string());
    vars.server_url = Some("http://localhost:3000".to_string());
    vars.jwt_secret = Some("secret".to_string());
    vars.aws_region = Some("us-east-1".to_string());
    vars.aws_ses_from_email = Some("a@b.c".to_string());
    vars.max_send_per_second = Some("12".to_string());
    vars.sentry_dsn = Some("dsn".to_string());
    let env = get_environments(vars);
    assert_eq!(env.server_port, "3000");
    assert_eq!(env.server_url, "http://localhost:3000");
    assert_eq!(env.jwt_secret, "secret");
    assert_eq!(env.aws_region, "us-east-1");
    assert_eq!(env.aws_ses_from_email, "a@b.c");
    assert_eq!(env.max_send_per_second, 12);
    assert_eq!(env.sentry_dsn, "dsn");
}

#[test]
fn unreadable_rate_falls_back_to_24() {
    for bad in ["fast", "", "12.5", "99999999999"] {
        let mut vars = unset();
        vars.max_send_per_second = Some(bad.to_string());
        assert_eq!(get_environments(vars).max_send_per_second, 24, "input {:?}", bad);
    }
    let mut vars = unset();
    vars.max_send_per_second = Some("-3".to_string());
    assert_eq!(get_environments(vars).max_send_per_second, -3);
}
