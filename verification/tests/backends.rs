//! Configuration validation, request bodies and delivery plans of the three
//! backends.

use mailcore::common::{interpret_provider_status, DeliveryError, Email};
use mailcore::env::EnvMap;
use mailcore::postmark;
use mailcore::sendgrid;
use mailcore::smtp;

fn sample_email() -> Email {
    Email {
        from: "support@svc.io".to_string(),
        to: "jane@example.com".to_string(),
        subject: "Welcome".to_string(),
        body: "Hello Jane".to_string(),
        bodyhtml: "<p>Hello Jane</p>".to_string(),
    }
}

fn smtp_env() -> EnvMap {
    let mut env = EnvMap::new();
    env.set(
        "EMAIL_DEFAULT_FROM".to_string(),
        "support@svc.io".to_string(),
    );
    env.set("EMAIL_SMTP_HOST".to_string(), "smtp.example.com".to_string());
    env.set("EMAIL_SMTP_PORT".to_string(), "587".to_string());
    env.set("EMAIL_SMTP_USERNAME".to_string(), "mailer".to_string());
    env.set("EMAIL_SMTP_PASSWORD".to_string(), "hunter2".to_string());
    env
}

#[test]
fn postmark_check_conf_passes_and_is_stable() {
    let mut env = EnvMap::new();
    env.set("POSTMARK_API_KEY".to_string(), "pm-key".to_string());
    assert!(postmark::check_conf(&env).is_ok());
    assert!(postmark::check_conf(&env).is_ok());
}

#[test]
fn postmark_check_conf_reports_missing_key() {
    let env = EnvMap::new();
    let first = postmark::check_conf(&env).expect_err("must fail");
    assert_eq!(first.missing, vec!["POSTMARK_API_KEY".to_string()]);
    let second = postmark::check_conf(&env).expect_err("must fail again");
    assert_eq!(second.missing, first.missing);
}

#[test]
fn postmark_check_conf_rejects_empty_value() {
    let mut env = EnvMap::new();
    env.set("POSTMARK_API_KEY".to_string(), "".to_string());
    let e = postmark::check_conf(&env).expect_err("empty value must fail");
    assert_eq!(e.missing, vec!["POSTMARK_API_KEY".to_string()]);
}

#[test]
fn sendgrid_check_conf_outcomes() {
    let mut env = EnvMap::new();
    assert!(sendgrid::check_conf(&env).is_err());
    env.set("SENDGRID_API_KEY".to_string(), "sg-key".to_string());
    assert!(sendgrid::check_conf(&env).is_ok());
}

#[test]
fn smtp_check_conf_collects_all_missing_in_order() {
    let mut env = EnvMap::new();
    env.set("EMAIL_SMTP_HOST".to_string(), "smtp.example.com".to_string());
    let e = smtp::check_conf(&env).expect_err("must fail");
    assert_eq!(
        e.missing,
        vec![
            "EMAIL_DEFAULT_FROM".to_string(),
            "EMAIL_SMTP_PORT".to_string(),
            "EMAIL_SMTP_USERNAME".to_string(),
            "EMAIL_SMTP_PASSWORD".to_string(),
        ]
    );
}

#[test]
fn smtp_check_conf_passes_on_full_configuration() {
    let env = smtp_env();
    assert!(smtp::check_conf(&env).is_ok());
    assert!(smtp::check_conf(&env).is_ok());
}

#[test]
fn postmark_body_is_the_exact_wire_object() {
    let email = sample_email();
    let body = postmark::postmark_request_body(&email);
    assert_eq!(
        body,
        "{\"From\":\"support@svc.io\",\"To\":\"jane@example.com\",\
         \"Subject\":\"Welcome\",\"TextBody\":\"Hello Jane\",\
         \"HtmlBody\":\"<p>Hello Jane</p>\"}"
    );
}

#[test]
fn postmark_body_escapes_json_characters() {
    let mut email = sample_email();
    email.subject = "A \"quoted\" subject\nwith\tcontrol \\ chars\u{1}".to_string();
    let body = postmark::postmark_request_body(&email);
    assert!(body.contains(
        "\"Subject\":\"A \\\"quoted\\\" subject\\nwith\\tcontrol \\\\ chars\\u0001\""
    ));
}

#[test]
fn provider_status_interpretation() {
    assert!(interpret_provider_status(200).is_ok());
    assert!(interpret_provider_status(202).is_ok());
    assert!(interpret_provider_status(299).is_ok());
    assert_eq!(
        interpret_provider_status(300),
        Err(DeliveryError::Rejected(300))
    );
    assert_eq!(
        interpret_provider_status(422),
        Err(DeliveryError::Rejected(422))
    );
    assert_eq!(
        interpret_provider_status(199),
        Err(DeliveryError::Rejected(199))
    );
}

#[test]
fn sendgrid_body_splits_the_recipient() {
    let mut email = sample_email();
    email.to = "Jane Doe <jane@example.com>".to_string();
    let body = sendgrid::sendgrid_request_body(&email).expect("address must parse");
    assert_eq!(
        body,
        "{\"personalizations\":[{\"to\":[{\"email\":\"jane@example.com\",\
         \"name\":\"Jane Doe\"}]}],\"from\":{\"email\":\"support@svc.io\"},\
         \"subject\":\"Welcome\",\"content\":[{\"type\":\"text/html\",\
         \"value\":\"<p>Hello Jane</p>\"},{\"type\":\"text/plain\",\
         \"value\":\"Hello Jane\"}]}"
    );
}

#[test]
fn sendgrid_body_without_display_name() {
    let email = sample_email();
    let body = sendgrid::sendgrid_request_body(&email).expect("address must parse");
    assert!(body.starts_with("{\"personalizations\":[{\"to\":[{\"email\":\"jane@example.com\"}]}]"));
}

#[test]
fn sendgrid_body_rejects_invalid_recipient() {
    let mut email = sample_email();
    email.to = "not an address".to_string();
    assert_eq!(
        sendgrid::sendgrid_request_body(&email),
        Err(DeliveryError::InvalidAddress)
    );
}

#[test]
fn smtp_plan_resolves_configuration() {
    let email = sample_email();
    let env = smtp_env();
    let plan = smtp::smtp_plan(&email, &env).expect("plan must build");
    assert_eq!(plan.host, "smtp.example.com");
    assert_eq!(plan.port, 587);
    assert_eq!(plan.username, "mailer");
    assert_eq!(plan.password, "hunter2");
    assert_eq!(plan.reply_to, "support@svc.io");
    assert!(plan.use_tls);
}

#[test]
fn smtp_plan_tls_disablement() {
    let email = sample_email();
    let mut env = smtp_env();
    env.set("EMAIL_SMTP_NOTLS".to_string(), "true".to_string());
    assert!(!smtp::smtp_plan(&email, &env).unwrap().use_tls);
    env.set("EMAIL_SMTP_NOTLS".to_string(), "1".to_string());
    assert!(!smtp::smtp_plan(&email, &env).unwrap().use_tls);
    env.set("EMAIL_SMTP_NOTLS".to_string(), "false".to_string());
    assert!(smtp::smtp_plan(&email, &env).unwrap().use_tls);
    env.set("EMAIL_SMTP_NOTLS".to_string(), "0".to_string());
    assert!(smtp::smtp_plan(&email, &env).unwrap().use_tls);
}

#[test]
fn smtp_plan_reply_to_prefers_support_address() {
    let email = sample_email();
    let mut env = smtp_env();
    env.set(
        "JELLY_SUPPORT_EMAIL".to_string(),
        "help@svc.io".to_string(),
    );
    let plan = smtp::smtp_plan(&email, &env).expect("plan must build");
    assert_eq!(plan.reply_to, "help@svc.io");
}

#[test]
fn smtp_plan_rejects_invalid_addresses() {
    let mut email = sample_email();
    email.to = "not an address".to_string();
    let env = smtp_env();
    assert_eq!(
        smtp::smtp_plan(&email, &env),
        Err(DeliveryError::InvalidAddress)
    );
    let mut email2 = sample_email();
    email2.from = "###".to_string();
    assert_eq!(
        smtp::smtp_plan(&email2, &env),
        Err(DeliveryError::InvalidAddress)
    );
}

#[test]
fn smtp_plan_rejects_unparseable_port() {
    let email = sample_email();
    let mut env = smtp_env();
    env.set("EMAIL_SMTP_PORT".to_string(), "not-a-port".to_string());
    assert_eq!(
        smtp::smtp_plan(&email, &env),
        Err(DeliveryError::Transport)
    );
    env.set("EMAIL_SMTP_PORT".to_string(), "70000".to_string());
    assert_eq!(
        smtp::smtp_plan(&email, &env),
        Err(DeliveryError::Transport)
    );
}

#[test]
fn parse_port_exact_outcomes() {
    assert_eq!(smtp::parse_port("587"), Some(587));
    assert_eq!(smtp::parse_port("65535"), Some(65535));
    assert_eq!(smtp::parse_port("65536"), None);
    assert_eq!(smtp::parse_port("0"), Some(0));
    assert_eq!(smtp::parse_port(""), None);
    assert_eq!(smtp::parse_port("2x5"), None);
    assert_eq!(smtp::parse_port(" 25"), None);
    assert_eq!(smtp::parse_port("999999999999"), None);
}
