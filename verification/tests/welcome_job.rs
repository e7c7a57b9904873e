//! The welcome-message job.

use mailcore::corpus::TemplateCorpus;
use mailcore::env::EnvMap;
use mailcore::welcome::SendWelcomeAccountEmail;

#[test]
fn welcome_email_uses_the_fixed_template_and_subject() {
    let corpus = TemplateCorpus::new();
    assert!(corpus.add_raw(
        "email/welcome.html",
        "<p>Welcome, {{ name }}! See {{ JELLY_HELP_URL }}</p>",
    ));
    assert!(corpus.add_raw(
        "email/welcome.txt",
        "Welcome, {{ name }}! See {{ JELLY_HELP_URL }}",
    ));
    let mut env = EnvMap::new();
    env.set(
        "EMAIL_DEFAULT_FROM".to_string(),
        "support@svc.io".to_string(),
    );
    env.set(
        "JELLY_HELP_URL".to_string(),
        "http://example.com/help".to_string(),
    );
    let email = SendWelcomeAccountEmail::welcome_email(
        "Erby Doe",
        "Erby Doe <test@example.com>".to_string(),
        &corpus,
        &env,
    )
    .expect("construction should succeed");
    assert_eq!(email.to, "Erby Doe <test@example.com>");
    assert_eq!(email.from, "support@svc.io");
    assert_eq!(email.subject, "Welcome to the service");
    assert!(email.body.contains("Erby Doe"));
    assert!(email.body.contains("http://example.com/help"));
}

#[test]
fn welcome_job_carries_the_account_id() {
    let job = SendWelcomeAccountEmail { to: 17 };
    assert_eq!(job.to, 17);
}
