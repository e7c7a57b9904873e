//! Constructing messages from templates, recipients and a configuration
//! snapshot.

use mailcore::common::{ConstructionError, Email};
use mailcore::context::TemplateContext;
use mailcore::corpus::{RenderError, TemplateCorpus};
use mailcore::env::EnvMap;

fn corpus_with_welcome() -> TemplateCorpus {
    let corpus = TemplateCorpus::new();
    assert!(corpus.add_raw(
        "welcome.html",
        "<p>Hello {{ name }}! It is {{ year }}. Re: {{ subject }}</p>",
    ));
    assert!(corpus.add_raw("welcome.txt", "Hello {{ name }}! Re: {{ subject }}"));
    corpus
}

fn env_with_sender() -> EnvMap {
    let mut env = EnvMap::new();
    env.set(
        "EMAIL_DEFAULT_FROM".to_string(),
        "support@svc.io".to_string(),
    );
    env
}

#[test]
fn welcome_scenario() {
    let corpus = corpus_with_welcome();
    let env = env_with_sender();
    let mut context = TemplateContext::new();
    context.insert("name".to_string(), "Jane".to_string());
    let email = Email::new(
        "welcome",
        &vec!["Jane Doe <jane@example.com>".to_string()],
        "Welcome",
        context,
        &corpus,
        &env,
    )
    .expect("construction should succeed");
    assert_eq!(email.to, "Jane Doe <jane@example.com>");
    assert_eq!(email.from, "support@svc.io");
    assert_eq!(email.subject, "Welcome");
    assert!(email.body.contains("Jane"));
    assert!(email.bodyhtml.contains("Jane"));
}

#[test]
fn both_variants_render_nonempty_bodies() {
    let corpus = corpus_with_welcome();
    let env = env_with_sender();
    let mut context = TemplateContext::new();
    context.insert("name".to_string(), "Erby Doe".to_string());
    let email = Email::new(
        "welcome",
        &vec!["Erby Doe <test@example.com>".to_string()],
        "Test subject",
        context,
        &corpus,
        &env,
    )
    .expect("construction should succeed");
    assert!(!email.body.is_empty());
    assert!(!email.bodyhtml.is_empty());
    assert!(email.body.contains("Erby Doe"));
    assert!(email.bodyhtml.contains("Erby Doe"));
    assert!(email.body.contains("Test subject"));
    assert!(email.bodyhtml.contains("Test subject"));
}

#[test]
fn missing_text_variant_refuses_construction() {
    let corpus = TemplateCorpus::new();
    assert!(corpus.add_raw("welcome.html", "<p>Hello {{ name }}</p>"));
    let env = env_with_sender();
    let mut context = TemplateContext::new();
    context.insert("name".to_string(), "Jane".to_string());
    let r = Email::new(
        "welcome",
        &vec!["jane@example.com".to_string()],
        "Welcome",
        context,
        &corpus,
        &env,
    );
    assert!(matches!(
        r,
        Err(ConstructionError::Render(RenderError::MissingTemplate))
    ));
}

#[test]
fn missing_html_variant_refuses_construction() {
    let corpus = TemplateCorpus::new();
    assert!(corpus.add_raw("welcome.txt", "Hello {{ name }}"));
    let env = env_with_sender();
    let mut context = TemplateContext::new();
    context.insert("name".to_string(), "Jane".to_string());
    let r = Email::new(
        "welcome",
        &vec!["jane@example.com".to_string()],
        "Welcome",
        context,
        &corpus,
        &env,
    );
    assert!(matches!(
        r,
        Err(ConstructionError::Render(RenderError::MissingTemplate))
    ));
}

#[test]
fn to_joins_recipients_in_order() {
    let corpus = corpus_with_welcome();
    let env = env_with_sender();
    let mut context = TemplateContext::new();
    context.insert("name".to_string(), "Jane".to_string());
    let email = Email::new(
        "welcome",
        &vec![
            "a@example.com".to_string(),
            "b@example.com".to_string(),
            "c@example.com".to_string(),
        ],
        "Welcome",
        context,
        &corpus,
        &env,
    )
    .expect("construction should succeed");
    assert_eq!(email.to, "a@example.com,b@example.com,c@example.com");
}

#[test]
fn from_matches_sender_variable() {
    let corpus = corpus_with_welcome();
    let mut env = EnvMap::new();
    env.set(
        "EMAIL_DEFAULT_FROM".to_string(),
        "noreply@other.example".to_string(),
    );
    let mut context = TemplateContext::new();
    context.insert("name".to_string(), "Jane".to_string());
    let email = Email::new(
        "welcome",
        &vec!["jane@example.com".to_string()],
        "Welcome",
        context,
        &corpus,
        &env,
    )
    .expect("construction should succeed");
    assert_eq!(email.from, "noreply@other.example");
}

#[test]
fn empty_recipient_among_several_is_kept_in_the_join() {
    let corpus = corpus_with_welcome();
    let env = env_with_sender();
    let mut context = TemplateContext::new();
    context.insert("name".to_string(), "Jane".to_string());
    let email = Email::new(
        "welcome",
        &vec!["".to_string(), "a@example.com".to_string()],
        "Welcome",
        context,
        &corpus,
        &env,
    )
    .expect("construction should succeed");
    assert_eq!(email.to, ",a@example.com");
}

#[test]
fn missing_sender_refuses_construction() {
    let corpus = corpus_with_welcome();
    let env = EnvMap::new();
    let mut context = TemplateContext::new();
    context.insert("name".to_string(), "Jane".to_string());
    let r = Email::new(
        "welcome",
        &vec!["jane@example.com".to_string()],
        "Welcome",
        context,
        &corpus,
        &env,
    );
    assert!(matches!(r, Err(ConstructionError::MissingSender)));
}
