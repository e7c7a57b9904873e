//! The SendGrid HTTP-API delivery backend.
//!
//! The recipient field is split into address and display name, and the
//! message is carried as the provider's JSON object: one personalization for
//! the recipient, the sender address, the subject, and the HTML and plaintext
//! bodies as content entries. The caller POSTs the body to the provider's
//! mail endpoint with the API key as a bearer credential and hands the
//! resulting status code back to `interpret_provider_status`.

use vstd::prelude::*;
use vstd::string::StringExecFns;

use crate::common::{
    DeliveryError, Email, check_required_vars, mailbox_parts, missing_vars, parse_mailbox,
    var_set_and_not_empty,
};
use crate::env::{ConfigurationError, EnvMap};
use crate::json::{json_escape, json_escaped};

verus! {

/// The variables the SendGrid backend requires at startup.
pub open spec fn sendgrid_required() -> Seq<Seq<char>> {
    seq!["SENDGRID_API_KEY"@]
}

/// Checks that every variable the SendGrid backend needs is set and not
/// empty. The outcome is a function of the snapshot alone, so repeated
/// checks against a stable snapshot agree.
pub fn check_conf(env: &EnvMap) -> (r: Result<(), ConfigurationError>)
    ensures
        match r {
            Ok(()) => forall|i: int|
                0 <= i < sendgrid_required().len() ==> var_set_and_not_empty(
                    env@,
                    #[trigger] sendgrid_required()[i],
                ),
            Err(e) => {
                &&& e.missing.deep_view() == missing_vars(env@, sendgrid_required())
                &&& missing_vars(env@, sendgrid_required()).len() > 0
            },
        },
{
    let required = vec!["SENDGRID_API_KEY"];
    proof {
        assert(required.deep_view() =~= sendgrid_required());
    }
    check_required_vars(env, &required)
}

/// The optional display-name member of the recipient object.
pub open spec fn sendgrid_name_member(to_name: Option<Seq<char>>) -> Seq<char> {
    match to_name {
        Some(n) => "\",\"name\":\""@ + json_escaped(n),
        None => Seq::empty(),
    }
}

/// The JSON object the provider expects: one personalization holding the
/// recipient's address and optional display name, the sender, the subject,
/// and the HTML and plaintext bodies as content entries.
pub open spec fn sendgrid_body(
    to_addr: Seq<char>,
    to_name: Option<Seq<char>>,
    from: Seq<char>,
    subject: Seq<char>,
    html: Seq<char>,
    text: Seq<char>,
) -> Seq<char> {
    "{\"personalizations\":[{\"to\":[{\"email\":\""@ + json_escaped(to_addr)
        + sendgrid_name_member(to_name) + "\"}]}],\"from\":{\"email\":\""@ + json_escaped(from)
        + "\"},\"subject\":\""@ + json_escaped(subject)
        + "\",\"content\":[{\"type\":\"text/html\",\"value\":\""@ + json_escaped(html)
        + "\"},{\"type\":\"text/plain\",\"value\":\""@ + json_escaped(text) + "\"}]}"
        @
}

/// Serializes the message as the provider's JSON request body. The recipient
/// field must be a single parseable address specification; an unparseable
/// one refuses the send before any request is made.
pub fn sendgrid_request_body(email: &Email) -> (r: Result<String, DeliveryError>)
    ensures
        match r {
            Ok(body) => {
                &&& mailbox_parts(email.to@) is Some
                &&& body@ == sendgrid_body(
                    mailbox_parts(email.to@)->Some_0.0,
                    mailbox_parts(email.to@)->Some_0.1,
                    email.from@,
                    email.subject@,
                    email.bodyhtml@,
                    email.body@,
                )
            },
            Err(DeliveryError::InvalidAddress) => mailbox_parts(email.to@) is None,
            Err(DeliveryError::Transport) => false,
            Err(DeliveryError::Rejected(_)) => false,
        },
{
    let parts = match parse_mailbox(email.to.as_str()) {
        Some(p) => p,
        None => {
            return Err(DeliveryError::InvalidAddress);
        },
    };
    let mut acc = String::from_str("{\"personalizations\":[{\"to\":[{\"email\":\"");
    acc.append(json_escape(parts.address.as_str()).as_str());
    match &parts.display_name {
        Some(name) => {
            acc.append("\",\"name\":\"");
            acc.append(json_escape(name.as_str()).as_str());
        },
        None => {},
    }
    acc.append("\"}]}],\"from\":{\"email\":\"");
    acc.append(json_escape(email.from.as_str()).as_str());
    acc.append("\"},\"subject\":\"");
    acc.append(json_escape(email.subject.as_str()).as_str());
    acc.append("\",\"content\":[{\"type\":\"text/html\",\"value\":\"");
    acc.append(json_escape(email.bodyhtml.as_str()).as_str());
    acc.append("\"},{\"type\":\"text/plain\",\"value\":\"");
    acc.append(json_escape(email.body.as_str()).as_str());
    acc.append("\"}]}");
    Ok(acc)
}

} // verus!
