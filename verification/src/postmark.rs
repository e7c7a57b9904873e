//! The Postmark HTTP-API delivery backend.
//!
//! The message is carried as a JSON object whose field names — `From`, `To`,
//! `Subject`, `TextBody`, `HtmlBody` — are a wire contract with the provider
//! and must not be renamed. The caller POSTs the body to the provider's email
//! endpoint with the API key in the provider-specific header and hands the
//! resulting status code back to `interpret_provider_status`.

use vstd::prelude::*;
use vstd::string::StringExecFns;

use crate::common::{Email, check_required_vars, missing_vars, var_set_and_not_empty};
use crate::env::{ConfigurationError, EnvMap};
use crate::json::{json_escape, json_escaped};

verus! {

/// The variables the HTTP-API backend requires at startup.
pub open spec fn postmark_required() -> Seq<Seq<char>> {
    seq!["POSTMARK_API_KEY"@]
}

/// Checks that every variable the HTTP-API backend needs is set and not
/// empty. The outcome is a function of the snapshot alone, so repeated checks
/// against a stable snapshot agree.
pub fn check_conf(env: &EnvMap) -> (r: Result<(), ConfigurationError>)
    ensures
        match r {
            Ok(()) => forall|i: int|
                0 <= i < postmark_required().len() ==> var_set_and_not_empty(
                    env@,
                    #[trigger] postmark_required()[i],
                ),
            Err(e) => {
                &&& e.missing.deep_view() == missing_vars(env@, postmark_required())
                &&& missing_vars(env@, postmark_required()).len() > 0
            },
        },
{
    let required = vec!["POSTMARK_API_KEY"];
    proof {
        assert(required.deep_view() =~= postmark_required());
    }
    check_required_vars(env, &required)
}

/// The JSON object the provider expects: the message's five fields under
/// their wire names, each encoded as a JSON string literal.
pub open spec fn postmark_body(
    from: Seq<char>,
    to: Seq<char>,
    subject: Seq<char>,
    text: Seq<char>,
    html: Seq<char>,
) -> Seq<char> {
    "{\"From\":\""@ + json_escaped(from) + "\",\"To\":\""@ + json_escaped(to)
        + "\",\"Subject\":\""@ + json_escaped(subject) + "\",\"TextBody\":\""@ + json_escaped(text)
        + "\",\"HtmlBody\":\""@ + json_escaped(html) + "\"}"@
}

/// Serializes the message as the provider's JSON request body.
pub fn postmark_request_body(email: &Email) -> (r: String)
    ensures
        r@ == postmark_body(email.from@, email.to@, email.subject@, email.body@, email.bodyhtml@),
{
    let mut acc = String::from_str("{\"From\":\"");
    acc.append(json_escape(email.from.as_str()).as_str());
    acc.append("\",\"To\":\"");
    acc.append(json_escape(email.to.as_str()).as_str());
    acc.append("\",\"Subject\":\"");
    acc.append(json_escape(email.subject.as_str()).as_str());
    acc.append("\",\"TextBody\":\"");
    acc.append(json_escape(email.body.as_str()).as_str());
    acc.append("\",\"HtmlBody\":\"");
    acc.append(json_escape(email.bodyhtml.as_str()).as_str());
    acc.append("\"}");
    acc
}

} // verus!
