//! The welcome-message job.
//!
//! After an account is verified, a job carrying the account's row id is
//! queued; the runner fetches the account's name and address and builds the
//! welcome message from them. The fetching and the queue live with the
//! caller; the message construction — template, subject, context — is here.

use vstd::prelude::*;
use vstd::string::StringExecFns;

use crate::common::{ConstructionError, Email, sender_var};
use crate::context::TemplateContext;
use crate::corpus::TemplateCorpus;
use crate::env::{EnvMap, env_lookup};

verus! {

/// A job for sending a welcome message, generally dispatched after an
/// account has been verified. Carries the account's row id; the runner
/// resolves it to a name and an address and calls `welcome_email`.
#[derive(Clone, Copy, Debug, PartialEq, Eq, Structural)]
pub struct SendWelcomeAccountEmail {
    /// The row id of the account to welcome.
    pub to: i32,
}

/// The subject of every welcome message.
pub open spec fn welcome_subject() -> Seq<char> {
    "Welcome to the service"@
}

impl SendWelcomeAccountEmail {
    /// Builds the welcome message for a freshly verified account: the
    /// `email/welcome` template rendered with the account's name, addressed
    /// to the account's address, under the fixed welcome subject.
    pub fn welcome_email(
        name: &str,
        recipient: String,
        templates: &TemplateCorpus,
        env: &EnvMap,
    ) -> (r: Result<Email, ConstructionError>)
        requires
            recipient@.len() > 0,
        ensures
            match r {
                Ok(email) => {
                    &&& env_lookup(env@, sender_var()) == Some(email.from@)
                    &&& email.to@ == recipient@
                    &&& email.subject@ == welcome_subject()
                    &&& email.wf()
                },
                Err(ConstructionError::MissingSender) => env_lookup(env@, sender_var()) is None,
                Err(ConstructionError::Render(_)) => env_lookup(env@, sender_var()) is Some,
            },
    {
        let mut context = TemplateContext::new();
        context.insert(String::from_str("name"), name.to_owned());
        let ghost recipient_view = recipient@;
        let recipients = vec![recipient];
        proof {
            reveal_strlit("Welcome to the service");
            assert(recipients.deep_view() =~= seq![recipient_view]);
            assert(crate::common::join_comma(recipients.deep_view()) == recipient_view);
        }
        Email::new("email/welcome", &recipients, "Welcome to the service", context, templates, env)
    }
}

} // verus!
