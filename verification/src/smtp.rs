//! The SMTP relay delivery backend.
//!
//! Dispatching over SMTP needs a relay plan: host, port, credentials, the
//! reply-to address (a configurable support address, falling back to the
//! sender), and whether the connection must use TLS. `smtp_plan` computes the
//! plan from the message and the configuration snapshot; the caller opens the
//! relay connection and submits the MIME multipart-alternative message that
//! pairs the plaintext and HTML bodies.

use vstd::prelude::*;

use crate::common::{
    DeliveryError, Email, check_required_vars, mailbox_parts, missing_vars, parse_mailbox,
    var_set_and_not_empty,
};
use crate::env::{ConfigurationError, EnvMap, env_lookup};

verus! {

/// The variables the SMTP backend requires at startup.
pub open spec fn smtp_required() -> Seq<Seq<char>> {
    seq![
        "EMAIL_DEFAULT_FROM"@,
        "EMAIL_SMTP_HOST"@,
        "EMAIL_SMTP_PORT"@,
        "EMAIL_SMTP_USERNAME"@,
        "EMAIL_SMTP_PASSWORD"@,
    ]
}

/// The variable naming the relay host.
pub open spec fn host_var() -> Seq<char> {
    "EMAIL_SMTP_HOST"@
}

/// The variable naming the relay port.
pub open spec fn port_var() -> Seq<char> {
    "EMAIL_SMTP_PORT"@
}

/// The variable naming the relay username.
pub open spec fn username_var() -> Seq<char> {
    "EMAIL_SMTP_USERNAME"@
}

/// The variable naming the relay password.
pub open spec fn password_var() -> Seq<char> {
    "EMAIL_SMTP_PASSWORD"@
}

/// The optional variable naming the support address used as reply-to.
pub open spec fn support_var() -> Seq<char> {
    "JELLY_SUPPORT_EMAIL"@
}

/// The optional variable that disables TLS on the relay connection.
pub open spec fn notls_var() -> Seq<char> {
    "EMAIL_SMTP_NOTLS"@
}

/// Checks that every variable the SMTP backend needs is set and not empty.
/// The outcome is a function of the snapshot alone, so repeated checks
/// against a stable snapshot agree.
pub fn check_conf(env: &EnvMap) -> (r: Result<(), ConfigurationError>)
    ensures
        match r {
            Ok(()) => forall|i: int|
                0 <= i < smtp_required().len() ==> var_set_and_not_empty(
                    env@,
                    #[trigger] smtp_required()[i],
                ),
            Err(e) => {
                &&& e.missing.deep_view() == missing_vars(env@, smtp_required())
                &&& missing_vars(env@, smtp_required()).len() > 0
            },
        },
{
    let required = vec![
        "EMAIL_DEFAULT_FROM",
        "EMAIL_SMTP_HOST",
        "EMAIL_SMTP_PORT",
        "EMAIL_SMTP_USERNAME",
        "EMAIL_SMTP_PASSWORD",
    ];
    proof {
        assert(required.deep_view() =~= smtp_required());
    }
    check_required_vars(env, &required)
}

/// Whether the snapshot explicitly disables TLS: the optional variable is
/// set to `1` or `true`. Unset, or set to anything else, leaves TLS required.
pub open spec fn tls_disabled(env: Seq<(Seq<char>, Seq<char>)>) -> bool {
    match env_lookup(env, notls_var()) {
        Some(v) => v == "1"@ || v == "true"@,
        None => false,
    }
}

/// The reply-to address: the configured support address, or the message's
/// sender where none is configured.
pub open spec fn reply_to_of(from: Seq<char>, env: Seq<(Seq<char>, Seq<char>)>) -> Seq<char> {
    match env_lookup(env, support_var()) {
        Some(v) => v,
        None => from,
    }
}

/// Whether `c` is a decimal digit.
pub open spec fn is_dec_digit(c: char) -> bool {
    ('0' as u32) <= (c as u32) <= ('9' as u32)
}

/// The numeric value of decimal text, most significant digit first.
pub open spec fn dec_num(s: Seq<char>) -> int
    decreases s.len(),
{
    if s.len() == 0 {
        0
    } else {
        dec_num(s.drop_last()) * 10 + (s.last() as u32 - '0' as u32)
    }
}

/// The port that decimal text names: defined exactly for non-empty all-digit
/// text whose value fits a port number.
pub open spec fn port_value(s: Seq<char>) -> Option<u16> {
    if s.len() > 0 && (forall|i: int| 0 <= i < s.len() ==> is_dec_digit(#[trigger] s[i]))
        && dec_num(s) <= 65535 {
        Some(dec_num(s) as u16)
    } else {
        None
    }
}

/// Once a prefix of all-digit text exceeds the largest port, the whole text
/// does too.
proof fn lemma_dec_num_grows(s: Seq<char>, i: int)
    requires
        0 <= i <= s.len(),
        forall|j: int| 0 <= j < s.len() ==> is_dec_digit(#[trigger] s[j]),
        dec_num(s.take(i)) > 65535,
    ensures
        dec_num(s) > 65535,
    decreases s.len() - i,
{
    if i < s.len() {
        assert(s.take(i + 1).drop_last() =~= s.take(i));
        assert(s.take(i + 1).last() == s[i]);
        lemma_dec_num_grows(s, i + 1);
    } else {
        assert(s.take(i) =~= s);
    }
}

/// Parses decimal text as a port number. Yields a value exactly for
/// non-empty all-digit text naming at most the largest port.
pub fn parse_port(s: &str) -> (r: Option<u16>)
    ensures
        r == port_value(s@),
{
    let n = vstd::string::StrSliceExecFns::unicode_len(s);
    if n == 0 {
        return None;
    }
    let mut acc: u32 = 0;
    let mut i: usize = 0;
    proof {
        assert(s@.take(0).len() == 0);
    }
    while i < n
        invariant
            i <= n,
            n == s@.len(),
            n > 0,
            acc <= 65535,
            acc == dec_num(s@.take(i as int)),
            forall|j: int| 0 <= j < i ==> is_dec_digit(#[trigger] s@[j]),
        decreases n - i,
    {
        proof {
            assert(s@.take(i as int + 1).drop_last() =~= s@.take(i as int));
            assert(s@.take(i as int + 1).last() == s@[i as int]);
        }
        let c = vstd::string::StrSliceExecFns::get_char(s, i);
        let code = c as u32;
        if code < ('0' as u32) || code > ('9' as u32) {
            return None;
        }
        acc = acc * 10 + (code - ('0' as u32));
        i += 1;
        if acc > 65535 {
            proof {
                if forall|j: int| 0 <= j < s@.len() ==> is_dec_digit(#[trigger] s@[j]) {
                    lemma_dec_num_grows(s@, i as int);
                }
            }
            return None;
        }
    }
    proof {
        assert(s@.take(n as int) =~= s@);
    }
    Some(acc as u16)
}

/// Everything a relay submission needs, computed once per send.
#[derive(Debug, PartialEq, Eq)]
pub struct SmtpPlan {
    /// The relay host to connect to.
    pub host: String,
    /// The relay port.
    pub port: u16,
    /// The username for relay authentication.
    pub username: String,
    /// The password for relay authentication.
    pub password: String,
    /// The reply-to address of the submitted message.
    pub reply_to: String,
    /// Whether the connection must use TLS.
    pub use_tls: bool,
}

/// Computes the relay plan for a message: resolves host, port and
/// credentials from the snapshot, the reply-to fallback, and whether TLS was
/// explicitly disabled; validates the sender, reply-to and recipient
/// addresses. An unparseable address refuses the plan before the port is
/// read, as a relay submission would.
pub fn smtp_plan(email: &Email, env: &EnvMap) -> (r: Result<SmtpPlan, DeliveryError>)
    requires
        env_lookup(env@, host_var()) is Some,
        env_lookup(env@, port_var()) is Some,
        env_lookup(env@, username_var()) is Some,
        env_lookup(env@, password_var()) is Some,
    ensures
        match r {
            Ok(plan) => {
                &&& mailbox_parts(email.from@) is Some
                &&& mailbox_parts(reply_to_of(email.from@, env@)) is Some
                &&& mailbox_parts(email.to@) is Some
                &&& Some(plan.host@) == env_lookup(env@, host_var())
                &&& Some(plan.username@) == env_lookup(env@, username_var())
                &&& Some(plan.password@) == env_lookup(env@, password_var())
                &&& plan.reply_to@ == reply_to_of(email.from@, env@)
                &&& port_value(env_lookup(env@, port_var())->Some_0) == Some(plan.port)
                &&& plan.use_tls == !tls_disabled(env@)
            },
            Err(DeliveryError::InvalidAddress) => {
                ||| mailbox_parts(email.from@) is None
                ||| mailbox_parts(reply_to_of(email.from@, env@)) is None
                ||| mailbox_parts(email.to@) is None
            },
            Err(DeliveryError::Transport) => {
                &&& mailbox_parts(email.from@) is Some
                &&& mailbox_parts(reply_to_of(email.from@, env@)) is Some
                &&& mailbox_parts(email.to@) is Some
                &&& port_value(env_lookup(env@, port_var())->Some_0) is None
            },
            Err(DeliveryError::Rejected(_)) => false,
        },
{
    let host = match env.get("EMAIL_SMTP_HOST") {
        Some(v) => v.clone(),
        None => {
            return Err(DeliveryError::Transport);
        },
    };
    let port_text = match env.get("EMAIL_SMTP_PORT") {
        Some(v) => v.clone(),
        None => {
            return Err(DeliveryError::Transport);
        },
    };
    let username = match env.get("EMAIL_SMTP_USERNAME") {
        Some(v) => v.clone(),
        None => {
            return Err(DeliveryError::Transport);
        },
    };
    let password = match env.get("EMAIL_SMTP_PASSWORD") {
        Some(v) => v.clone(),
        None => {
            return Err(DeliveryError::Transport);
        },
    };
    let reply_to = match env.get("JELLY_SUPPORT_EMAIL") {
        Some(v) => v.clone(),
        None => email.from.clone(),
    };
    if parse_mailbox(email.from.as_str()).is_none() {
        return Err(DeliveryError::InvalidAddress);
    }
    if parse_mailbox(reply_to.as_str()).is_none() {
        return Err(DeliveryError::InvalidAddress);
    }
    if parse_mailbox(email.to.as_str()).is_none() {
        return Err(DeliveryError::InvalidAddress);
    }
    let port = match parse_port(port_text.as_str()) {
        Some(p) => p,
        None => {
            return Err(DeliveryError::Transport);
        },
    };
    let use_tls = match env.get("EMAIL_SMTP_NOTLS") {
        Some(v) => {
            !(crate::env::string_eq(v, "1") || crate::env::string_eq(v, "true"))
        },
        None => true,
    };
    Ok(SmtpPlan { host, port, username, password, reply_to, use_tls })
}

} // verus!
