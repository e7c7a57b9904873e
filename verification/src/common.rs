//! The backend-agnostic message value and its construction.
//!
//! An `Email` is built once — recipients joined, sender resolved from the
//! configuration snapshot, both bodies rendered — and is immutable from then
//! on; whichever delivery backend is active borrows it read-only for the
//! duration of a send.

use chrono::Datelike;

use vstd::prelude::*;
use vstd::string::{StrSliceExecFns, StringExecFns};

use crate::context::{TemplateContext, build_context};
use crate::corpus::{RenderError, TemplateCorpus, render_template};
use crate::env::{ConfigurationError, EnvMap, env_lookup};

verus! {

/// The required variable naming the sender address.
pub open spec fn sender_var() -> Seq<char> {
    "EMAIL_DEFAULT_FROM"@
}

/// Why message construction was refused; no partial message is ever produced.
#[derive(Clone, Copy, Debug, PartialEq, Eq, Structural)]
pub enum ConstructionError {
    /// The configuration snapshot does not name a sender address.
    MissingSender,
    /// One of the two bodies could not be rendered.
    Render(RenderError),
}

/// Why a delivery attempt failed. The library makes a single attempt per
/// call; retry and backoff belong to the caller.
#[derive(Clone, Copy, Debug, PartialEq, Eq, Structural)]
pub enum DeliveryError {
    /// The message could not be handed to the provider or relay at all.
    Transport,
    /// The provider answered with the given non-success status code.
    Rejected(i32),
    /// An address of the message could not be parsed.
    InvalidAddress,
}

/// Startup-time configuration validation. Each backend declares its own
/// required-variable list and checks the snapshot against it before any
/// message is constructed; a failed check is a fatal startup error, never a
/// per-send one.
pub trait Configurable {
    /// Checks that every required variable is present and non-empty,
    /// reporting all the missing ones together.
    fn check_conf(env: &EnvMap) -> Result<(), ConfigurationError>;
}

/// The comma-join of an ordered sequence of recipients.
pub open spec fn join_comma(parts: Seq<Seq<char>>) -> Seq<char>
    decreases parts.len(),
{
    if parts.len() == 0 {
        Seq::empty()
    } else if parts.len() == 1 {
        parts[0]
    } else {
        join_comma(parts.drop_last()) + seq![','] + parts.last()
    }
}

/// Joins recipients with `,`, preserving their order.
pub fn join_with_comma(parts: &Vec<String>) -> (r: String)
    ensures
        r@ == join_comma(parts.deep_view()),
{
    let ghost dv = parts.deep_view();
    let mut acc = String::new();
    let mut i: usize = 0;
    proof {
        assert(dv.take(0).len() == 0);
    }
    while i < parts.len()
        invariant
            i <= parts.len(),
            dv == parts.deep_view(),
            dv.len() == parts@.len(),
            forall|j: int| 0 <= j < dv.len() ==> dv[j] == #[trigger] parts@[j]@,
            acc@ == join_comma(dv.take(i as int)),
        decreases parts.len() - i,
    {
        proof {
            assert(dv.take(i as int + 1).drop_last() =~= dv.take(i as int));
            assert(dv.take(i as int + 1).last() == dv[i as int]);
            reveal_strlit(",");
            assert(","@ =~= seq![',']);
        }
        if i > 0 {
            acc.append(",");
        } else {
            proof {
                assert(acc@ + dv[0] =~= dv[0]);
            }
        }
        acc.append(parts[i].as_str());
        i += 1;
    }
    proof {
        assert(dv.take(parts@.len() as int) =~= dv);
    }
    acc
}

/// A join of two or more parts contains a comma, and a join of one
/// non-empty part is that part; either way the join is non-empty.
proof fn lemma_join_comma_nonempty(parts: Seq<Seq<char>>)
    requires
        parts.len() >= 2 || (parts.len() == 1 && parts[0].len() > 0),
    ensures
        join_comma(parts).len() > 0,
{
    if parts.len() >= 2 {
        assert(join_comma(parts) == join_comma(parts.drop_last()) + seq![','] + parts.last());
    }
}

/// The rendered, backend-agnostic message: who it is from, who it goes to,
/// its subject, and its plaintext and HTML bodies. Immutable once built.
#[derive(Debug, Default)]
pub struct Email {
    /// Who's sending this.
    pub from: String,
    /// Who to send to. Comma-delimited.
    pub to: String,
    /// What the message is about.
    pub subject: String,
    /// What to send (plaintext).
    pub body: String,
    /// What to send (HTML).
    pub bodyhtml: String,
}

impl Email {
    /// The construction invariant: the recipient list and the subject are
    /// non-empty.
    pub open spec fn wf(&self) -> bool {
        self.to@.len() > 0 && self.subject@.len() > 0
    }

    /// Constructs a new `Email`.
    ///
    /// Joins the recipients with `,`, resolves the sender from the required
    /// configuration variable, builds the rendering context (caller
    /// variables, then `year` and `subject`, then the exposed configuration
    /// variables), and renders `<template_name>.html` and
    /// `<template_name>.txt` against it. A missing sender or a failed render
    /// refuses construction; no partial message is returned.
    pub fn new(
        template_name: &str,
        to: &Vec<String>,
        subject: &str,
        context: TemplateContext,
        templates: &TemplateCorpus,
        env: &EnvMap,
    ) -> (r: Result<Email, ConstructionError>)
        requires
            to@.len() > 0,
            to@.len() == 1 ==> to@[0]@.len() > 0,
            subject@.len() > 0,
        ensures
            match r {
                Ok(email) => {
                    &&& env_lookup(env@, sender_var()) == Some(email.from@)
                    &&& email.to@ == join_comma(to.deep_view())
                    &&& email.subject@ == subject@
                    &&& email.wf()
                },
                Err(ConstructionError::MissingSender) => env_lookup(env@, sender_var()) is None,
                Err(ConstructionError::Render(_)) => env_lookup(env@, sender_var()) is Some,
            },
    {
        let from = match env.get("EMAIL_DEFAULT_FROM") {
            Some(v) => v.clone(),
            None => {
                return Err(ConstructionError::MissingSender);
            },
        };
        let year = current_utc_year();
        let ctx = build_context(subject, context, env, year.as_str());
        let mut html_name = template_name.to_owned();
        html_name.append(".html");
        let bodyhtml = match render_template(templates, html_name.as_str(), &ctx) {
            Ok(s) => s,
            Err(e) => {
                return Err(ConstructionError::Render(e));
            },
        };
        let mut text_name = template_name.to_owned();
        text_name.append(".txt");
        let body = match render_template(templates, text_name.as_str(), &ctx) {
            Ok(s) => s,
            Err(e) => {
                return Err(ConstructionError::Render(e));
            },
        };
        let to_joined = join_with_comma(to);
        proof {
            if to@.len() == 1 {
                assert(to.deep_view()[0] == to@[0]@);
            }
            lemma_join_comma_nonempty(to.deep_view());
        }
        Ok(
            Email {
                from,
                to: to_joined,
                subject: subject.to_owned(),
                body,
                bodyhtml,
            },
        )
    }
}

/// Reads an HTTP-API provider's answer: any status in the success range
/// means the message was accepted; anything else is a rejection carrying
/// that status. A failed send is never reported as success.
pub fn interpret_provider_status(status: i32) -> (r: Result<(), DeliveryError>)
    ensures
        r == if 200 <= status < 300 {
            Result::<(), DeliveryError>::Ok(())
        } else {
            Result::<(), DeliveryError>::Err(DeliveryError::Rejected(status))
        },
{
    if 200 <= status && status < 300 {
        Ok(())
    } else {
        Err(DeliveryError::Rejected(status))
    }
}

/// The parts of a parsed address specification: the address itself and the
/// optional display name standing before it.
pub struct MailboxParts {
    /// The address proper.
    pub address: String,
    /// The display name, where the specification carries one.
    pub display_name: Option<String>,
}

/// What the address parser yields on a given input: the address and the
/// optional display name, or nothing where the input is not a valid address
/// specification. The result depends on the characters alone.
pub uninterp spec fn mailbox_parts(s: Seq<char>) -> Option<(Seq<char>, Option<Seq<char>>)>;

/// Relies on lettre's `Mailbox::from_str`, the address-specification parser
/// (display name and address, as in `Jane Doe <jane@example.com>`), for
/// telling valid address specifications from invalid ones and for splitting
/// them.
#[verifier::external_body]
pub(crate) fn parse_mailbox(s: &str) -> (r: Option<MailboxParts>)
    ensures
        match r {
            Some(p) => mailbox_parts(s@) == Some((p.address@, p.display_name.deep_view())),
            None => mailbox_parts(s@) is None,
        },
{
    match <lettre::message::Mailbox as std::str::FromStr>::from_str(s) {
        Ok(mb) => Some(
            MailboxParts { address: mb.email.to_string(), display_name: mb.name },
        ),
        Err(_) => None,
    }
}

/// The current UTC year, as decimal text, for the `year` template variable.
/// Relies on chrono's `Utc::now` and `Datelike::year`; the value depends on
/// the clock, so nothing is assumed of it.
#[verifier::external_body]
fn current_utc_year() -> (r: String) {
    chrono::Utc::now().year().to_string()
}

/// Whether the snapshot binds `name` to a non-empty value.
pub fn env_exists_and_not_empty(env: &EnvMap, name: &str) -> (r: bool)
    ensures
        r == match env_lookup(env@, name@) {
            Some(v) => v.len() > 0,
            None => false,
        },
{
    match env.get(name) {
        Some(v) => v.as_str().unicode_len() > 0,
        None => false,
    }
}

/// Checks the snapshot against a required-variable list, collecting the name
/// of every variable that is missing or empty; the check passes exactly when
/// nothing is collected.
pub fn check_required_vars(env: &EnvMap, required: &Vec<&str>) -> (r: Result<
    (),
    ConfigurationError,
>)
    ensures
        match r {
            Ok(()) => forall|i: int|
                0 <= i < required@.len() ==> var_set_and_not_empty(env@, #[trigger] required@[i]@),
            Err(e) => {
                &&& e.missing.deep_view() == missing_vars(env@, required.deep_view())
                &&& missing_vars(env@, required.deep_view()).len() > 0
            },
        },
{
    let mut missing: Vec<String> = Vec::new();
    let mut i: usize = 0;
    proof {
        assert(required.deep_view().take(0).len() == 0);
        assert(missing.deep_view() =~= missing_vars(env@, required.deep_view().take(0)));
    }
    while i < required.len()
        invariant
            i <= required@.len(),
            required@.len() == required.deep_view().len(),
            forall|j: int|
                0 <= j < required@.len() ==> required.deep_view()[j] == #[trigger] required@[j]@,
            missing.deep_view() == missing_vars(env@, required.deep_view().take(i as int)),
            (missing@.len() == 0) == (forall|j: int|
                0 <= j < i ==> var_set_and_not_empty(env@, #[trigger] required@[j]@)),
        decreases required@.len() - i,
    {
        proof {
            lemma_missing_vars_take_step(env@, required.deep_view(), i as int);
        }
        if !env_exists_and_not_empty(env, required[i]) {
            missing.push(required[i].to_owned());
            proof {
                assert(missing.deep_view() =~= missing_vars(
                    env@,
                    required.deep_view().take(i as int + 1),
                ));
            }
        }
        i += 1;
    }
    proof {
        assert(required.deep_view().take(required@.len() as int) =~= required.deep_view());
    }
    if missing.len() == 0 {
        Ok(())
    } else {
        Err(ConfigurationError { missing })
    }
}

/// Whether the snapshot binds `name` to a non-empty value.
pub open spec fn var_set_and_not_empty(
    env: Seq<(Seq<char>, Seq<char>)>,
    name: Seq<char>,
) -> bool {
    match env_lookup(env, name) {
        Some(v) => v.len() > 0,
        None => false,
    }
}

/// The required names that the snapshot leaves unset or empty, in their
/// declared order.
pub open spec fn missing_vars(
    env: Seq<(Seq<char>, Seq<char>)>,
    required: Seq<Seq<char>>,
) -> Seq<Seq<char>>
    decreases required.len(),
{
    if required.len() == 0 {
        Seq::empty()
    } else if var_set_and_not_empty(env, required[0]) {
        missing_vars(env, required.skip(1))
    } else {
        seq![required[0]] + missing_vars(env, required.skip(1))
    }
}

/// One step of walking the required-variable list.
proof fn lemma_missing_vars_take_step(
    env: Seq<(Seq<char>, Seq<char>)>,
    required: Seq<Seq<char>>,
    i: int,
)
    requires
        0 <= i < required.len(),
    ensures
        missing_vars(env, required.take(i + 1)) == if var_set_and_not_empty(env, required[i]) {
            missing_vars(env, required.take(i))
        } else {
            missing_vars(env, required.take(i)).push(required[i])
        },
    decreases i,
{
    let a = required.take(i + 1);
    let b = required.take(i);
    assert(a[0] == required[0]);
    if i == 0 {
        assert(a.skip(1) =~= Seq::<Seq<char>>::empty());
        assert(b.len() == 0);
        assert(missing_vars(env, a.skip(1)) =~= Seq::<Seq<char>>::empty());
        assert(missing_vars(env, b) =~= Seq::<Seq<char>>::empty());
        if var_set_and_not_empty(env, required[0]) {
            assert(missing_vars(env, a) == missing_vars(env, a.skip(1)));
        } else {
            assert(missing_vars(env, a) == seq![a[0]] + missing_vars(env, a.skip(1)));
            assert(seq![required[0]] + missing_vars(env, a.skip(1)) =~= missing_vars(
                env,
                b,
            ).push(required[0]));
        }
    } else {
        assert(b[0] == required[0]);
        assert(a.skip(1) =~= required.skip(1).take(i));
        assert(b.skip(1) =~= required.skip(1).take(i - 1));
        assert(required.skip(1)[i - 1] == required[i]);
        lemma_missing_vars_take_step(env, required.skip(1), i - 1);
        if var_set_and_not_empty(env, required[0]) {
            assert(missing_vars(env, a) == missing_vars(env, required.skip(1).take(i)));
            assert(missing_vars(env, b) == missing_vars(env, required.skip(1).take(i - 1)));
        } else {
            assert(missing_vars(env, a) == seq![required[0]] + missing_vars(
                env,
                required.skip(1).take(i),
            ));
            assert(missing_vars(env, b) == seq![required[0]] + missing_vars(
                env,
                required.skip(1).take(i - 1),
            ));
            if !var_set_and_not_empty(env, required[i]) {
                assert(seq![required[0]] + missing_vars(env, required.skip(1).take(i - 1)).push(
                    required[i],
                ) =~= (seq![required[0]] + missing_vars(env, required.skip(1).take(i - 1))).push(
                    required[i],
                ));
            }
        }
    }
}

} // verus!
