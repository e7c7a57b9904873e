//! The shared template corpus.
//!
//! A `TemplateCorpus` is a handle to a compiled, name-addressable store of
//! templates, kept behind a reader/writer lock so that many renders may run
//! concurrently while corpus (re)compilation takes exclusive access. What a
//! given identifier renders to depends on what was compiled into the corpus,
//! so rendering carries no contract: callers state what holds of every
//! outcome.

use std::sync::{Arc, RwLock};

use vstd::prelude::*;

use crate::context::TemplateContext;

verus! {

/// Why a render was refused. Either failure aborts message construction;
/// no partial message is ever produced from a failed render.
#[derive(Clone, Copy, Debug, PartialEq, Eq, Structural)]
pub enum RenderError {
    /// The corpus holds no template under the requested identifier.
    MissingTemplate,
    /// The template exists but could not be rendered against the context,
    /// or the corpus could not be read.
    RenderFailure,
}

/// A shared handle to a compiled template corpus.
#[verifier::external_body]
pub struct TemplateCorpus {
    inner: Arc<RwLock<tera::Tera>>,
}

impl TemplateCorpus {
    /// An empty corpus. Relies on `tera::Tera::new`, which builds an engine
    /// with no templates.
    #[verifier::external_body]
    pub fn new() -> (r: TemplateCorpus) {
        TemplateCorpus { inner: Arc::new(RwLock::new(tera::Tera::new())) }
    }

    /// Compiles `content` into the corpus under the identifier `name`,
    /// returning whether compilation succeeded. Relies on
    /// `tera::Tera::add_raw_template`.
    #[verifier::external_body]
    pub fn add_raw(&self, name: &str, content: &str) -> (r: bool) {
        match self.inner.write() {
            Ok(mut guard) => guard.add_raw_template(name, content).is_ok(),
            Err(_) => false,
        }
    }

    /// Another handle to the same corpus, for concurrent readers.
    #[verifier::external_body]
    pub fn handle(&self) -> (r: TemplateCorpus) {
        TemplateCorpus { inner: Arc::clone(&self.inner) }
    }
}

/// Renders the template stored under `name` against `ctx`. Relies on
/// `tera::Tera::render`; its error kind `TemplateNotFound` is reported as
/// `MissingTemplate`, every other failure (and a poisoned corpus lock) as
/// `RenderFailure`. The result depends on what the corpus holds, so nothing
/// is assumed of it.
#[verifier::external_body]
pub(crate) fn render_template(corpus: &TemplateCorpus, name: &str, ctx: &TemplateContext) -> (r:
    Result<String, RenderError>) {
    let mut tera_ctx = tera::Context::new();
    let mut i: usize = 0;
    while i < ctx.len() {
        let (k, v) = ctx.pair_at(i);
        tera_ctx.insert(k.clone(), v);
        i += 1;
    }
    let guard = match corpus.inner.read() { Ok(g) => g, Err(_) => return Err(RenderError::RenderFailure) };
    match guard.render(name, &tera_ctx) {
        Ok(s) => Ok(s),
        Err(e) => match e.kind() {
            tera::ErrorKind::TemplateNotFound(_) => Err(RenderError::MissingTemplate),
            _ => Err(RenderError::RenderFailure),
        },
    }
}

} // verus!
