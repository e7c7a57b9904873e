//! The variable context handed to template rendering.
//!
//! A `TemplateContext` is an ordered list of `(name, value)` insertions.
//! When two insertions share a name, the later one shadows the earlier one,
//! matching the overwrite behaviour of the underlying template engine.
//! `build_context` appends the computed variables (`year`, `subject`) and the
//! exposed configuration variables after the caller's own insertions, so a
//! configuration variable shadows a caller variable of the same name.

use vstd::prelude::*;
use vstd::string::{StrSliceExecFns, StringExecFns};

use crate::env::{EnvMap, env_keys_distinct, env_lookup};

verus! {

/// Looks a name up among ordered insertions: the value of the latest
/// insertion with that name, if any.
pub open spec fn ctx_lookup(pairs: Seq<(Seq<char>, Seq<char>)>, key: Seq<char>) -> Option<
    Seq<char>,
>
    decreases pairs.len(),
{
    if pairs.len() == 0 {
        None
    } else if pairs.last().0 == key {
        Some(pairs.last().1)
    } else {
        ctx_lookup(pairs.drop_last(), key)
    }
}

/// The reserved environment-variable prefix: every variable whose name starts
/// with it is exposed to templates.
pub open spec fn reserved_prefix() -> Seq<char> {
    "JELLY_"@
}

/// The context key that carries the current year.
pub open spec fn year_key() -> Seq<char> {
    "year"@
}

/// The context key that carries the message subject.
pub open spec fn subject_key() -> Seq<char> {
    "subject"@
}

/// Whether a variable name starts with the reserved prefix.
pub open spec fn has_reserved_prefix(name: Seq<char>) -> bool {
    name.len() >= reserved_prefix().len() && name.subrange(
        0,
        reserved_prefix().len() as int,
    ) == reserved_prefix()
}

/// The subsequence of environment pairs whose names carry the reserved
/// prefix, in their original order.
pub open spec fn prefixed_pairs(env: Seq<(Seq<char>, Seq<char>)>) -> Seq<(Seq<char>, Seq<char>)>
    decreases env.len(),
{
    if env.len() == 0 {
        Seq::empty()
    } else if has_reserved_prefix(env[0].0) {
        seq![env[0]] + prefixed_pairs(env.skip(1))
    } else {
        prefixed_pairs(env.skip(1))
    }
}

/// The context that rendering sees: the caller's insertions, then the two
/// computed variables, then every exposed configuration variable.
pub open spec fn built_context(
    caller: Seq<(Seq<char>, Seq<char>)>,
    subject: Seq<char>,
    year: Seq<char>,
    env: Seq<(Seq<char>, Seq<char>)>,
) -> Seq<(Seq<char>, Seq<char>)> {
    caller + seq![(year_key(), year), (subject_key(), subject)] + prefixed_pairs(env)
}

/// An ordered mapping from variable name to rendered value, built fresh for
/// each message.
pub struct TemplateContext {
    pairs: Vec<(String, String)>,
}

impl View for TemplateContext {
    type V = Seq<(Seq<char>, Seq<char>)>;

    closed spec fn view(&self) -> Seq<(Seq<char>, Seq<char>)> {
        self.pairs@.map_values(|p: (String, String)| (p.0@, p.1@))
    }
}

impl TemplateContext {
    /// An empty context.
    pub fn new() -> (r: TemplateContext)
        ensures
            r@ =~= Seq::<(Seq<char>, Seq<char>)>::empty(),
    {
        TemplateContext { pairs: Vec::new() }
    }

    /// Records an insertion. A later insertion of the same name shadows this
    /// one.
    pub fn insert(&mut self, key: String, value: String)
        ensures
            final(self)@ =~= old(self)@.push((key@, value@)),
    {
        self.pairs.push((key, value));
    }

    /// The value a template would see for `key`, if any.
    pub fn get(&self, key: &str) -> (r: Option<&String>)
        ensures
            match r {
                Some(v) => ctx_lookup(self@, key@) == Some(v@),
                None => ctx_lookup(self@, key@) is None,
            },
    {
        let mut i: usize = self.pairs.len();
        proof {
            assert(self@.take(self.pairs.len() as int) =~= self@);
        }
        while i > 0
            invariant
                i <= self.pairs.len(),
                ctx_lookup(self@, key@) == ctx_lookup(self@.take(i as int), key@),
            decreases i,
        {
            i -= 1;
            proof {
                assert(self@.take(i as int + 1).last() == self@[i as int]);
                assert(self@.take(i as int + 1).drop_last() =~= self@.take(i as int));
            }
            if crate::env::string_eq(&self.pairs[i].0, key) {
                return Some(&self.pairs[i].1);
            }
        }
        proof {
            assert(self@.take(0).len() == 0);
        }
        None
    }

    /// The number of recorded insertions.
    pub fn len(&self) -> (r: usize)
        ensures
            r == self@.len(),
    {
        self.pairs.len()
    }

    /// The insertion at position `i`, for walking the context in order.
    pub fn pair_at(&self, i: usize) -> (r: (&String, &String))
        requires
            i < self@.len(),
        ensures
            (r.0@, r.1@) == self@[i as int],
    {
        (&self.pairs[i].0, &self.pairs[i].1)
    }
}

/// Whether `name` starts with the reserved prefix.
pub fn starts_with_reserved_prefix(name: &str) -> (r: bool)
    ensures
        r == has_reserved_prefix(name@),
{
    let prefix = "JELLY_";
    proof {
        reveal_strlit("JELLY_");
    }
    let prefix_len = prefix.unicode_len();
    let name_len = name.unicode_len();
    if name_len < prefix_len {
        return false;
    }
    let mut i: usize = 0;
    while i < prefix_len
        invariant
            i <= prefix_len,
            prefix_len == reserved_prefix().len(),
            prefix@ == reserved_prefix(),
            name@.len() >= prefix_len,
            forall|j: int| 0 <= j < i ==> name@[j] == reserved_prefix()[j],
        decreases prefix_len - i,
    {
        if name.get_char(i) != prefix.get_char(i) {
            proof {
                assert(name@.subrange(0, reserved_prefix().len() as int)[i as int] != reserved_prefix()[i as int]);
            }
            return false;
        }
        i += 1;
    }
    proof {
        assert(name@.subrange(0, reserved_prefix().len() as int) =~= reserved_prefix());
    }
    true
}

/// Builds the final rendering context: the caller's insertions stand first,
/// then `year` and `subject`, then every configuration variable whose name
/// carries the reserved prefix, in snapshot order. Later insertions shadow
/// earlier ones, so configuration variables win name collisions.
pub fn build_context(subject: &str, caller: TemplateContext, env: &EnvMap, year: &str) -> (r:
    TemplateContext)
    ensures
        r@ =~= built_context(caller@, subject@, year@, env@),
{
    let ghost caller_view = caller@;
    let mut ctx = caller;
    ctx.insert(String::from_str("year"), year.to_owned());
    ctx.insert(String::from_str("subject"), subject.to_owned());
    proof {
        reveal_strlit("year");
        reveal_strlit("subject");
        assert(ctx@ =~= caller_view + seq![(year_key(), year@), (subject_key(), subject@)]);
    }
    let ghost mid = ctx@;
    let n = env.len();
    let mut i: usize = 0;
    while i < n
        invariant
            i <= n,
            n == env@.len(),
            ctx@ =~= mid + prefixed_pairs(env@.take(i as int)),
        decreases n - i,
    {
        let (k, v) = env.pair_at(i);
        if starts_with_reserved_prefix(k.as_str()) {
            let key = k.clone();
            let value = v.clone();
            ctx.insert(key, value);
        }
        proof {
            lemma_prefixed_pairs_take_step(env@, i as int);
        }
        i += 1;
    }
    proof {
        assert(env@.take(n as int) =~= env@);
    }
    ctx
}

/// A name found by `env_lookup` names some pair.
proof fn lemma_env_lookup_found(pairs: Seq<(Seq<char>, Seq<char>)>, k: Seq<char>)
    requires
        env_lookup(pairs, k) is Some,
    ensures
        exists|i: int| 0 <= i < pairs.len() && #[trigger] pairs[i].0 == k,
    decreases pairs.len(),
{
    if pairs[0].0 != k {
        lemma_env_lookup_found(pairs.skip(1), k);
        let i = choose|i: int| 0 <= i < pairs.skip(1).len() && #[trigger] pairs.skip(1)[i].0 == k;
        assert(pairs[i + 1].0 == k);
    }
}

/// A name no pair carries is not found by `env_lookup`.
proof fn lemma_env_lookup_absent(pairs: Seq<(Seq<char>, Seq<char>)>, k: Seq<char>)
    requires
        forall|i: int| 0 <= i < pairs.len() ==> #[trigger] pairs[i].0 != k,
    ensures
        env_lookup(pairs, k) is None,
    decreases pairs.len(),
{
    if pairs.len() > 0 {
        assert forall|i: int| 0 <= i < pairs.skip(1).len() implies #[trigger] pairs.skip(1)[i].0
            != k by {
            assert(pairs.skip(1)[i] == pairs[i + 1]);
        }
        lemma_env_lookup_absent(pairs.skip(1), k);
    }
}

/// A name no insertion carries is not found by `ctx_lookup`.
proof fn lemma_ctx_lookup_absent(pairs: Seq<(Seq<char>, Seq<char>)>, k: Seq<char>)
    requires
        forall|i: int| 0 <= i < pairs.len() ==> #[trigger] pairs[i].0 != k,
    ensures
        ctx_lookup(pairs, k) is None,
    decreases pairs.len(),
{
    if pairs.len() > 0 {
        assert(pairs.last() == pairs[pairs.len() - 1]);
        assert forall|i: int| 0 <= i < pairs.drop_last().len() implies #[trigger] pairs.drop_last(
        )[i].0 != k by {
            assert(pairs.drop_last()[i] == pairs[i]);
        }
        lemma_ctx_lookup_absent(pairs.drop_last(), k);
    }
}

/// Looking a name up among concatenated insertions: the later block wins.
proof fn lemma_ctx_lookup_add(
    a: Seq<(Seq<char>, Seq<char>)>,
    b: Seq<(Seq<char>, Seq<char>)>,
    k: Seq<char>,
)
    ensures
        ctx_lookup(a + b, k) == if ctx_lookup(b, k) is Some {
            ctx_lookup(b, k)
        } else {
            ctx_lookup(a, k)
        },
    decreases b.len(),
{
    if b.len() == 0 {
        assert(a + b =~= a);
    } else {
        assert((a + b).last() == b.last());
        assert((a + b).drop_last() =~= a + b.drop_last());
        lemma_ctx_lookup_add(a, b.drop_last(), k);
    }
}

/// What the exposed pairs yield for a name: for a name carrying the reserved
/// prefix, exactly what the snapshot holds; for any other name, nothing.
proof fn lemma_prefixed_lookup(env: Seq<(Seq<char>, Seq<char>)>, k: Seq<char>)
    requires
        env_keys_distinct(env),
    ensures
        ctx_lookup(prefixed_pairs(env), k) == if has_reserved_prefix(k) {
            env_lookup(env, k)
        } else {
            None
        },
    decreases env.len(),
{
    if env.len() == 0 {
        assert(prefixed_pairs(env).len() == 0);
    } else {
        let head = env[0];
        let rest = env.skip(1);
        assert forall|i: int, j: int| 0 <= i < j < rest.len() implies rest[i].0 != rest[j].0 by {
            assert(rest[i] == env[i + 1]);
            assert(rest[j] == env[j + 1]);
        }
        lemma_prefixed_lookup(rest, k);
        let head_part: Seq<(Seq<char>, Seq<char>)> = if has_reserved_prefix(head.0) {
            seq![head]
        } else {
            Seq::empty()
        };
        assert(prefixed_pairs(env) == head_part + prefixed_pairs(rest));
        lemma_ctx_lookup_add(head_part, prefixed_pairs(rest), k);
        if head.0 == k {
            assert forall|i: int| 0 <= i < rest.len() implies #[trigger] rest[i].0 != k by {
                assert(rest[i] == env[i + 1]);
            }
            lemma_env_lookup_absent(rest, k);
            if has_reserved_prefix(k) {
                assert(ctx_lookup(head_part, k) == Some(head.1));
            } else {
                assert(head_part.len() == 0);
                assert(ctx_lookup(head_part, k) is None);
            }
        } else {
            if ctx_lookup(prefixed_pairs(rest), k) is None {
                if has_reserved_prefix(head.0) {
                    assert(head_part.last() == head);
                    assert(head_part.drop_last() =~= Seq::<(Seq<char>, Seq<char>)>::empty());
                    assert(ctx_lookup(head_part.drop_last(), k) is None);
                    assert(ctx_lookup(head_part, k) is None);
                } else {
                    assert(ctx_lookup(head_part, k) is None);
                }
            }
        }
    }
}

/// Every configuration variable whose name carries the reserved prefix is
/// available to the template under its own name, with the snapshot's value,
/// whatever the caller inserted; and a name the snapshot does not hold is
/// unavailable unless the caller or the computed variables supply it. So
/// removing a variable from the snapshot makes it unavailable to the next
/// render.
pub proof fn lemma_env_exposure(
    caller: Seq<(Seq<char>, Seq<char>)>,
    subject: Seq<char>,
    year: Seq<char>,
    env: Seq<(Seq<char>, Seq<char>)>,
    k: Seq<char>,
)
    requires
        env_keys_distinct(env),
    ensures
        has_reserved_prefix(k) && env_lookup(env, k) is Some ==> ctx_lookup(
            built_context(caller, subject, year, env),
            k,
        ) == env_lookup(env, k),
        env_lookup(env, k) is None && ctx_lookup(caller, k) is None && k != year_key() && k
            != subject_key() ==> ctx_lookup(built_context(caller, subject, year, env), k) is None,
{
    let mid = seq![(year_key(), year), (subject_key(), subject)];
    let built = built_context(caller, subject, year, env);
    assert(built =~= (caller + mid) + prefixed_pairs(env));
    lemma_prefixed_lookup(env, k);
    lemma_ctx_lookup_add(caller + mid, prefixed_pairs(env), k);
    lemma_ctx_lookup_add(caller, mid, k);
    if k != year_key() && k != subject_key() {
        assert(mid.last() == (subject_key(), subject));
        assert(mid.drop_last() =~= seq![(year_key(), year)]);
        assert(mid.drop_last().last() == (year_key(), year));
        assert(mid.drop_last().drop_last() =~= Seq::<(Seq<char>, Seq<char>)>::empty());
        assert(ctx_lookup(mid.drop_last().drop_last(), k) is None);
        assert(ctx_lookup(mid.drop_last(), k) is None);
        assert(ctx_lookup(mid, k) is None);
    }
}

/// One step of walking the snapshot: extending the walked prefix by one pair
/// extends the exposed pairs by that pair exactly when it carries the
/// reserved prefix.
proof fn lemma_prefixed_pairs_take_step(env: Seq<(Seq<char>, Seq<char>)>, i: int)
    requires
        0 <= i < env.len(),
    ensures
        prefixed_pairs(env.take(i + 1)) == if has_reserved_prefix(env[i].0) {
            prefixed_pairs(env.take(i)).push(env[i])
        } else {
            prefixed_pairs(env.take(i))
        },
    decreases i,
{
    let a = env.take(i + 1);
    let b = env.take(i);
    assert(a[0] == env[0]);
    if i == 0 {
        assert(a.skip(1) =~= Seq::<(Seq<char>, Seq<char>)>::empty());
        assert(b.len() == 0);
        assert(prefixed_pairs(a.skip(1)) =~= Seq::<(Seq<char>, Seq<char>)>::empty());
        assert(prefixed_pairs(b) =~= Seq::<(Seq<char>, Seq<char>)>::empty());
        if has_reserved_prefix(env[0].0) {
            assert(prefixed_pairs(a) == seq![a[0]] + prefixed_pairs(a.skip(1)));
            assert(seq![env[0]] + prefixed_pairs(a.skip(1)) =~= prefixed_pairs(b).push(env[0]));
        } else {
            assert(prefixed_pairs(a) == prefixed_pairs(a.skip(1)));
        }
    } else {
        assert(b[0] == env[0]);
        assert(a.skip(1) =~= env.skip(1).take(i));
        assert(b.skip(1) =~= env.skip(1).take(i - 1));
        assert(env.skip(1)[i - 1] == env[i]);
        lemma_prefixed_pairs_take_step(env.skip(1), i - 1);
        if has_reserved_prefix(env[0].0) {
            assert(prefixed_pairs(a) == seq![env[0]] + prefixed_pairs(env.skip(1).take(i)));
            assert(prefixed_pairs(b) == seq![env[0]] + prefixed_pairs(env.skip(1).take(i - 1)));
            if has_reserved_prefix(env[i].0) {
                assert(seq![env[0]] + prefixed_pairs(env.skip(1).take(i - 1)).push(env[i])
                    =~= (seq![env[0]] + prefixed_pairs(env.skip(1).take(i - 1))).push(env[i]));
            }
        } else {
            assert(prefixed_pairs(a) == prefixed_pairs(env.skip(1).take(i)));
            assert(prefixed_pairs(b) == prefixed_pairs(env.skip(1).take(i - 1)));
        }
    }
}

} // verus!
