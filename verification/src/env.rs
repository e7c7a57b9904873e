//! A snapshot of environment-style configuration.
//!
//! The library never reads the live process environment itself. Callers hand
//! it an `EnvMap`: an injected snapshot of the variables the deployment
//! exposes. This keeps every decision that depends on configuration a pure
//! function of the snapshot, and lets tests substitute a fixed set of
//! variables without mutating real process state.

use vstd::prelude::*;

verus! {

/// Looks a key up in a sequence of `(key, value)` pairs, returning the value
/// of the first pair whose key matches.
pub open spec fn env_lookup(pairs: Seq<(Seq<char>, Seq<char>)>, key: Seq<char>) -> Option<
    Seq<char>,
>
    decreases pairs.len(),
{
    if pairs.len() == 0 {
        None
    } else if pairs[0].0 == key {
        Some(pairs[0].1)
    } else {
        env_lookup(pairs.skip(1), key)
    }
}

/// The keys of an environment snapshot are pairwise distinct, as the keys of
/// a real process environment are.
pub open spec fn env_keys_distinct(pairs: Seq<(Seq<char>, Seq<char>)>) -> bool {
    forall|i: int, j: int|
        0 <= i < j < pairs.len() ==> pairs[i].0 != pairs[j].0
}

/// A fatal startup error: the names of every required configuration
/// variable that the snapshot leaves unset or empty, in the order the active
/// backend declares them.
#[derive(Debug)]
pub struct ConfigurationError {
    /// The required variables that are missing or empty.
    pub missing: Vec<String>,
}

/// An immutable snapshot of configuration variables, keyed by name.
pub struct EnvMap {
    pairs: Vec<(String, String)>,
}

impl View for EnvMap {
    type V = Seq<(Seq<char>, Seq<char>)>;

    closed spec fn view(&self) -> Seq<(Seq<char>, Seq<char>)> {
        self.pairs@.map_values(|p: (String, String)| (p.0@, p.1@))
    }
}

impl EnvMap {
    /// Every snapshot built through `new` and `set` has pairwise distinct keys.
    pub open spec fn wf(&self) -> bool {
        env_keys_distinct(self@)
    }

    /// An empty snapshot.
    pub fn new() -> (r: EnvMap)
        ensures
            r@ =~= Seq::<(Seq<char>, Seq<char>)>::empty(),
            r.wf(),
    {
        EnvMap { pairs: Vec::new() }
    }

    /// Binds `key` to `value`. A later `set` of the same key replaces the
    /// earlier value in place.
    pub fn set(&mut self, key: String, value: String)
        requires
            old(self).wf(),
        ensures
            final(self).wf(),
            env_lookup(final(self)@, key@) == Some(value@),
            forall|k: Seq<char>|
                k != key@ ==> env_lookup(final(self)@, k) == env_lookup(old(self)@, k),
    {
        let mut i: usize = 0;
        while i < self.pairs.len()
            invariant
                i <= self.pairs.len(),
                self == old(self),
                env_keys_distinct(old(self)@),
                forall|j: int| 0 <= j < i ==> self@[j].0 != key@,
            decreases self.pairs.len() - i,
        {
            if string_eq(&self.pairs[i].0, key.as_str()) {
                let old_key = self.pairs[i].0.clone();
                self.pairs.set(i, (old_key, value));
                proof {
                    assert(self@ =~= old(self)@.update(i as int, (key@, value@)));
                    lemma_lookup_update(old(self)@, i as int, key@, value@);
                }
                return ;
            }
            i += 1;
        }
        self.pairs.push((key, value));
        proof {
            assert(self@ =~= old(self)@.push((key@, value@)));
            lemma_lookup_push(old(self)@, key@, value@);
        }
    }

    /// Returns the value bound to `key`, if any.
    pub fn get(&self, key: &str) -> (r: Option<&String>)
        ensures
            match r {
                Some(v) => env_lookup(self@, key@) == Some(v@),
                None => env_lookup(self@, key@) is None,
            },
    {
        let mut i: usize = 0;
        proof {
            assert(self@.skip(0) =~= self@);
        }
        while i < self.pairs.len()
            invariant
                i <= self.pairs.len(),
                forall|j: int| 0 <= j < i ==> self@[j].0 != key@,
                env_lookup(self@, key@) == env_lookup(self@.skip(i as int), key@),
            decreases self@.len() - i,
        {
            proof {
                assert(self@.skip(i as int)[0] == self@[i as int]);
                assert(self@.skip(i as int).skip(1) =~= self@.skip(i as int + 1));
            }
            if string_eq(&self.pairs[i].0, key) {
                return Some(&self.pairs[i].1);
            }
            i += 1;
        }
        proof {
            assert(self@.skip(i as int).len() == 0);
        }
        None
    }

    /// The variable at position `i`, for walking the snapshot in order.
    pub fn pair_at(&self, i: usize) -> (r: (&String, &String))
        requires
            i < self@.len(),
        ensures
            (r.0@, r.1@) == self@[i as int],
    {
        (&self.pairs[i].0, &self.pairs[i].1)
    }

    /// The number of variables in the snapshot.
    pub fn len(&self) -> (r: usize)
        ensures
            r == self@.len(),
    {
        self.pairs.len()
    }
}

/// Compares a `String` and a `&str` for character-for-character equality.
pub fn string_eq(a: &String, b: &str) -> (r: bool)
    ensures
        r == (a@ == b@),
{
    let owned = b.to_owned();
    *a == owned
}

proof fn lemma_lookup_update(
    pairs: Seq<(Seq<char>, Seq<char>)>,
    i: int,
    key: Seq<char>,
    value: Seq<char>,
)
    requires
        0 <= i < pairs.len(),
        pairs[i].0 == key,
        forall|j: int| 0 <= j < i ==> pairs[j].0 != key,
        env_keys_distinct(pairs),
    ensures
        env_keys_distinct(pairs.update(i, (key, value))),
        env_lookup(pairs.update(i, (key, value)), key) == Some(value),
        forall|k: Seq<char>|
            k != key ==> env_lookup(pairs.update(i, (key, value)), k) == env_lookup(pairs, k),
    decreases pairs.len(),
{
    let updated = pairs.update(i, (key, value));
    assert forall|k: Seq<char>| #![auto] true implies (k == key ==> env_lookup(updated, k)
        == Some(value)) && (k != key ==> env_lookup(updated, k) == env_lookup(pairs, k)) by {
        lemma_lookup_update_rec(pairs, i, key, value, k);
    }
}

proof fn lemma_lookup_update_rec(
    pairs: Seq<(Seq<char>, Seq<char>)>,
    i: int,
    key: Seq<char>,
    value: Seq<char>,
    k: Seq<char>,
)
    requires
        0 <= i < pairs.len(),
        pairs[i].0 == key,
        forall|j: int| 0 <= j < i ==> pairs[j].0 != key,
    ensures
        k == key ==> env_lookup(pairs.update(i, (key, value)), k) == Some(value),
        k != key ==> env_lookup(pairs.update(i, (key, value)), k) == env_lookup(pairs, k),
    decreases pairs.len(),
{
    let updated = pairs.update(i, (key, value));
    if i == 0 {
        if k != key {
            assert(updated.skip(1) =~= pairs.skip(1));
        }
    } else {
        assert(updated.skip(1) =~= pairs.skip(1).update(i - 1, (key, value)));
        lemma_lookup_update_rec(pairs.skip(1), i - 1, key, value, k);
    }
}

proof fn lemma_lookup_push(pairs: Seq<(Seq<char>, Seq<char>)>, key: Seq<char>, value: Seq<char>)
    requires
        forall|j: int| 0 <= j < pairs.len() ==> pairs[j].0 != key,
    ensures
        env_lookup(pairs.push((key, value)), key) == Some(value),
        forall|k: Seq<char>|
            k != key ==> env_lookup(pairs.push((key, value)), k) == env_lookup(pairs, k),
    decreases pairs.len(),
{
    let pushed = pairs.push((key, value));
    if pairs.len() == 0 {
        assert(pushed[0] == (key, value));
        assert forall|k: Seq<char>| k != key implies env_lookup(pushed, k) == env_lookup(
            pairs,
            k,
        ) by {
            assert(pushed.skip(1).len() == 0);
            assert(env_lookup(pushed.skip(1), k) is None);
        }
        assert(env_lookup(pushed, key) == Some(value));
    } else {
        assert(pushed.skip(1) =~= pairs.skip(1).push((key, value)));
        lemma_lookup_push(pairs.skip(1), key, value);
        assert(pushed[0] == pairs[0]);
        assert forall|k: Seq<char>| k != key implies env_lookup(pushed, k) == env_lookup(
            pairs,
            k,
        ) by {
            if pairs[0].0 != k {
                assert(env_lookup(pushed, k) == env_lookup(pushed.skip(1), k));
                assert(env_lookup(pairs, k) == env_lookup(pairs.skip(1), k));
            }
        }
    }
}

} // verus!
