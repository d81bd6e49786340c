//! Association tables: vectors of key/value pairs with distinct `u128` keys,
//! kept in insertion order.  Token-indexed maps (prices, token metadata,
//! buffers) and position-indexed maps (order and pool tables) are all held
//! this way, so that iteration order — and hence every compiled artifact —
//! is fully deterministic.

use vstd::prelude::*;

verus! {

/// All keys in the sequence of entries are pairwise distinct.
pub open spec fn distinct_keys<V>(s: Seq<(u128, V)>) -> bool {
    forall|i: int, j: int| 0 <= i < j < s.len() ==> s[i].0 != s[j].0
}

/// The value of the first entry carrying the given key, if any.
pub open spec fn lookup<V>(s: Seq<(u128, V)>, key: u128) -> Option<V>
    decreases s.len(),
{
    if s.len() == 0 {
        None
    } else if s[0].0 == key {
        Some(s[0].1)
    } else {
        lookup(s.drop_first(), key)
    }
}

/// A found value sits at some entry of the sequence.
pub proof fn lemma_lookup_entry<V>(s: Seq<(u128, V)>, key: u128)
    requires
        lookup(s, key) is Some,
    ensures
        exists|i: int|
            0 <= i < s.len() && s[i] == (key, lookup(s, key)->Some_0),
    decreases s.len(),
{
    if s.len() > 0 {
        if s[0].0 == key {
            assert(s[0] == (key, lookup(s, key)->Some_0));
        } else {
            lemma_lookup_entry(s.drop_first(), key);
            let i = choose|i: int|
                0 <= i < s.drop_first().len() && s.drop_first()[i] == (
                    key,
                    lookup(s.drop_first(), key)->Some_0,
                );
            assert(s[i + 1] == (key, lookup(s, key)->Some_0));
        }
    }
}

/// Looking a key up past a prefix that does not carry it finds the same
/// entry as looking it up in the whole sequence.
proof fn lemma_lookup_skip<V>(s: Seq<(u128, V)>, key: u128, i: int)
    requires
        0 <= i < s.len(),
        s[i].0 != key,
        lookup(s.skip(i), key) == lookup(s, key),
    ensures
        lookup(s.skip(i + 1), key) == lookup(s, key),
{
    assert(s.skip(i).len() > 0);
    assert(s.skip(i)[0] == s[i]);
    assert(s.skip(i).drop_first() =~= s.skip(i + 1));
}

/// Membership in a sequence after a push: the pushed element, or a prior
/// member.
pub proof fn lemma_push_contains<A>(s: Seq<A>, x: A, y: A)
    ensures
        s.push(x).contains(y) <==> s.contains(y) || y == x,
{
    if s.push(x).contains(y) {
        let k = choose|k: int| 0 <= k < s.push(x).len() && s.push(x)[k] == y;
        if k < s.len() {
            assert(s[k] == y);
        }
    }
    if s.contains(y) {
        let k = choose|k: int| 0 <= k < s.len() && s[k] == y;
        assert(s.push(x)[k] == y);
    }
    assert(s.push(x)[s.len() as int] == x);
}

/// Linear search for a key among the entries.
pub fn table_get<V>(entries: &Vec<(u128, V)>, key: u128) -> (r: Option<&V>)
    ensures
        match r {
            Some(v) => lookup(entries@, key) == Some(*v),
            None => lookup(entries@, key) is None,
        },
{
    proof {
        assert(entries@.skip(0) =~= entries@);
    }
    let n = entries.len();
    let mut i: usize = 0;
    while i < n
        invariant
            0 <= i <= n,
            n == entries@.len(),
            lookup(entries@.skip(i as int), key) == lookup(entries@, key),
        decreases n - i,
    {
        if entries[i].0 == key {
            proof {
                assert(entries@.skip(i as int)[0] == entries@[i as int]);
            }
            return Some(&entries[i].1);
        }
        proof {
            lemma_lookup_skip(entries@, key, i as int);
        }
        i = i + 1;
    }
    proof {
        assert(entries@.skip(n as int) =~= Seq::<(u128, V)>::empty());
    }
    None
}

/// Linear membership test on a token list.
pub fn contains_token(v: &Vec<u128>, x: u128) -> (r: bool)
    ensures
        r == v@.contains(x),
{
    let n = v.len();
    let mut i: usize = 0;
    while i < n
        invariant
            0 <= i <= n,
            n == v@.len(),
            forall|j: int| 0 <= j < i ==> v@[j] != x,
        decreases n - i,
    {
        if v[i] == x {
            proof {
                assert(v@[i as int] == x);
            }
            return true;
        }
        i = i + 1;
    }
    false
}

/// Adds a token to a duplicate-free token list if it is not yet a member.
pub fn insert_token(tokens: &mut Vec<u128>, t: u128)
    requires
        old(tokens)@.no_duplicates(),
    ensures
        final(tokens)@.no_duplicates(),
        forall|x: u128| final(tokens)@.contains(x) <==> old(tokens)@.contains(x) || x == t,
        forall|x: u128| old(tokens)@.contains(x) ==> final(tokens)@.contains(x),
{
    if !contains_token(tokens, t) {
        let ghost prev = tokens@;
        tokens.push(t);
        proof {
            assert forall|x: u128| #[trigger]
                tokens@.contains(x) <==> prev.contains(x) || x == t by {
                lemma_push_contains(prev, t, x);
            }
            assert forall|i: int, j: int|
                0 <= i < j < tokens@.len() implies tokens@[i] != tokens@[j] by {
                if j == prev.len() {
                    assert(!prev.contains(t));
                    assert(tokens@[i] == prev[i]);
                }
            }
        }
    }
}

} // verus!
