//! Token graph reachability: computes the closure of tokens transitively
//! connected to the reference token through pool token pairs.  Orders whose
//! tokens both fall outside this closure cannot be priced relative to the
//! reference token and are excluded from the compiled model.

use vstd::prelude::*;

verus! {

use crate::liquidity::{liquidity_pair, Liquidity};

/// An undirected edge: the pair set touches `(a, b)` in either orientation.
pub open spec fn edge(pairs: Set<(u128, u128)>, a: u128, b: u128) -> bool {
    pairs.contains((a, b)) || pairs.contains((b, a))
}

/// Token `t` can be reached from `root` in at most `n` edge steps.
pub open spec fn reaches_in(pairs: Set<(u128, u128)>, root: u128, t: u128, n: nat) -> bool
    decreases n,
{
    if t == root {
        true
    } else if n == 0 {
        false
    } else {
        exists|m: u128| reaches_in(pairs, root, m, (n - 1) as nat) && edge(pairs, m, t)
    }
}

/// Token `t` is transitively connected to `root` through the pair set.
pub open spec fn connected(pairs: Set<(u128, u128)>, root: u128, t: u128) -> bool {
    exists|n: nat| reaches_in(pairs, root, t, n)
}

/// The set of token pairs touched by a liquidity list.  Passthrough limit
/// orders contribute no pair.
pub open spec fn pair_set(liq: Seq<Liquidity>) -> Set<(u128, u128)> {
    Set::new(|p: (u128, u128)| liquidity_pair(liq, p.0, p.1))
}

/// A token set is closed under the pair set: following any edge from a
/// member stays inside the set.
pub open spec fn closed_under(pairs: Set<(u128, u128)>, s: Set<u128>) -> bool {
    forall|a: u128, b: u128| s.contains(a) && #[trigger] edge(pairs, a, b) ==> s.contains(b)
}

/// Extending a connection by one edge keeps it a connection.
pub proof fn lemma_connected_step(pairs: Set<(u128, u128)>, root: u128, m: u128, t: u128)
    requires
        connected(pairs, root, m),
        edge(pairs, m, t),
    ensures
        connected(pairs, root, t),
{
    let n = choose|n: nat| reaches_in(pairs, root, m, n);
    assert(reaches_in(pairs, root, t, n + 1));
}

/// In a closed set containing the root, every token reachable in `n` steps
/// is a member.
proof fn lemma_reaches_closed(
    pairs: Set<(u128, u128)>,
    root: u128,
    s: Set<u128>,
    t: u128,
    n: nat,
)
    requires
        s.contains(root),
        closed_under(pairs, s),
        reaches_in(pairs, root, t, n),
    ensures
        s.contains(t),
    decreases n,
{
    if t != root {
        let m = choose|m: u128| reaches_in(pairs, root, m, (n - 1) as nat) && edge(pairs, m, t);
        lemma_reaches_closed(pairs, root, s, m, (n - 1) as nat);
    }
}

/// A closed set containing the root contains the whole closure.
pub proof fn lemma_closed_complete(pairs: Set<(u128, u128)>, root: u128, s: Set<u128>)
    requires
        s.contains(root),
        closed_under(pairs, s),
    ensures
        forall|t: u128| connected(pairs, root, t) ==> s.contains(t),
{
    assert forall|t: u128| connected(pairs, root, t) implies s.contains(t) by {
        let n = choose|n: nat| reaches_in(pairs, root, t, n);
        lemma_reaches_closed(pairs, root, s, t, n);
    }
}

/// The closure depends only on which pairs the liquidity touches, not on
/// the order in which pools list them.
pub proof fn lemma_closure_independent_of_order(
    liq1: Seq<Liquidity>,
    liq2: Seq<Liquidity>,
    root: u128,
)
    requires
        forall|a: u128, b: u128| liquidity_pair(liq1, a, b) <==> liquidity_pair(liq2, a, b),
    ensures
        forall|t: u128| connected(pair_set(liq1), root, t) <==> connected(pair_set(liq2), root, t),
{
    assert(pair_set(liq1) =~= pair_set(liq2));
}

/// Computes the set of all tokens transitively connected to the reference
/// token through pool token pairs, by repeated scanning of the remaining
/// pairs until a pass adds no token or no pairs remain.
#[verifier::loop_isolation(false)]
pub fn compute_fee_connected_tokens(liquidity: &Vec<Liquidity>, native_token: u128) -> (r: Vec<
    u128,
>)
    ensures
        r@.no_duplicates(),
        forall|t: u128| r@.contains(t) <==> connected(pair_set(liquidity@), native_token, t),
{
    let ghost all_pairs = pair_set(liquidity@);
    let mut pairs = crate::liquidity::all_pool_pairs(liquidity);
    let mut fee_connected: Vec<u128> = Vec::new();
    fee_connected.push(native_token);
    proof {
        assert(fee_connected@ =~= Seq::<u128>::empty().push(native_token));
        assert(fee_connected@.contains(native_token)) by {
            assert(fee_connected@[0] == native_token);
        }
        assert(reaches_in(all_pairs, native_token, native_token, 0));
        assert forall|t: u128| fee_connected@.contains(t) implies connected(
            all_pairs,
            native_token,
            t,
        ) by {
            assert(t == native_token);
        }
    }
    let mut done = false;
    while !done
        invariant
            fee_connected@.no_duplicates(),
            fee_connected@.contains(native_token),
            forall|t: u128| #[trigger]
                fee_connected@.contains(t) ==> connected(all_pairs, native_token, t),
            forall|p: (u128, u128)| #[trigger] pairs@.contains(p) ==> all_pairs.contains(p),
            forall|p: (u128, u128)| #[trigger]
                all_pairs.contains(p) ==> pairs@.contains(p) || (fee_connected@.contains(p.0)
                    && fee_connected@.contains(p.1)),
            done ==> closed_under(all_pairs, fee_connected@.to_set()),
        decreases (if done { 0int } else { 1int }), pairs@.len(),
    {
        let ghost pass_start_fee = fee_connected@;
        let ghost pass_start_pairs = pairs@;
        let mut added = false;
        let mut remaining: Vec<(u128, u128)> = Vec::new();
        let n = pairs.len();
        let mut k: usize = 0;
        while k < n
            invariant
                0 <= k <= n,
                n == pairs@.len(),
                pairs@ == pass_start_pairs,
                fee_connected@.no_duplicates(),
                fee_connected@.contains(native_token),
                forall|t: u128| #[trigger]
                    pass_start_fee.contains(t) ==> fee_connected@.contains(t),
                forall|t: u128| #[trigger]
                    fee_connected@.contains(t) ==> connected(all_pairs, native_token, t),
                forall|p: (u128, u128)| #[trigger] remaining@.contains(p) ==> pairs@.contains(p),
                forall|kk: int|
                    0 <= kk < k ==> remaining@.contains(#[trigger] pairs@[kk]) || (
                    fee_connected@.contains(pairs@[kk].0) && fee_connected@.contains(
                        pairs@[kk].1,
                    )),
                !added ==> fee_connected@ == pass_start_fee,
                !added ==> forall|p: (u128, u128)| #[trigger]
                    remaining@.contains(p) ==> !fee_connected@.contains(p.0)
                        && !fee_connected@.contains(p.1),
                remaining@.len() <= k,
                added ==> remaining@.len() < k,
            decreases n - k,
        {
            let p = pairs[k];
            let in0 = crate::table::contains_token(&fee_connected, p.0);
            let in1 = crate::table::contains_token(&fee_connected, p.1);
            if in0 {
                proof {
                    assert(pairs@.contains(p)) by {
                        assert(pairs@[k as int] == p);
                    }
                    assert(all_pairs.contains(p));
                    assert(edge(all_pairs, p.0, p.1));
                    lemma_connected_step(all_pairs, native_token, p.0, p.1);
                }
                crate::table::insert_token(&mut fee_connected, p.1);
                added = true;
            } else if in1 {
                proof {
                    assert(pairs@.contains(p)) by {
                        assert(pairs@[k as int] == p);
                    }
                    assert(all_pairs.contains(p));
                    assert(edge(all_pairs, p.1, p.0));
                    lemma_connected_step(all_pairs, native_token, p.1, p.0);
                }
                crate::table::insert_token(&mut fee_connected, p.0);
                added = true;
            } else {
                let ghost prev = remaining@;
                remaining.push(p);
                proof {
                    assert forall|q: (u128, u128)| #[trigger]
                        remaining@.contains(q) <==> prev.contains(q) || q == p by {
                        crate::table::lemma_push_contains(prev, p, q);
                    }
                }
            }
            k = k + 1;
        }
        pairs = remaining;
        if pairs.is_empty() || !added {
            proof {
                assert forall|a: u128, b: u128|
                    fee_connected@.to_set().contains(a) && #[trigger] edge(
                        all_pairs,
                        a,
                        b,
                    ) implies fee_connected@.to_set().contains(b) by {
                    let q: (u128, u128) = if all_pairs.contains((a, b)) {
                        (a, b)
                    } else {
                        (b, a)
                    };
                    assert(all_pairs.contains(q));
                    if pass_start_pairs.contains(q) {
                        let kk = choose|kk: int|
                            0 <= kk < pass_start_pairs.len() && pass_start_pairs[kk] == q;
                        if pairs@.contains(q) {
                            assert(pairs@.len() > 0);
                            assert(!added);
                            assert(!fee_connected@.contains(q.0) && !fee_connected@.contains(
                                q.1,
                            ));
                        }
                    }
                }
            }
            done = true;
        }
        proof {
            assert forall|p: (u128, u128)| #[trigger]
                all_pairs.contains(p) implies pairs@.contains(p) || (fee_connected@.contains(p.0)
                && fee_connected@.contains(p.1)) by {
                if pass_start_pairs.contains(p) {
                    let kk = choose|kk: int|
                        0 <= kk < pass_start_pairs.len() && pass_start_pairs[kk] == p;
                }
            }
        }
    }
    proof {
        lemma_closed_complete(all_pairs, native_token, fee_connected@.to_set());
        assert forall|t: u128|
            fee_connected@.contains(t) <==> connected(all_pairs, native_token, t) by {
            if connected(all_pairs, native_token, t) {
                assert(fee_connected@.to_set().contains(t));
            }
        }
    }
    fee_connected
}

} // verus!
