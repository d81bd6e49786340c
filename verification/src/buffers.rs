//! Buffer-balance results: classification of per-token retrieval failures
//! and the filtering of a fetched batch down to its usable entries.  A
//! failed token is dropped from the buffer table; it never fails the whole
//! compilation.

use vstd::prelude::*;

verus! {

/// How an on-chain call failed, as seen by this pipeline.
#[derive(Clone, Copy, Debug, PartialEq, Eq, Structural)]
pub enum ExecutionError {
    /// The transaction failed outright.
    Failure,
    /// The transaction reverted.
    Revert,
    /// The transaction hit an invalid opcode.
    InvalidOpcode,
    /// Any other failure (network, protocol, ...).
    Other,
}

/// Why retrieving one token's buffer balance failed.
#[derive(Clone, Copy, Debug, PartialEq, Eq, Structural)]
pub enum BufferRetrievalError {
    /// The token contract call failed with the given execution error.
    Erc20(ExecutionError),
    /// Any other retrieval failure.
    Other,
}

/// Whether the error indicates the transaction itself reverted, as opposed
/// to an infrastructure problem.  Such failures are expected for some
/// tokens and dropped silently rather than logged as errors.
pub open spec fn spec_is_transaction_failure(error: ExecutionError) -> bool {
    error is Failure || error is Revert || error is InvalidOpcode
}

pub fn is_transaction_failure(error: &ExecutionError) -> (r: bool)
    ensures
        r == spec_is_transaction_failure(*error),
{
    match error {
        ExecutionError::Failure => true,
        ExecutionError::Revert => true,
        ExecutionError::InvalidOpcode => true,
        ExecutionError::Other => false,
    }
}

/// The usable entries of a fetched buffer batch: tokens whose retrieval
/// succeeded, in order; failed tokens are dropped.
pub open spec fn spec_ok_buffers(s: Seq<(u128, Result<u128, BufferRetrievalError>)>) -> Seq<
    (u128, u128),
>
    decreases s.len(),
{
    if s.len() == 0 {
        Seq::empty()
    } else {
        let rest = spec_ok_buffers(s.drop_last());
        match s.last().1 {
            Ok(b) => rest.push((s.last().0, b)),
            Err(_) => rest,
        }
    }
}

proof fn lemma_ok_buffers_push(
    s: Seq<(u128, Result<u128, BufferRetrievalError>)>,
    e: (u128, Result<u128, BufferRetrievalError>),
)
    ensures
        spec_ok_buffers(s.push(e)) == match e.1 {
            Ok(b) => spec_ok_buffers(s).push((e.0, b)),
            Err(_) => spec_ok_buffers(s),
        },
{
    assert(s.push(e).drop_last() =~= s);
    assert(s.push(e).last() == e);
}

/// Keeps the buffer balances whose retrieval succeeded and drops every
/// failed token.
pub fn filter_buffers(results: &Vec<(u128, Result<u128, BufferRetrievalError>)>) -> (r: Vec<
    (u128, u128),
>)
    ensures
        r@ == spec_ok_buffers(results@),
{
    let mut out: Vec<(u128, u128)> = Vec::new();
    let n = results.len();
    let mut i: usize = 0;
    proof {
        assert(results@.subrange(0, 0) =~= Seq::<
            (u128, Result<u128, BufferRetrievalError>),
        >::empty());
    }
    while i < n
        invariant
            0 <= i <= n,
            n == results@.len(),
            out@ == spec_ok_buffers(results@.subrange(0, i as int)),
        decreases n - i,
    {
        let entry = results[i];
        match entry.1 {
            Ok(b) => {
                out.push((entry.0, b));
            },
            Err(_) => {},
        }
        proof {
            let prefix = results@.subrange(0, i as int);
            assert(results@.subrange(0, i + 1) =~= prefix.push(results@[i as int]));
            lemma_ok_buffers_push(prefix, results@[i as int]);
        }
        i = i + 1;
    }
    proof {
        assert(results@.subrange(0, n as int) =~= results@);
    }
    out
}

} // verus!
