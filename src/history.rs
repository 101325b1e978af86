//! Sequences of operations on one user's session slot, and what they can reach.
use vstd::prelude::*;
use crate::codec::commitment_of;
use crate::session::{
    after_cancel, after_commit, reveal_error, zero_digest, DispatchView, SessionView,
};

verus! {

/// One operation on a session slot, with its arguments. A reveal also records
/// whether the external call it handed out succeeded.
pub enum SessionOp {
    Commit { user: Seq<u8>, commitment: Seq<u8>, bump: u8 },
    Cancel { user: Seq<u8> },
    Reveal {
        user: Seq<u8>,
        salt: Seq<u8>,
        token_in: Seq<u8>,
        token_out: Seq<u8>,
        amount: u64,
        dispatch: DispatchView,
        router: Seq<u8>,
        succeeded: bool,
    },
    CollectFee { user: Seq<u8>, amount: u64, balance: u64 },
}

/// Whether a reveal passes its checks on `s` and its external call succeeds.
pub open spec fn reveal_takes_effect(s: SessionView, op: SessionOp) -> bool {
    match op {
        SessionOp::Reveal { user, salt, token_in, token_out, amount, dispatch, router, succeeded } => {
            &&& reveal_error(s, user, salt, token_in, token_out, amount, dispatch, router) is None
            &&& succeeded
        },
        _ => false,
    }
}

/// The slot after one operation. An empty slot only takes a commit.
pub open spec fn step(slot: Option<SessionView>, op: SessionOp) -> Option<SessionView> {
    match op {
        SessionOp::Commit { user, commitment, bump } => after_commit(slot, user, commitment, bump),
        SessionOp::Cancel { user } => match slot {
            None => None,
            Some(s) => Some(after_cancel(s, user)),
        },
        SessionOp::Reveal { .. } => match slot {
            None => None,
            Some(s) => if reveal_takes_effect(s, op) {
                Some(SessionView { revealed: true, ..s })
            } else {
                Some(s)
            },
        },
        SessionOp::CollectFee { .. } => slot,
    }
}

/// The slot after a sequence of operations, starting from no session.
pub open spec fn run(ops: Seq<SessionOp>) -> Option<SessionView>
    decreases ops.len(),
{
    if ops.len() == 0 {
        None
    } else {
        step(run(ops.drop_last()), ops.last())
    }
}

/// The digest that a reveal's parameters and salt hash to.
pub open spec fn revealed_digest(op: SessionOp) -> Seq<u8> {
    match op {
        SessionOp::Reveal { salt, token_in, token_out, amount, .. } => commitment_of(
            token_in,
            token_out,
            amount,
            salt,
        ),
        _ => Seq::empty(),
    }
}

/// Whether the `j`-th operation is a reveal that took effect.
pub open spec fn accepted_reveal(ops: Seq<SessionOp>, j: int) -> bool {
    &&& 0 <= j < ops.len()
    &&& run(ops.take(j)) matches Some(s)
    &&& reveal_takes_effect(s, ops[j])
}

/// Whether the `i`-th operation is a commit to `digest`.
pub open spec fn commits_to(ops: Seq<SessionOp>, i: int, digest: Seq<u8>) -> bool {
    &&& 0 <= i < ops.len()
    &&& ops[i] matches SessionOp::Commit { commitment, .. }
    &&& commitment == digest
}

/// Whether no reveal in `ops` hashes to the all-zero digest that marks a
/// session without a commitment.
pub open spec fn no_zero_reveal(ops: Seq<SessionOp>) -> bool {
    forall|j: int| 0 <= j < ops.len() && (#[trigger] ops[j]) is Reveal ==> revealed_digest(ops[j]) != zero_digest()
}

proof fn lemma_history(ops: Seq<SessionOp>)
    requires
        no_zero_reveal(ops),
    ensures
        run(ops) matches Some(s) ==> s.commitment == zero_digest() || exists|i: int|
            commits_to(ops, i, s.commitment),
        run(ops) matches Some(s) ==> s.revealed ==> exists|i: int, j: int|
            i < j && commits_to(ops, i, revealed_digest(ops[j])) && accepted_reveal(ops, j),
    decreases ops.len(),
{
    if ops.len() > 0 {
        let prefix = ops.drop_last();
        let n = prefix.len() as int;
        assert(no_zero_reveal(prefix)) by {
            assert forall|j: int| 0 <= j < prefix.len() && (#[trigger] prefix[j]) is Reveal implies revealed_digest(
                prefix[j],
            ) != zero_digest() by {
                assert(prefix[j] == ops[j]);
            }
        }
        lemma_history(prefix);
        assert(ops.take(n) =~= prefix);
        let op = ops.last();
        let before = run(prefix);
        let after = run(ops);
        assert(after == step(before, op));
        if let Some(s) = after {
            // A commit witnessed in the prefix is witnessed in `ops` too.
            if before is Some && before->0.commitment == s.commitment && s.commitment != zero_digest() {
                let i = choose|i: int| commits_to(prefix, i, s.commitment);
                assert(commits_to(ops, i, s.commitment));
            }
            if s.revealed {
                if before is Some && before->0.revealed {
                    let (i, j) = choose|i: int, j: int|
                        i < j && commits_to(prefix, i, revealed_digest(prefix[j])) && accepted_reveal(prefix, j);
                    assert(prefix.take(j) =~= ops.take(j));
                    assert(prefix[j] == ops[j]);
                    assert(commits_to(ops, i, revealed_digest(ops[j])));
                    assert(accepted_reveal(ops, j));
                } else {
                    // Only a reveal that took effect can have set the flag.
                    let t = before->0;
                    assert(op is Reveal);
                    assert(reveal_takes_effect(t, op));
                    assert(t.commitment == revealed_digest(op));
                    assert(ops[n] == op);
                    assert(revealed_digest(op) != zero_digest());
                    let i = choose|i: int| commits_to(prefix, i, t.commitment);
                    assert(commits_to(ops, i, revealed_digest(ops[n])));
                    assert(accepted_reveal(ops, n));
                }
            }
            if s.commitment != zero_digest() && !(before is Some && before->0.commitment == s.commitment) {
                // The commitment changed, so the last operation was a commit to it.
                assert(commits_to(ops, n, s.commitment));
            }
        }
    }
}

/// A session is revealed only after a commit whose digest the accepted
/// reveal's parameters and salt hash to: in every sequence of operations that
/// ends in a revealed session, some commit to a digest precedes a reveal that
/// took effect with parameters hashing to that digest. It holds of sequences
/// in which no reveal hashes to the all-zero digest of a cancelled session.
pub proof fn lemma_revealed_only_after_matching_commit(ops: Seq<SessionOp>)
    requires
        no_zero_reveal(ops),
    ensures
        run(ops) matches Some(s) && s.revealed ==> exists|i: int, j: int|
            i < j && commits_to(ops, i, revealed_digest(ops[j])) && accepted_reveal(ops, j),
{
    lemma_history(ops);
}

} // verus!
