use crate::contract::{Contract, LedgerView};
use crate::payload::{json_bool, wants_rollback};
use crate::types::{PromiseOutcome, TokenId, TokenMetadata, TransferError};
use vstd::prelude::*;

verus! {

/// In a well-formed ledger every token's owner in the ownership store is
/// listed for it in the owner index, and no other owner is; conversely every
/// owner-index entry names the token's owner in the ownership store.
pub proof fn lemma_owner_index_matches_store(c: &Contract, t: TokenId)
    requires
        c.well_formed(),
    ensures
        c@.owners.contains_key(t) ==> c@.owner_index.contains((c@.owners[t], t)),
        forall|o: Seq<char>| #[trigger]
            c@.owner_index.contains((o, t)) ==> c@.owners.contains_key(t) && c@.owners[t] == o,
{
    if c@.owners.contains_key(t) {
        assert(c@.owner_index.contains((c@.owners[t], t)));
    }
}

/// Moving a token away from its owner keeps the ledger invariants.
pub proof fn lemma_reassign_consistent(v: LedgerView, t: TokenId, from: Seq<char>, to: Seq<char>)
    requires
        v.consistent(),
        v.owners.contains_key(t),
        v.owners[t] == from,
    ensures
        v.reassign(t, from, to).consistent(),
{
    let w = v.reassign(t, from, to);
    assert forall|o: Seq<char>, u: TokenId| #[trigger]
        w.owner_index.contains((o, u)) == (w.owners.contains_key(u) && w.owners[u] == o) by {
        if u != t {
            assert(v.owner_index.contains((o, u)) == w.owner_index.contains((o, u)));
        } else {
            assert(v.owner_index.contains((from, t)));
        }
    }
    assert forall|o: Seq<char>, k: Seq<char>, u: TokenId| #[trigger]
        w.kind_index.contains((o, k, u)) == (w.owners.contains_key(u) && w.owners[u] == o
            && w.kind_of(u) == k) by {
        if u != t {
            assert(v.kind_index.contains((o, k, u)) == w.kind_index.contains((o, k, u)));
        }
    }
    assert forall|u: TokenId| #[trigger] w.owners.contains_key(u) ==> u < w.counter by {
        if u != t {
            assert(v.owners.contains_key(u) == w.owners.contains_key(u));
        }
    }
    assert forall|u: TokenId| #[trigger] w.owners.contains_key(u) == w.metadata.contains_key(u) by {
        if u != t {
            assert(v.owners.contains_key(u) == v.metadata.contains_key(u));
        }
    }
}

/// The ledger after minting each of `mints` (metadata and receiver) in turn.
pub open spec fn mint_all(v: LedgerView, mints: Seq<(TokenMetadata, Seq<char>)>) -> LedgerView
    decreases mints.len(),
{
    if mints.len() == 0 {
        v
    } else {
        let last = mints.last();
        mint_all(v, mints.drop_last()).minted(last.0, last.1)
    }
}

/// The id that the `i`-th of `mints` receives.
pub open spec fn mint_id(v: LedgerView, mints: Seq<(TokenMetadata, Seq<char>)>, i: int) -> u128 {
    mint_all(v, mints.take(i)).counter
}

proof fn lemma_mint_all(v: LedgerView, mints: Seq<(TokenMetadata, Seq<char>)>)
    requires
        v.counter + mints.len() <= u128::MAX,
    ensures
        mint_all(v, mints).counter == v.counter + mints.len(),
        forall|i: int|
            0 <= i < mints.len() ==> #[trigger] mint_all(v, mints).owners.contains_key(
                (v.counter + i) as u128,
            ) && mint_all(v, mints).owners[(v.counter + i) as u128] == mints[i].1,
    decreases mints.len(),
{
    if mints.len() > 0 {
        let prefix = mints.drop_last();
        lemma_mint_all(v, prefix);
        let n = mints.len() - 1;
        assert forall|i: int| 0 <= i < mints.len() implies #[trigger] mint_all(
            v,
            mints,
        ).owners.contains_key((v.counter + i) as u128) && mint_all(v, mints).owners[(v.counter
            + i) as u128] == mints[i].1 by {
            if i < n {
                assert(prefix[i] == mints[i]);
                assert(mint_all(v, prefix).owners.contains_key((v.counter + i) as u128));
            }
        }
    }
}

/// Minting N tokens in a row hands out N consecutive ids from the counter:
/// distinct and strictly increasing, each held afterwards by its receiver.
pub proof fn lemma_mint_ids_increase(v: LedgerView, mints: Seq<(TokenMetadata, Seq<char>)>)
    requires
        v.counter + mints.len() <= u128::MAX,
    ensures
        forall|i: int| 0 <= i < mints.len() ==> #[trigger] mint_id(v, mints, i) == v.counter + i,
        forall|i: int, j: int|
            0 <= i < j < mints.len() ==> #[trigger] mint_id(v, mints, i) < #[trigger] mint_id(
                v,
                mints,
                j,
            ),
        forall|i: int|
            0 <= i < mints.len() ==> #[trigger] mint_all(v, mints).owners.contains_key(
                mint_id(v, mints, i),
            ) && mint_all(v, mints).owners[mint_id(v, mints, i)] == mints[i].1,
        mint_all(v, mints).counter == v.counter + mints.len(),
{
    lemma_mint_all(v, mints);
    assert forall|i: int| 0 <= i < mints.len() implies #[trigger] mint_id(v, mints, i) == v.counter
        + i by {
        lemma_mint_all(v, mints.take(i));
    }
    assert forall|i: int| 0 <= i < mints.len() implies #[trigger] mint_all(
        v,
        mints,
    ).owners.contains_key(mint_id(v, mints, i)) && mint_all(v, mints).owners[mint_id(v, mints, i)]
        == mints[i].1 by {
        lemma_mint_all(v, mints.take(i));
        assert(mint_all(v, mints).owners.contains_key((v.counter + i) as u128));
    }
}

/// A transfer to oneself is always rejected, and with `NoOp` where the
/// sender owns the token; a rejected transfer leaves the ledger as it was.
pub proof fn lemma_self_transfer_rejected(v: LedgerView, a: Seq<char>, t: TokenId)
    ensures
        v.transfer_check(a, a, t) is Err,
        v.owners.contains_key(t) && v.owners[t] == a ==> v.transfer_check(a, a, t) == Err::<
            (),
            TransferError,
        >(TransferError::NoOp),
{
}

/// A transfer by the owner `a` to another account `b` succeeds; afterwards
/// `b` owns the token and is the one owner-index entry for it, `a` no longer
/// lists it, and no other token or entry changes.
pub proof fn lemma_transfer_moves_token(v: LedgerView, a: Seq<char>, b: Seq<char>, t: TokenId)
    requires
        v.consistent(),
        v.owners.contains_key(t),
        v.owners[t] == a,
        a != b,
    ensures
        v.transfer_check(a, b, t) == Ok::<(), TransferError>(()),
        v.reassign(t, a, b).consistent(),
        v.reassign(t, a, b).owners[t] == b,
        forall|o: Seq<char>| #[trigger]
            v.reassign(t, a, b).owner_index.contains((o, t)) == (o == b),
        forall|o: Seq<char>, u: TokenId|
            u != t ==> #[trigger] v.reassign(t, a, b).owner_index.contains((o, u))
                == v.owner_index.contains((o, u)),
        forall|u: TokenId|
            u != t ==> #[trigger] v.reassign(t, a, b).owners.contains_key(u)
                == v.owners.contains_key(u) && v.reassign(t, a, b).owners[u] == v.owners[u],
{
    lemma_reassign_consistent(v, t, a, b);
}

/// Undoing a move of token `t` from `a` to `b` gives back the ledger as it
/// was before the move.
pub proof fn lemma_reassign_back(v: LedgerView, a: Seq<char>, b: Seq<char>, t: TokenId)
    requires
        v.consistent(),
        v.owners.contains_key(t),
        v.owners[t] == a,
        a != b,
    ensures
        v.reassign(t, a, b).reassign(t, b, a) == v,
{
    let w = v.reassign(t, a, b);
    let x = w.reassign(t, b, a);
    assert(x.owners =~= v.owners);
    assert(v.owner_index.contains((a, t)));
    assert(!v.owner_index.contains((b, t)));
    assert(x.owner_index =~= v.owner_index);
    assert(v.kind_index.contains((a, v.kind_of(t), t)));
    assert(!v.kind_index.contains((b, v.kind_of(t), t)));
    assert(x.kind_index =~= v.kind_index);
}

/// A transfer with confirmation whose outcome asks for rollback restores the
/// ledger exactly, and reports that the transfer did not complete.
pub proof fn lemma_rollback_restores(
    v: LedgerView,
    a: Seq<char>,
    b: Seq<char>,
    t: TokenId,
    outcome: PromiseOutcome,
)
    requires
        v.consistent(),
        v.owners.contains_key(t),
        v.owners[t] == a,
        a != b,
        wants_rollback(outcome),
    ensures
        v.transfer_check(a, b, t) == Ok::<(), TransferError>(()),
        v.reassign(t, a, b).resolved(a, b, t, outcome) == (v, false),
{
    lemma_reassign_back(v, a, b, t);
}

/// A transfer with confirmation whose hook accepts (a payload decoding to
/// `false`) stands: the receiver keeps the token.
pub proof fn lemma_accepted_transfer_stands(
    v: LedgerView,
    a: Seq<char>,
    b: Seq<char>,
    t: TokenId,
    payload: Vec<u8>,
)
    requires
        v.owners.contains_key(t),
        v.owners[t] == a,
        a != b,
        json_bool(payload@) == Some(false),
    ensures
        v.reassign(t, a, b).resolved(a, b, t, PromiseOutcome::Successful(payload)) == (
            v.reassign(t, a, b),
            true,
        ),
        v.reassign(t, a, b).owners[t] == b,
{
}

/// A hook that failed or gave no result is resolved exactly as one that
/// explicitly asked for the token back.
pub proof fn lemma_no_result_is_rollback(
    w: LedgerView,
    a: Seq<char>,
    b: Seq<char>,
    t: TokenId,
    payload: Vec<u8>,
)
    requires
        json_bool(payload@) == Some(true),
    ensures
        w.resolved(a, b, t, PromiseOutcome::Failed) == w.resolved(
            a,
            b,
            t,
            PromiseOutcome::Successful(payload),
        ),
        w.resolved(a, b, t, PromiseOutcome::NotReady) == w.resolved(
            a,
            b,
            t,
            PromiseOutcome::Successful(payload),
        ),
{
}

/// Where the receiver passed the token on to a third account before the
/// resolve step, resolve leaves the ledger untouched and the transfer stands,
/// whatever the outcome.
pub proof fn lemma_resolve_spares_later_transfer(
    v: LedgerView,
    a: Seq<char>,
    b: Seq<char>,
    c: Seq<char>,
    t: TokenId,
    outcome: PromiseOutcome,
)
    requires
        v.owners.contains_key(t),
        v.owners[t] == a,
        a != b,
        c != b,
    ensures
        v.reassign(t, a, b).reassign(t, b, c).resolved(a, b, t, outcome) == (
            v.reassign(t, a, b).reassign(t, b, c),
            true,
        ),
{
}

/// A transfer from an account that does not own the token is rejected with
/// `Unauthorized`; a rejected transfer leaves the ledger as it was.
pub proof fn lemma_non_owner_unauthorized(
    v: LedgerView,
    x: Seq<char>,
    y: Seq<char>,
    t: TokenId,
)
    requires
        v.owners.contains_key(t),
        v.owners[t] != x,
    ensures
        v.transfer_check(x, y, t) == Err::<(), TransferError>(TransferError::Unauthorized),
{
}

} // verus!
