use crate::contract::LedgerView;
use crate::types::{AccountId, JsonToken, TokenId, TransferCall, TransferError};
use vstd::prelude::*;

verus! {

/// The token operations offered to accounts. The caller's account and the
/// deposit it attached are passed in by the hosting environment.
pub trait NonFungibleTokenCore {
    /// The abstract state of the ledger.
    spec fn ledger(&self) -> LedgerView;

    /// The invariant that every operation keeps.
    spec fn ledger_well_formed(&self) -> bool;

    /// Simple transfer: with a deposit of exactly one unit, moves the token
    /// from `sender_id` to `receiver_id` at once.
    fn nft_transfer(
        &mut self,
        sender_id: AccountId,
        attached_deposit: u128,
        receiver_id: AccountId,
        token_id: TokenId,
        memo: Option<String>,
    ) -> (r: Result<(), TransferError>)
        requires
            old(self).ledger_well_formed(),
        ensures
            final(self).ledger_well_formed(),
            attached_deposit != 1 ==> r == Err::<(), TransferError>(TransferError::DepositRequired),
            attached_deposit == 1 ==> r == old(self).ledger().transfer_check(
                sender_id@,
                receiver_id@,
                token_id,
            ),
            r is Ok ==> final(self).ledger() == old(self).ledger().reassign(
                token_id,
                sender_id@,
                receiver_id@,
            ),
            r is Err ==> final(self).ledger() == old(self).ledger(),
    ;

    /// Transfer with confirmation: with a deposit of exactly one unit, moves
    /// the token optimistically and returns the acceptance hook to invoke on
    /// the receiver, with the arguments bound to the resolve step.
    fn nft_transfer_call(
        &mut self,
        sender_id: AccountId,
        attached_deposit: u128,
        receiver_id: AccountId,
        token_id: TokenId,
        memo: Option<String>,
        msg: String,
    ) -> (r: Result<TransferCall, TransferError>)
        requires
            old(self).ledger_well_formed(),
        ensures
            final(self).ledger_well_formed(),
            attached_deposit != 1 ==> r == Err::<TransferCall, TransferError>(
                TransferError::DepositRequired,
            ),
            attached_deposit == 1 ==> r.is_ok() == (old(self).ledger().transfer_check(
                sender_id@,
                receiver_id@,
                token_id,
            ) is Ok),
            match r {
                Ok(call) => {
                    &&& call.sender_id@ == sender_id@
                    &&& call.previous_owner_id@ == old(self).ledger().owners[token_id]
                    &&& call.receiver_id@ == receiver_id@
                    &&& call.token_id == token_id
                    &&& call.msg@ == msg@
                    &&& final(self).ledger() == old(self).ledger().reassign(
                        token_id,
                        sender_id@,
                        receiver_id@,
                    )
                },
                Err(e) => {
                    &&& attached_deposit == 1 ==> old(self).ledger().transfer_check(
                        sender_id@,
                        receiver_id@,
                        token_id,
                    ) == Err::<(), TransferError>(e)
                    &&& final(self).ledger() == old(self).ledger()
                },
            },
    ;

    /// The owner and metadata of a token, or `None` for an unknown id.
    fn nft_token(&self, token_id: TokenId) -> (r: Option<JsonToken>)
        requires
            self.ledger_well_formed(),
        ensures
            r is Some == self.ledger().owners.contains_key(token_id),
            match r {
                Some(tok) => tok.owner_id@ == self.ledger().owners[token_id] && tok.metadata
                    == self.ledger().metadata[token_id],
                None => true,
            },
    ;

    /// Adds one like to a known token and returns its new count; an unknown
    /// id yields `Some(0)` and changes nothing.
    fn nft_candidate_add_like(&mut self, token_id: TokenId) -> (r: Option<u128>)
        requires
            old(self).ledger_well_formed(),
            old(self).ledger().owners.contains_key(token_id) ==> old(self).ledger().likes_of(
                token_id,
            ) < u128::MAX,
        ensures
            final(self).ledger_well_formed(),
            old(self).ledger().owners.contains_key(token_id) ==> {
                &&& r == Some((old(self).ledger().likes_of(token_id) + 1) as u128)
                &&& final(self).ledger() == old(self).ledger().with_likes(
                    token_id,
                    (old(self).ledger().likes_of(token_id) + 1) as u128,
                )
            },
            !old(self).ledger().owners.contains_key(token_id) ==> r == Some(0u128)
                && final(self).ledger() == old(self).ledger(),
    ;

    /// The like count of a known token; an unknown id yields `Some(0)`.
    fn nft_check_candidate_like(&mut self, token_id: TokenId) -> (r: Option<u128>)
        requires
            old(self).ledger_well_formed(),
        ensures
            final(self).ledger_well_formed(),
            final(self).ledger() == old(self).ledger(),
            old(self).ledger().owners.contains_key(token_id) ==> r == Some(
                old(self).ledger().likes_of(token_id),
            ),
            !old(self).ledger().owners.contains_key(token_id) ==> r == Some(0u128),
    ;
}

} // verus!
