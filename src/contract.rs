use crate::kind_index::KindIndex;
use crate::laws::lemma_reassign_consistent;
use crate::owner_index::OwnerIndex;
use crate::nft_core::NonFungibleTokenCore;
use crate::payload::{rollback_requested, wants_rollback};
use crate::types::{
    AccountId, JsonToken, PromiseOutcome, TokenId, TokenMetadata, TokenOwner, TransferCall,
    TransferError,
};
use vstd::hash_map::HashMapWithView;
use vstd::prelude::*;

verus! {

/// The abstract state of the ledger.
pub struct LedgerView {
    /// The ownership store: token id to owner.
    pub owners: Map<TokenId, Seq<char>>,
    /// The metadata store: token id to its descriptive record.
    pub metadata: Map<TokenId, TokenMetadata>,
    /// The owner index, as the set of (owner, token id) memberships.
    pub owner_index: Set<(Seq<char>, TokenId)>,
    /// The kind index, as the set of (owner, kind, token id) memberships.
    pub kind_index: Set<(Seq<char>, Seq<char>, TokenId)>,
    /// The next token id to be allocated.
    pub counter: u128,
}

impl LedgerView {
    pub open spec fn empty() -> LedgerView {
        LedgerView {
            owners: Map::empty(),
            metadata: Map::empty(),
            owner_index: Set::empty(),
            kind_index: Set::empty(),
            counter: 0,
        }
    }

    /// The kind recorded for a token at mint time.
    pub open spec fn kind_of(self, t: TokenId) -> Seq<char> {
        self.metadata[t].token_kind@
    }

    /// The like counter of a token.
    pub open spec fn likes_of(self, t: TokenId) -> u128 {
        match self.metadata[t].num_of_likes {
            Some(n) => n,
            None => 0,
        }
    }

    /// The ledger invariants: both indices mirror the ownership store
    /// exactly, every token has its metadata, and ids lie below the counter.
    pub open spec fn consistent(self) -> bool {
        &&& forall|t: TokenId| #[trigger]
            self.owners.contains_key(t) == self.metadata.contains_key(t)
        &&& forall|t: TokenId| #[trigger] self.owners.contains_key(t) ==> t < self.counter
        &&& forall|o: Seq<char>, t: TokenId| #[trigger]
            self.owner_index.contains((o, t)) == (self.owners.contains_key(t) && self.owners[t]
                == o)
        &&& forall|o: Seq<char>, k: Seq<char>, t: TokenId| #[trigger]
            self.kind_index.contains((o, k, t)) == (self.owners.contains_key(t)
                && self.owners[t] == o && self.kind_of(t) == k)
        &&& forall|t: TokenId| #[trigger]
            self.metadata.contains_key(t) ==> self.metadata[t].token_id == Some(t)
                && self.metadata[t].num_of_likes is Some
    }

    /// The ledger with token `t` moved from `from` to `to` in the ownership
    /// store and in both indices.
    pub open spec fn reassign(self, t: TokenId, from: Seq<char>, to: Seq<char>) -> LedgerView {
        LedgerView {
            owners: self.owners.insert(t, to),
            metadata: self.metadata,
            owner_index: self.owner_index.remove((from, t)).insert((to, t)),
            kind_index: self.kind_index.remove((from, self.kind_of(t), t)).insert(
                (to, self.kind_of(t), t),
            ),
            counter: self.counter,
        }
    }

    /// The metadata record that mint stores for the token it allocates.
    pub open spec fn minted_metadata(self, md: TokenMetadata) -> TokenMetadata {
        TokenMetadata {
            title: md.title,
            description: md.description,
            media: md.media,
            token_id: Some(self.counter),
            token_kind: md.token_kind,
            num_of_likes: Some(0),
        }
    }

    /// The ledger after minting a token with metadata `md` to `receiver`.
    pub open spec fn minted(self, md: TokenMetadata, receiver: Seq<char>) -> LedgerView {
        LedgerView {
            owners: self.owners.insert(self.counter, receiver),
            metadata: self.metadata.insert(self.counter, self.minted_metadata(md)),
            owner_index: self.owner_index.insert((receiver, self.counter)),
            kind_index: self.kind_index.insert((receiver, md.token_kind@, self.counter)),
            counter: (self.counter + 1) as u128,
        }
    }

    /// Whether `sender` may move token `t` to `receiver`, and why not.
    pub open spec fn transfer_check(self, sender: Seq<char>, receiver: Seq<char>, t: TokenId) -> Result<
        (),
        TransferError,
    > {
        if !self.owners.contains_key(t) {
            Err(TransferError::TokenNotFound)
        } else if self.owners[t] != sender {
            Err(TransferError::Unauthorized)
        } else if sender == receiver {
            Err(TransferError::NoOp)
        } else {
            Ok(())
        }
    }

    /// Whether the resolve step undoes the optimistic transfer of `t` to
    /// `receiver`: the outcome asks for it and `receiver` still owns `t`.
    pub open spec fn rolls_back(self, receiver: Seq<char>, t: TokenId, outcome: PromiseOutcome) -> bool {
        wants_rollback(outcome) && self.owners.contains_key(t) && self.owners[t] == receiver
    }

    /// The ledger after the resolve step, and whether the transfer stands.
    pub open spec fn resolved(
        self,
        owner: Seq<char>,
        receiver: Seq<char>,
        t: TokenId,
        outcome: PromiseOutcome,
    ) -> (LedgerView, bool) {
        if self.rolls_back(receiver, t, outcome) {
            (self.reassign(t, receiver, owner), false)
        } else {
            (self, true)
        }
    }

    /// The ledger with the like counter of `t` set to `n`.
    pub open spec fn with_likes(self, t: TokenId, n: u128) -> LedgerView {
        LedgerView {
            metadata: self.metadata.insert(
                t,
                TokenMetadata { num_of_likes: Some(n), ..self.metadata[t] },
            ),
            ..self
        }
    }
}

/// The ledger: ownership store, metadata store, owner index, kind index and
/// the id counter.
pub struct Contract {
    tokens_by_id: HashMapWithView<TokenId, TokenOwner>,
    token_metadata_by_id: HashMapWithView<TokenId, TokenMetadata>,
    tokens_per_owner: OwnerIndex,
    tokens_per_kind: KindIndex,
    token_id_counter: u128,
}

impl View for Contract {
    type V = LedgerView;

    closed spec fn view(&self) -> LedgerView {
        LedgerView {
            owners: Map::new(
                |t: TokenId| self.tokens_by_id@.contains_key(t),
                |t: TokenId| self.tokens_by_id@[t].owner_id@,
            ),
            metadata: self.token_metadata_by_id@,
            owner_index: self.tokens_per_owner@,
            kind_index: self.tokens_per_kind@,
            counter: self.token_id_counter,
        }
    }
}

impl Contract {
    /// Neither index lists a token id twice.
    pub closed spec fn indices_well_formed(&self) -> bool {
        self.tokens_per_owner.well_formed() && self.tokens_per_kind.well_formed()
    }

    /// The invariant that every operation keeps.
    pub open spec fn well_formed(&self) -> bool {
        self.indices_well_formed() && self@.consistent()
    }

    /// An empty ledger whose first token id is 0.
    pub fn new() -> (r: Contract)
        ensures
            r.well_formed(),
            r@ == LedgerView::empty(),
    {
        broadcast use vstd::std_specs::hash::group_hash_axioms;

        let r = Contract {
            tokens_by_id: HashMapWithView::new(),
            token_metadata_by_id: HashMapWithView::new(),
            tokens_per_owner: OwnerIndex::new(),
            tokens_per_kind: KindIndex::new(),
            token_id_counter: 0,
        };
        assert(r@.owners =~= Map::empty());
        r
    }

    /// Moves token `t` from `from` to `to` in the ownership store and in both
    /// indices.
    fn move_token(&mut self, t: TokenId, from: &AccountId, to: &AccountId)
        requires
            old(self).well_formed(),
            old(self)@.owners.contains_key(t),
            old(self)@.owners[t] == from@,
        ensures
            final(self).well_formed(),
            final(self)@ == old(self)@.reassign(t, from@, to@),
    {
        let ghost v0 = self@;
        assert(v0.metadata.contains_key(t));
        let kind = match self.token_metadata_by_id.get(&t) {
            Some(md) => md.token_kind.clone(),
            None => String::new(),
        };
        assert(kind@ == v0.kind_of(t));
        self.tokens_per_owner.remove(from, t);
        assert forall|o: Seq<char>| !self.tokens_per_owner@.contains((o, t)) by {
            if v0.owner_index.contains((o, t)) {
                assert(o == from@);
            }
        }
        self.tokens_per_owner.add(to, t);
        self.tokens_per_kind.remove(from, &kind, t);
        assert forall|o: Seq<char>, k: Seq<char>| !self.tokens_per_kind@.contains((o, k, t)) by {
            if v0.kind_index.contains((o, k, t)) {
                assert(o == from@ && k == kind@);
            }
        }
        self.tokens_per_kind.add(to, &kind, t);
        self.tokens_by_id.insert(t, TokenOwner { owner_id: to.clone() });
        let ghost v1 = v0.reassign(t, from@, to@);
        assert(self@.owners =~= v1.owners);
        assert(self@ == v1);
        proof {
            lemma_reassign_consistent(v0, t, from@, to@);
        }
    }

    /// The apply step of both transfers: checks that `sender_id` owns the
    /// token and differs from `receiver_id`, then moves the token. Returns
    /// the token's pre-transfer record, for a possible rollback.
    pub fn internal_transfer(
        &mut self,
        sender_id: &AccountId,
        receiver_id: &AccountId,
        token_id: TokenId,
        _memo: Option<String>,
    ) -> (r: Result<TokenOwner, TransferError>)
        requires
            old(self).well_formed(),
        ensures
            final(self).well_formed(),
            r.is_ok() == (old(self)@.transfer_check(sender_id@, receiver_id@, token_id) is Ok),
            match r {
                Ok(prev) => prev.owner_id@ == old(self)@.owners[token_id] && final(self)@
                    == old(self)@.reassign(token_id, sender_id@, receiver_id@),
                Err(e) => old(self)@.transfer_check(sender_id@, receiver_id@, token_id) == Err::<
                    (),
                    TransferError,
                >(e) && final(self)@ == old(self)@,
            },
    {
        let prev = match self.tokens_by_id.get(&token_id) {
            Some(tok) => TokenOwner { owner_id: tok.owner_id.clone() },
            None => {
                return Err(TransferError::TokenNotFound);
            },
        };
        if prev.owner_id != *sender_id {
            return Err(TransferError::Unauthorized);
        }
        if *sender_id == *receiver_id {
            return Err(TransferError::NoOp);
        }
        self.move_token(token_id, sender_id, receiver_id);
        Ok(prev)
    }

    /// Issues a new token to `receiver_id`: it takes the id that the counter
    /// shows, starts with no likes, and the counter advances by one.
    pub fn nft_mint(&mut self, metadata: TokenMetadata, receiver_id: AccountId)
        requires
            old(self).well_formed(),
            old(self)@.counter < u128::MAX,
        ensures
            final(self).well_formed(),
            final(self)@ == old(self)@.minted(metadata, receiver_id@),
    {
        let ghost v0 = self@;
        let token_id = self.token_id_counter;
        let mut metadata = metadata;
        metadata.token_id = Some(token_id);
        metadata.num_of_likes = Some(0);
        assert(!v0.owners.contains_key(token_id));
        assert forall|o: Seq<char>| !self.tokens_per_owner@.contains((o, token_id)) by {
            assert(!v0.owner_index.contains((o, token_id)));
        }
        assert forall|o: Seq<char>, k: Seq<char>|
            !self.tokens_per_kind@.contains((o, k, token_id)) by {
            assert(!v0.kind_index.contains((o, k, token_id)));
        }
        let kind = metadata.token_kind.clone();
        self.tokens_by_id.insert(token_id, TokenOwner { owner_id: receiver_id.clone() });
        self.token_metadata_by_id.insert(token_id, metadata);
        self.tokens_per_owner.add(&receiver_id, token_id);
        self.tokens_per_kind.add(&receiver_id, &kind, token_id);
        self.token_id_count_unchecked();
        let ghost v1 = v0.minted(metadata, receiver_id@);
        assert(self@.owners =~= v1.owners);
        assert(self@.metadata =~= v1.metadata);
        assert(self@ == v1);
        assert forall|o: Seq<char>, u: TokenId| #[trigger]
            v1.owner_index.contains((o, u)) == (v1.owners.contains_key(u) && v1.owners[u] == o) by {
            if u != token_id {
                assert(v0.owner_index.contains((o, u)) == v1.owner_index.contains((o, u)));
            }
        }
        assert forall|o: Seq<char>, k: Seq<char>, u: TokenId| #[trigger]
            v1.kind_index.contains((o, k, u)) == (v1.owners.contains_key(u) && v1.owners[u] == o
                && v1.kind_of(u) == k) by {
            if u != token_id {
                assert(v0.kind_index.contains((o, k, u)) == v1.kind_index.contains((o, k, u)));
            }
        }
        assert forall|u: TokenId| #[trigger] v1.owners.contains_key(u) ==> u < v1.counter by {
            if u != token_id {
                assert(v0.owners.contains_key(u) == v1.owners.contains_key(u));
            }
        }
        assert forall|u: TokenId| #[trigger] v1.owners.contains_key(u) == v1.metadata.contains_key(
            u,
        ) by {
            if u != token_id {
                assert(v0.owners.contains_key(u) == v0.metadata.contains_key(u));
            }
        }
        assert forall|u: TokenId| #[trigger] v1.metadata.contains_key(u) ==> v1.metadata[u].token_id
            == Some(u) && v1.metadata[u].num_of_likes is Some by {
            if u != token_id {
                assert(v0.metadata.contains_key(u) == v1.metadata.contains_key(u));
            }
        }
    }

    fn token_id_count_unchecked(&mut self)
        requires
            old(self).token_id_counter < u128::MAX,
        ensures
            final(self).token_id_counter == old(self).token_id_counter + 1,
            final(self).tokens_by_id == old(self).tokens_by_id,
            final(self).token_metadata_by_id == old(self).token_metadata_by_id,
            final(self).tokens_per_owner == old(self).tokens_per_owner,
            final(self).tokens_per_kind == old(self).tokens_per_kind,
    {
        self.token_id_counter = self.token_id_counter + 1;
    }

    /// The resolve step of a transfer with confirmation. Unless the outcome
    /// accepts the transfer, the token goes back from `receiver_id` to
    /// `owner_id`, but only where `receiver_id` still owns it. Returns whether
    /// the transfer stands.
    pub fn nft_resolve_transfer(
        &mut self,
        owner_id: AccountId,
        receiver_id: AccountId,
        token_id: TokenId,
        outcome: &PromiseOutcome,
    ) -> (r: bool)
        requires
            old(self).well_formed(),
        ensures
            final(self).well_formed(),
            (final(self)@, r) == old(self)@.resolved(owner_id@, receiver_id@, token_id, *outcome),
    {
        if !rollback_requested(outcome) {
            return true;
        }
        let still_with_receiver = match self.tokens_by_id.get(&token_id) {
            Some(tok) => tok.owner_id == receiver_id,
            None => false,
        };
        if !still_with_receiver {
            return true;
        }
        self.move_token(token_id, &receiver_id, &owner_id);
        false
    }

    /// The tokens that `account_id` owns, each listed once, read from the
    /// owner index.
    pub fn nft_tokens_for_owner(&self, account_id: &AccountId) -> (r: Vec<TokenId>)
        requires
            self.well_formed(),
        ensures
            r@.no_duplicates(),
            forall|t: TokenId| #[trigger]
                r@.contains(t) == (self@.owners.contains_key(t) && self@.owners[t] == account_id@),
    {
        let r = self.tokens_per_owner.tokens_for(account_id);
        assert forall|t: TokenId| #[trigger]
            r@.contains(t) == (self@.owners.contains_key(t) && self@.owners[t] == account_id@) by {
            assert(r@.contains(t) == self@.owner_index.contains((account_id@, t)));
        }
        r
    }

    /// The tokens of kind `token_kind` that `account_id` owns, each listed
    /// once, read from the kind index.
    pub fn nft_tokens_for_owner_and_kind(&self, account_id: &AccountId, token_kind: &String) -> (r:
        Vec<TokenId>)
        requires
            self.well_formed(),
        ensures
            r@.no_duplicates(),
            forall|t: TokenId| #[trigger]
                r@.contains(t) == (self@.owners.contains_key(t) && self@.owners[t] == account_id@
                    && self@.kind_of(t) == token_kind@),
    {
        let r = self.tokens_per_kind.tokens_for(account_id, token_kind);
        assert forall|t: TokenId| #[trigger]
            r@.contains(t) == (self@.owners.contains_key(t) && self@.owners[t] == account_id@
                && self@.kind_of(t) == token_kind@) by {
            assert(r@.contains(t) == self@.kind_index.contains((account_id@, token_kind@, t)));
        }
        r
    }

    /// Advances the id counter by one.
    pub fn token_id_count(&mut self)
        requires
            old(self).well_formed(),
            old(self)@.counter < u128::MAX,
        ensures
            final(self).well_formed(),
            final(self)@ == (LedgerView { counter: (old(self)@.counter + 1) as u128, ..old(self)@ }),
    {
        self.token_id_counter = self.token_id_counter + 1;
    }

    /// The id that the next mint allocates.
    pub fn show_token_id_counter(&self) -> (r: u128)
        ensures
            r == self@.counter,
    {
        self.token_id_counter
    }
}

impl NonFungibleTokenCore for Contract {
    open spec fn ledger(&self) -> LedgerView {
        self@
    }

    open spec fn ledger_well_formed(&self) -> bool {
        self.well_formed()
    }

    fn nft_transfer(
        &mut self,
        sender_id: AccountId,
        attached_deposit: u128,
        receiver_id: AccountId,
        token_id: TokenId,
        memo: Option<String>,
    ) -> (r: Result<(), TransferError>) {
        if attached_deposit != 1 {
            return Err(TransferError::DepositRequired);
        }
        match self.internal_transfer(&sender_id, &receiver_id, token_id, memo) {
            Ok(_) => Ok(()),
            Err(e) => Err(e),
        }
    }

    fn nft_transfer_call(
        &mut self,
        sender_id: AccountId,
        attached_deposit: u128,
        receiver_id: AccountId,
        token_id: TokenId,
        memo: Option<String>,
        msg: String,
    ) -> (r: Result<TransferCall, TransferError>) {
        if attached_deposit != 1 {
            return Err(TransferError::DepositRequired);
        }
        match self.internal_transfer(&sender_id, &receiver_id, token_id, memo) {
            Ok(previous_token) => Ok(
                TransferCall {
                    sender_id,
                    previous_owner_id: previous_token.owner_id,
                    receiver_id,
                    token_id,
                    msg,
                },
            ),
            Err(e) => Err(e),
        }
    }

    fn nft_token(&self, token_id: TokenId) -> (r: Option<JsonToken>) {
        match self.tokens_by_id.get(&token_id) {
            Some(token) => {
                let metadata = match self.token_metadata_by_id.get(&token_id) {
                    Some(md) => md.duplicate(),
                    None => {
                        return None;
                    },
                };
                Some(JsonToken { owner_id: token.owner_id.clone(), metadata })
            },
            None => None,
        }
    }

    fn nft_candidate_add_like(&mut self, token_id: TokenId) -> (r: Option<u128>) {
        if !self.tokens_by_id.contains_key(&token_id) {
            return Some(0);
        }
        let ghost v0 = self@;
        let mut metadata = match self.token_metadata_by_id.get(&token_id) {
            Some(md) => md.duplicate(),
            None => {
                return Some(0);
            },
        };
        let old_num_of_likes: u128 = match metadata.num_of_likes {
            Some(n) => n,
            None => 0,
        };
        let new_num_of_likes = old_num_of_likes + 1;
        metadata.num_of_likes = Some(new_num_of_likes);
        self.token_metadata_by_id.insert(token_id, metadata);
        let ghost v1 = v0.with_likes(token_id, new_num_of_likes);
        assert(self@.metadata =~= v1.metadata);
        assert(self@.owners =~= v1.owners);
        assert(self@ == v1);
        assert forall|u: TokenId| #[trigger] v1.metadata.contains_key(u) ==> v1.metadata[u].token_id
            == Some(u) && v1.metadata[u].num_of_likes is Some by {
            if u != token_id {
                assert(v0.metadata.contains_key(u) == v1.metadata.contains_key(u));
            }
        }
        assert forall|o: Seq<char>, k: Seq<char>, u: TokenId| #[trigger]
            v1.kind_index.contains((o, k, u)) == (v1.owners.contains_key(u) && v1.owners[u] == o
                && v1.kind_of(u) == k) by {
            assert(v0.kind_of(u) == v1.kind_of(u));
        }
        Some(new_num_of_likes)
    }

    fn nft_check_candidate_like(&mut self, token_id: TokenId) -> (r: Option<u128>) {
        if !self.tokens_by_id.contains_key(&token_id) {
            return Some(0);
        }
        match self.token_metadata_by_id.get(&token_id) {
            Some(md) => md.num_of_likes,
            None => Some(0),
        }
    }
}

} // verus!
