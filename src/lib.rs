//! A single-owner token ledger with a two-phase, compensating transfer protocol.
//!
//! The ledger keeps an ownership store (token id to owner), a metadata store,
//! and two secondary indices (owner to tokens, owner and kind to tokens), and
//! proves that every operation keeps them mutually consistent.
mod contract;
mod kind_index;
mod laws;
mod nft_core;
mod owner_index;
mod payload;
mod types;

pub use contract::{Contract, LedgerView};
pub use kind_index::{KindEntry, KindIndex};
pub use laws::{
    lemma_accepted_transfer_stands, lemma_mint_ids_increase, lemma_no_result_is_rollback,
    lemma_non_owner_unauthorized, lemma_owner_index_matches_store, lemma_reassign_back,
    lemma_reassign_consistent, lemma_resolve_spares_later_transfer, lemma_rollback_restores,
    lemma_self_transfer_rejected, lemma_transfer_moves_token, mint_all, mint_id,
};
pub use nft_core::NonFungibleTokenCore;
pub use owner_index::{OwnerEntry, OwnerIndex};
pub use payload::{
    all_json_ws, bool_literal, decode_bool_payload, encodes_bool, is_json_ws, json_bool,
    rollback_requested, wants_rollback,
};
pub use types::{
    AccountId, JsonToken, PromiseOutcome, TokenId, TokenMetadata, TokenOwner, TransferCall,
    TransferError,
};
