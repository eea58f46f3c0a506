use vstd::prelude::*;

verus! {

/// Token identifiers are allocated from a monotonically increasing counter.
pub type TokenId = u128;

/// An account identifier: an opaque, string-like handle.
pub type AccountId = String;

/// The ownership-store record of one token.
#[derive(Debug)]
pub struct TokenOwner {
    pub owner_id: AccountId,
}

/// Descriptive data of a token, with its immutable kind and its like counter.
#[derive(Clone, Debug)]
pub struct TokenMetadata {
    pub title: Option<String>,
    pub description: Option<String>,
    pub media: Option<String>,
    pub token_id: Option<TokenId>,
    pub token_kind: String,
    pub num_of_likes: Option<u128>,
}

/// What a query returns for a known token.
#[derive(Clone, Debug)]
pub struct JsonToken {
    pub owner_id: AccountId,
    pub metadata: TokenMetadata,
}

/// Why a mutating operation was rejected. A rejected operation changes nothing.
#[derive(Clone, Copy, Debug, PartialEq, Eq, Structural)]
pub enum TransferError {
    /// The token id is unknown.
    TokenNotFound,
    /// The sender is not the token's current owner.
    Unauthorized,
    /// The sender and the receiver are the same account.
    NoOp,
    /// The authorization deposit of exactly one unit was not attached.
    DepositRequired,
}

/// The outcome of the receiver's acceptance hook, as seen by the resolve step.
#[derive(Clone, Debug)]
pub enum PromiseOutcome {
    /// The hook has produced no result.
    NotReady,
    /// The hook returned; its payload is undecoded bytes.
    Successful(Vec<u8>),
    /// The hook failed or ran out of its execution window.
    Failed,
}

/// The follow-up work of a transfer with confirmation: the acceptance hook to
/// invoke on `receiver_id`, and the arguments bound to the resolve step.
#[derive(Clone, Debug)]
pub struct TransferCall {
    pub sender_id: AccountId,
    pub previous_owner_id: AccountId,
    pub receiver_id: AccountId,
    pub token_id: TokenId,
    pub msg: String,
}

fn copy_opt_string(s: &Option<String>) -> (r: Option<String>)
    ensures
        r == *s,
{
    match s {
        Some(v) => Some(v.clone()),
        None => None,
    }
}

impl TokenMetadata {
    /// A field-by-field copy.
    pub fn duplicate(&self) -> (r: TokenMetadata)
        ensures
            r == *self,
    {
        TokenMetadata {
            title: copy_opt_string(&self.title),
            description: copy_opt_string(&self.description),
            media: copy_opt_string(&self.media),
            token_id: self.token_id,
            token_kind: self.token_kind.clone(),
            num_of_likes: self.num_of_likes,
        }
    }
}

} // verus!
