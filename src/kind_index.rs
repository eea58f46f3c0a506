use crate::types::{AccountId, TokenId};
use vstd::prelude::*;

verus! {

/// One membership of the kind index: `token_id`, of kind `token_kind`, is held
/// by `owner_id`.
#[derive(Debug)]
pub struct KindEntry {
    pub owner_id: AccountId,
    pub token_kind: String,
    pub token_id: TokenId,
}

/// The secondary index from (owner, kind) pairs to tokens, kept as a list of
/// memberships in which each token id occurs at most once.
#[derive(Debug)]
pub struct KindIndex {
    entries: Vec<KindEntry>,
}

impl View for KindIndex {
    type V = Set<(Seq<char>, Seq<char>, TokenId)>;

    closed spec fn view(&self) -> Set<(Seq<char>, Seq<char>, TokenId)> {
        Set::new(|p: (Seq<char>, Seq<char>, TokenId)| self.holds_at(p))
    }
}

impl KindIndex {
    spec fn holds_at(&self, p: (Seq<char>, Seq<char>, TokenId)) -> bool {
        exists|i: int|
            0 <= i < self.entries.len() && #[trigger] self.entries[i].owner_id@ == p.0
                && self.entries[i].token_kind@ == p.1 && self.entries[i].token_id == p.2
    }

    /// No token id is listed twice.
    pub closed spec fn well_formed(&self) -> bool {
        forall|i: int, j: int|
            0 <= i < self.entries.len() && 0 <= j < self.entries.len() && i != j
                ==> #[trigger] self.entries[i].token_id != #[trigger] self.entries[j].token_id
    }

    /// The tokens of kind `token_kind` that `owner_id` holds, each listed once.
    pub fn tokens_for(&self, owner_id: &AccountId, token_kind: &String) -> (r: Vec<TokenId>)
        requires
            self.well_formed(),
        ensures
            r@.no_duplicates(),
            forall|t: TokenId| #[trigger] r@.contains(t) == self@.contains((owner_id@, token_kind@, t)),
    {
        let mut r: Vec<TokenId> = Vec::new();
        let mut i: usize = 0;
        while i < self.entries.len()
            invariant
                0 <= i <= self.entries.len(),
                self.well_formed(),
                r@.no_duplicates(),
                forall|t: TokenId|
                    #[trigger] r@.contains(t) ==> exists|k: int|
                        0 <= k < i && #[trigger] self.entries[k].token_id == t,
                forall|k: int|
                    0 <= k < i && self.entries[k].owner_id@ == owner_id@
                        && self.entries[k].token_kind@ == token_kind@
                        ==> #[trigger] r@.contains(self.entries[k].token_id),
                forall|t: TokenId|
                    #[trigger] r@.contains(t) ==> self@.contains((owner_id@, token_kind@, t)),
            decreases self.entries.len() - i,
        {
            if self.entries[i].owner_id == *owner_id && self.entries[i].token_kind == *token_kind {
                let t = self.entries[i].token_id;
                proof {
                    if r@.contains(t) {
                        let k = choose|k: int| 0 <= k < i && #[trigger] self.entries[k].token_id == t;
                        assert(self.entries[k].token_id == self.entries[i as int].token_id);
                    }
                    assert(self.holds_at((owner_id@, token_kind@, t)));
                }
                let ghost r0 = r@;
                r.push(t);
                proof {
                    assert(r@ == r0.push(t));
                    assert(r@[r0.len() as int] == t);
                    assert forall|u: TokenId| #[trigger] r@.contains(u) implies exists|k: int|
                        0 <= k < i + 1 && #[trigger] self.entries[k].token_id == u by {
                        if u != t {
                            let j = choose|j: int| 0 <= j < r@.len() && r@[j] == u;
                            assert(r0[j] == u);
                            assert(r0.contains(u));
                        } else {
                            assert(self.entries[i as int].token_id == u);
                        }
                    }
                    assert forall|u: TokenId| #[trigger] r@.contains(u) implies self@.contains(
                        (owner_id@, token_kind@, u),
                    ) by {
                        if u != t {
                            let j = choose|j: int| 0 <= j < r@.len() && r@[j] == u;
                            assert(r0[j] == u);
                            assert(r0.contains(u));
                        }
                    }
                    assert forall|k: int|
                        0 <= k < i + 1 && self.entries[k].owner_id@ == owner_id@
                            && self.entries[k].token_kind@ == token_kind@
                            implies #[trigger] r@.contains(
                        self.entries[k].token_id,
                    ) by {
                        if k < i {
                            assert(r0.contains(self.entries[k].token_id));
                            let j = choose|j: int|
                                0 <= j < r0.len() && r0[j] == self.entries[k].token_id;
                            assert(r@[j] == r0[j]);
                        }
                    }
                }
            }
            i = i + 1;
        }
        assert forall|t: TokenId|
            #[trigger] r@.contains(t) == self@.contains((owner_id@, token_kind@, t)) by {
            if self@.contains((owner_id@, token_kind@, t)) {
                assert(self.holds_at((owner_id@, token_kind@, t)));
            }
        }
        r
    }

    pub fn new() -> (r: KindIndex)
        ensures
            r.well_formed(),
            r@ == Set::<(Seq<char>, Seq<char>, TokenId)>::empty(),
    {
        let r = KindIndex { entries: Vec::new() };
        assert(r@ =~= Set::<(Seq<char>, Seq<char>, TokenId)>::empty());
        r
    }

    /// Adds `token_id` under `owner_id` and `token_kind`; the token must not
    /// be listed yet.
    pub fn add(&mut self, owner_id: &AccountId, token_kind: &String, token_id: TokenId)
        requires
            old(self).well_formed(),
            forall|o: Seq<char>, k: Seq<char>| !old(self)@.contains((o, k, token_id)),
        ensures
            final(self).well_formed(),
            final(self)@ == old(self)@.insert((owner_id@, token_kind@, token_id)),
    {
        let ghost pre = self.entries@;
        assert forall|i: int| 0 <= i < pre.len() implies pre[i].token_id != token_id by {
            assert(old(self).holds_at((pre[i].owner_id@, pre[i].token_kind@, pre[i].token_id)));
            assert(old(self)@.contains((pre[i].owner_id@, pre[i].token_kind@, pre[i].token_id)));
        }
        self.entries.push(KindEntry {
            owner_id: owner_id.clone(),
            token_kind: token_kind.clone(),
            token_id,
        });
        let ghost n = pre.len() as int;
        assert forall|p: (Seq<char>, Seq<char>, TokenId)| #[trigger] self@.contains(p)
            == old(self)@.insert((owner_id@, token_kind@, token_id)).contains(p) by {
            if self.holds_at(p) {
                let i = choose|i: int|
                    0 <= i < self.entries.len() && #[trigger] self.entries[i].owner_id@ == p.0
                        && self.entries[i].token_kind@ == p.1 && self.entries[i].token_id == p.2;
                if i < n {
                    assert(old(self).entries[i] == self.entries[i]);
                    assert(old(self).holds_at(p));
                }
            }
            if old(self).holds_at(p) {
                let i = choose|i: int|
                    0 <= i < old(self).entries.len() && #[trigger] old(self).entries[i].owner_id@ == p.0
                        && old(self).entries[i].token_kind@ == p.1
                        && old(self).entries[i].token_id == p.2;
                assert(self.entries[i] == old(self).entries[i]);
                assert(self.holds_at(p));
            }
            if p == (owner_id@, token_kind@, token_id) {
                assert(self.entries[n].owner_id@ == p.0 && self.entries[n].token_kind@ == p.1);
                assert(self.holds_at(p));
            }
        }
        assert(self@ =~= old(self)@.insert((owner_id@, token_kind@, token_id)));
    }

    /// Removes the membership of `token_id` under `owner_id` and `token_kind`;
    /// a no-op where there is none.
    pub fn remove(&mut self, owner_id: &AccountId, token_kind: &String, token_id: TokenId)
        requires
            old(self).well_formed(),
        ensures
            final(self).well_formed(),
            final(self)@ == old(self)@.remove((owner_id@, token_kind@, token_id)),
    {
        let mut i: usize = 0;
        while i < self.entries.len() && !(self.entries[i].token_id == token_id
            && self.entries[i].owner_id == *owner_id && self.entries[i].token_kind == *token_kind)
            invariant
                0 <= i <= self.entries.len(),
                self.entries@ == old(self).entries@,
                forall|k: int|
                    0 <= k < i ==> !(#[trigger] self.entries[k].owner_id@ == owner_id@
                        && self.entries[k].token_kind@ == token_kind@ && self.entries[k].token_id
                        == token_id),
            decreases self.entries.len() - i,
        {
            i = i + 1;
        }
        if i == self.entries.len() {
            assert forall|p: (Seq<char>, Seq<char>, TokenId)| #[trigger] self@.contains(p)
                == old(self)@.remove((owner_id@, token_kind@, token_id)).contains(p) by {
                if p == (owner_id@, token_kind@, token_id) {
                    assert(!self.holds_at(p));
                }
            }
            assert(self@ =~= old(self)@.remove((owner_id@, token_kind@, token_id)));
            return;
        }
        let ghost pre = self.entries@;
        let ghost at = i as int;
        assert(pre[at].token_id == token_id && pre[at].owner_id@ == owner_id@
            && pre[at].token_kind@ == token_kind@);
        self.entries.remove(i);
        assert(self.entries@ == pre.remove(at));
        assert forall|p: (Seq<char>, Seq<char>, TokenId)| #[trigger] self@.contains(p)
            == old(self)@.remove((owner_id@, token_kind@, token_id)).contains(p) by {
            if self.holds_at(p) {
                let j = choose|j: int|
                    0 <= j < self.entries.len() && #[trigger] self.entries[j].owner_id@ == p.0
                        && self.entries[j].token_kind@ == p.1 && self.entries[j].token_id == p.2;
                let k = if j < at {
                    j
                } else {
                    j + 1
                };
                assert(pre[k] == self.entries[j]);
                assert(old(self).entries[k].owner_id@ == p.0);
                assert(old(self).holds_at(p));
                assert(k != at);
                assert(old(self).entries[k].token_id != old(self).entries[at].token_id);
                assert(p != (owner_id@, token_kind@, token_id));
            }
            if old(self).holds_at(p) && p != (owner_id@, token_kind@, token_id) {
                let k = choose|k: int|
                    0 <= k < old(self).entries.len() && #[trigger] old(self).entries[k].owner_id@ == p.0
                        && old(self).entries[k].token_kind@ == p.1
                        && old(self).entries[k].token_id == p.2;
                if k == at {
                    assert(p == (owner_id@, token_kind@, token_id));
                }
                let j = if k < at {
                    k
                } else {
                    k - 1
                };
                assert(self.entries[j] == pre[k]);
                assert(self.entries[j].owner_id@ == p.0);
                assert(self.holds_at(p));
            }
        }
        assert(self@ =~= old(self)@.remove((owner_id@, token_kind@, token_id)));
        assert forall|a: int, b: int|
            0 <= a < self.entries.len() && 0 <= b < self.entries.len() && a != b
                implies #[trigger] self.entries[a].token_id != #[trigger] self.entries[b].token_id by {
            let ka = if a < at {
                a
            } else {
                a + 1
            };
            let kb = if b < at {
                b
            } else {
                b + 1
            };
            assert(self.entries[a] == pre[ka]);
            assert(self.entries[b] == pre[kb]);
        }
    }
}

} // verus!
