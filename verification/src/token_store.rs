//! The token store: the map from client id to its credential record.
//!
//! All handlers share one store. A caller takes a copy of the token it
//! needs and lets go of the store before doing any I/O with it.
use vstd::prelude::*;

use crate::types::Token;

verus! {

/// One entry of the store.
pub struct TokenEntry {
    pub client_id: String,
    pub token: Token,
}

/// The position of the first entry for `id`, if any.
pub open spec fn spec_find_index(s: Seq<TokenEntry>, id: Seq<char>) -> Option<int>
    decreases s.len(),
{
    if s.len() == 0 {
        None
    } else if s[0].client_id@ == id {
        Some(0)
    } else {
        match spec_find_index(s.drop_first(), id) {
            None => None,
            Some(i) => Some(i + 1),
        }
    }
}

/// The token stored for `id`, if any.
pub open spec fn spec_find(s: Seq<TokenEntry>, id: Seq<char>) -> Option<Token> {
    match spec_find_index(s, id) {
        None => None,
        Some(i) => Some(s[i].token),
    }
}

/// The store after `insert`: the first entry for the id replaced, or a
/// new entry appended.
pub open spec fn spec_insert(s: Seq<TokenEntry>, e: TokenEntry) -> Seq<TokenEntry> {
    match spec_find_index(s, e.client_id@) {
        Some(i) => s.update(i, e),
        None => s.push(e),
    }
}

/// A found index is in range and holds the id searched for, and no
/// earlier entry does.
pub proof fn lemma_find_index_props(s: Seq<TokenEntry>, id: Seq<char>)
    ensures
        (spec_find_index(s, id) matches Some(i) ==> 0 <= i < s.len() && s[i].client_id@ == id
            && (forall|j: int| 0 <= j < i ==> (#[trigger] s[j]).client_id@ != id)),
        spec_find_index(s, id) is None ==> (forall|j: int|
            0 <= j < s.len() ==> (#[trigger] s[j]).client_id@ != id),
    decreases s.len(),
{
    if s.len() > 0 && s[0].client_id@ != id {
        let d = s.drop_first();
        lemma_find_index_props(d, id);
        match spec_find_index(d, id) {
            Some(i2) => {
                assert(s[i2 + 1] == d[i2]);
                assert forall|j: int| 0 <= j < i2 + 1 implies (#[trigger] s[j]).client_id@
                    != id by {
                    if j > 0 {
                        assert(s[j] == d[j - 1]);
                    }
                };
            },
            None => {
                assert forall|j: int| 0 <= j < s.len() implies (#[trigger] s[j]).client_id@
                    != id by {
                    if j > 0 {
                        assert(s[j] == d[j - 1]);
                    }
                };
            },
        }
    }
}

/// When the head is not the id looked for, the lookup is the lookup in
/// the tail.
pub proof fn lemma_find_unfold(s: Seq<TokenEntry>, id: Seq<char>)
    requires
        s.len() > 0,
        s[0].client_id@ != id,
    ensures
        spec_find(s, id) == spec_find(s.drop_first(), id),
{
    let d = s.drop_first();
    match spec_find_index(d, id) {
        Some(i) => {
            assert(spec_find_index(s, id) == Some(i + 1));
            lemma_find_index_props(d, id);
            assert(s[i + 1] == d[i]);
        },
        None => {
            assert(spec_find_index(s, id) is None);
        },
    }
}

/// Looking anything up after an insert: the inserted id maps to the
/// new token, every other id maps to what it mapped to before.
pub proof fn lemma_insert_find(s: Seq<TokenEntry>, e: TokenEntry, id: Seq<char>)
    ensures
        spec_find(spec_insert(s, e), e.client_id@) == Some(e.token),
        id != e.client_id@ ==> spec_find(spec_insert(s, e), id) == spec_find(s, id),
    decreases s.len(),
{
    let t = spec_insert(s, e);
    if s.len() == 0 {
        assert(t =~= seq![e]);
        assert(seq![e].drop_first() =~= Seq::<TokenEntry>::empty());
        assert(spec_find_index(t, e.client_id@) == Some(0int));
        if id != e.client_id@ {
            assert(spec_find_index(Seq::<TokenEntry>::empty(), id) is None);
            assert(spec_find_index(t, id) is None);
        }
    } else if s[0].client_id@ == e.client_id@ {
        assert(t =~= s.update(0, e));
        assert(t[0] == e);
        assert(spec_find_index(t, e.client_id@) == Some(0int));
        if id != e.client_id@ {
            assert(t.drop_first() =~= s.drop_first());
            lemma_find_unfold(t, id);
            lemma_find_unfold(s, id);
        }
    } else {
        lemma_insert_find(s.drop_first(), e, id);
        lemma_find_index_props(s, e.client_id@);
        match spec_find_index(s, e.client_id@) {
            Some(i) => {
                assert(spec_find_index(s.drop_first(), e.client_id@) == Some(i - 1));
                assert(t =~= s.update(i, e));
                assert(t.drop_first() =~= s.drop_first().update(i - 1, e));
                assert(t.drop_first() =~= spec_insert(s.drop_first(), e));
            },
            None => {
                assert(spec_find_index(s.drop_first(), e.client_id@) is None);
                assert(t =~= s.push(e));
                assert(t.drop_first() =~= s.drop_first().push(e));
                assert(t.drop_first() =~= spec_insert(s.drop_first(), e));
            },
        }
        assert(t[0] == s[0]);
        assert(t.len() > 0);
        lemma_find_unfold(t, e.client_id@);
        assert(spec_find(t, e.client_id@) == Some(e.token));
        if id != e.client_id@ {
            if s[0].client_id@ == id {
                assert(spec_find_index(t, id) == Some(0int));
                assert(spec_find_index(s, id) == Some(0int));
            } else {
                lemma_find_unfold(t, id);
                lemma_find_unfold(s, id);
            }
        }
    }
}

/// Inserting the same record twice changes nothing after the first
/// time: the store converges.
pub proof fn lemma_insert_idempotent(s: Seq<TokenEntry>, e: TokenEntry)
    ensures
        spec_insert(spec_insert(s, e), e) == spec_insert(s, e),
{
    let t = spec_insert(s, e);
    lemma_find_index_props(s, e.client_id@);
    match spec_find_index(s, e.client_id@) {
        Some(i) => {
            assert(t =~= s.update(i, e));
            assert(spec_find_index(t, e.client_id@) == Some(i)) by {
                lemma_find_index_stable(s, e, i);
            };
            assert(spec_insert(t, e) =~= t.update(i, e));
            assert(t.update(i, e) =~= t);
        },
        None => {
            assert(t =~= s.push(e));
            assert(spec_find_index(t, e.client_id@) == Some(s.len() as int)) by {
                lemma_find_index_push(s, e);
            };
            assert(spec_insert(t, e) =~= t.update(s.len() as int, e));
            assert(t.update(s.len() as int, e) =~= t);
        },
    }
}

/// Replacing the entry at the first index for an id keeps that index
/// first for the id.
proof fn lemma_find_index_stable(s: Seq<TokenEntry>, e: TokenEntry, i: int)
    requires
        spec_find_index(s, e.client_id@) == Some(i),
    ensures
        spec_find_index(s.update(i, e), e.client_id@) == Some(i),
    decreases s.len(),
{
    lemma_find_index_props(s, e.client_id@);
    if i == 0 {
        assert(s.update(0, e)[0] == e);
    } else {
        assert(s.update(i, e)[0] == s[0]);
        assert(s.update(i, e).drop_first() =~= s.drop_first().update(i - 1, e));
        assert(spec_find_index(s.drop_first(), e.client_id@) == Some(i - 1));
        lemma_find_index_stable(s.drop_first(), e, i - 1);
    }
}

/// Appending an entry for an absent id makes its index the old length.
proof fn lemma_find_index_push(s: Seq<TokenEntry>, e: TokenEntry)
    requires
        spec_find_index(s, e.client_id@) is None,
    ensures
        spec_find_index(s.push(e), e.client_id@) == Some(s.len() as int),
    decreases s.len(),
{
    if s.len() == 0 {
        assert(s.push(e)[0] == e);
    } else {
        assert(s.push(e)[0] == s[0]);
        assert(s.push(e).drop_first() =~= s.drop_first().push(e));
        lemma_find_index_push(s.drop_first(), e);
    }
}

/// The shared map from client id to credential record.
pub struct TokenStore {
    entries: Vec<TokenEntry>,
}

impl TokenStore {
    /// What the store holds.
    pub closed spec fn view(&self) -> Seq<TokenEntry> {
        self.entries@
    }

    /// An empty store.
    pub fn new() -> (r: TokenStore)
        ensures
            r@ == Seq::<TokenEntry>::empty(),
    {
        let r = TokenStore { entries: Vec::new() };
        proof {
            assert(r@ =~= Seq::<TokenEntry>::empty());
        }
        r
    }

    /// A copy of the token stored for `client_id`, if any.
    pub fn get(&self, client_id: &String) -> (r: Option<Token>)
        ensures
            r == spec_find(self@, client_id@),
    {
        let mut i: usize = 0;
        while i < self.entries.len()
            invariant
                0 <= i <= self.entries.len(),
                forall|j: int| 0 <= j < i ==> (#[trigger] self.entries@[j]).client_id@ != client_id@,
            decreases self.entries.len() - i,
        {
            if self.entries[i].client_id.eq(client_id) {
                proof {
                    lemma_find_first(self@, client_id@, i as int);
                }
                return Some(self.entries[i].token.clone());
            }
            i += 1;
        }
        proof {
            lemma_find_none(self@, client_id@);
        }
        None
    }

    /// Store `token` for `client_id`, replacing any token it had.
    pub fn insert(&mut self, client_id: String, token: Token)
        ensures
            final(self)@ == spec_insert(old(self)@, TokenEntry { client_id, token }),
    {
        let ghost e = TokenEntry { client_id: client_id, token: token };
        let mut i: usize = 0;
        while i < self.entries.len()
            invariant
                0 <= i <= self.entries.len(),
                self.entries@ == old(self).entries@,
                forall|j: int| 0 <= j < i ==> (#[trigger] self.entries@[j]).client_id@ != client_id@,
            decreases self.entries.len() - i,
        {
            if self.entries[i].client_id.eq(&client_id) {
                proof {
                    lemma_find_first(self@, client_id@, i as int);
                }
                self.entries[i] = TokenEntry { client_id, token };
                return ;
            }
            i += 1;
        }
        proof {
            lemma_find_none(self@, client_id@);
        }
        self.entries.push(TokenEntry { client_id, token });
    }
}

/// If nothing before position `i` holds the id and position `i` does,
/// then `i` is the found index.
proof fn lemma_find_first(s: Seq<TokenEntry>, id: Seq<char>, i: int)
    requires
        0 <= i < s.len(),
        s[i].client_id@ == id,
        forall|j: int| 0 <= j < i ==> (#[trigger] s[j]).client_id@ != id,
    ensures
        spec_find_index(s, id) == Some(i),
    decreases s.len(),
{
    if i > 0 {
        lemma_find_first(s.drop_first(), id, i - 1);
    }
}

/// If no position holds the id, nothing is found.
proof fn lemma_find_none(s: Seq<TokenEntry>, id: Seq<char>)
    requires
        forall|j: int| 0 <= j < s.len() ==> (#[trigger] s[j]).client_id@ != id,
    ensures
        spec_find_index(s, id) is None,
    decreases s.len(),
{
    if s.len() > 0 {
        lemma_find_none(s.drop_first(), id);
    }
}

} // verus!
