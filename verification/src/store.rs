//! The token store adapter: an in-memory model of the relational table of
//! issued tokens.
//!
//! The store owns row lifetime. Rows are created by the issuer, read by the
//! verifier and the expiration scheduler, and deleted when a scheduled
//! deletion fires. Deleting an id that is no longer present affects zero rows
//! and counts as success, which keeps concurrent sweeps idempotent.

use vstd::prelude::*;

use crate::errors::ErrorKind;

verus! {

/// A token record as persisted: the opaque signed content and its times, in
/// unix seconds.
#[derive(Clone, Debug)]
pub struct Token {
    pub content: String,
    pub created_at: i64,
    pub expires: i64,
}

/// The mathematical value of one stored row: the assigned id and the record.
pub struct TokenRowView {
    pub id: int,
    pub content: Seq<char>,
    pub created_at: int,
    pub expires: int,
}

/// The row that storing `t` under `id` yields.
pub open spec fn row_of(id: int, t: Token) -> TokenRowView {
    TokenRowView {
        id,
        content: t.content@,
        created_at: t.created_at as int,
        expires: t.expires as int,
    }
}

/// Whether the rows carry pairwise distinct ids.
pub open spec fn unique_ids(rows: Seq<TokenRowView>) -> bool {
    forall|i: int, j: int|
        #![trigger rows[i].id, rows[j].id]
        0 <= i < j < rows.len() ==> rows[i].id != rows[j].id
}

/// Whether some row carries the given id.
pub open spec fn contains_id(rows: Seq<TokenRowView>, id: int) -> bool {
    exists|i: int| 0 <= i < rows.len() && #[trigger] rows[i].id == id
}

/// The position of the row carrying the given id.
pub open spec fn index_of_id(rows: Seq<TokenRowView>, id: int) -> int {
    choose|i: int| 0 <= i < rows.len() && #[trigger] rows[i].id == id
}

/// The row carrying the given id.
pub open spec fn row_for_id(rows: Seq<TokenRowView>, id: int) -> TokenRowView {
    rows[index_of_id(rows, id)]
}

/// The rows after deleting the given id: unchanged when the id is absent.
pub open spec fn remove_id(rows: Seq<TokenRowView>, id: int) -> Seq<TokenRowView> {
    if contains_id(rows, id) {
        rows.remove(index_of_id(rows, id))
    } else {
        rows
    }
}

/// Removing an id from rows with pairwise distinct ids removes it for good:
/// a second deletion of the same id finds nothing and changes nothing.
pub proof fn lemma_remove_id_removes(rows: Seq<TokenRowView>, id: int)
    requires
        unique_ids(rows),
    ensures
        !contains_id(remove_id(rows, id), id),
        remove_id(remove_id(rows, id), id) == remove_id(rows, id),
{
    if contains_id(rows, id) {
        let k = index_of_id(rows, id);
        let rest = rows.remove(k);
        if contains_id(rest, id) {
            let j = index_of_id(rest, id);
            if j < k {
                assert(rows[j].id == id);
            } else {
                assert(rows[j + 1].id == id);
            }
        }
    }
}

/// The store of issued tokens, keyed by an id the store assigns.
pub struct TokenStore {
    rows: Vec<(i32, Token)>,
    next_id: i32,
}

impl View for TokenStore {
    type V = Seq<TokenRowView>;

    closed spec fn view(&self) -> Seq<TokenRowView> {
        Seq::new(self.rows@.len(), |i: int| row_of(self.rows@[i].0 as int, self.rows@[i].1))
    }
}

impl TokenStore {
    #[verifier::type_invariant]
    spec fn wf(self) -> bool {
        &&& 0 < self.next_id
        &&& forall|i: int|
            0 <= i < self.rows@.len() ==> 0 < #[trigger] self.rows@[i].0 < self.next_id
        &&& forall|i: int, j: int|
            #![trigger self.rows@[i].0, self.rows@[j].0]
            0 <= i < j < self.rows@.len() ==> self.rows@[i].0 != self.rows@[j].0
    }

    /// The id the next successful insert will be assigned.
    pub closed spec fn spec_next_id(&self) -> int {
        self.next_id as int
    }

    /// Whether the store can still assign an id to another row.
    pub open spec fn has_room(&self) -> bool {
        self.spec_next_id() < i32::MAX as int
    }

    /// An empty store; ids are assigned from 1 upward.
    pub fn new() -> (s: TokenStore)
        ensures
            s@ == Seq::<TokenRowView>::empty(),
            s.spec_next_id() == 1,
    {
        let s = TokenStore { rows: Vec::new(), next_id: 1 };
        proof {
            assert(s@ =~= Seq::<TokenRowView>::empty());
        }
        s
    }

    /// The number of stored rows.
    pub fn len(&self) -> (n: usize)
        ensures
            n == self@.len(),
    {
        self.rows.len()
    }

    /// Persist a record; the store assigns and returns the generated id.
    /// Fails with `StorageFailure` exactly when the id space is exhausted.
    pub fn insert(&mut self, token: Token) -> (r: Result<i32, ErrorKind>)
        ensures
            old(self).has_room() ==> r is Ok && r->Ok_0 == old(self).spec_next_id()
                && final(self)@ == old(self)@.push(row_of(old(self).spec_next_id(), token))
                && final(self).spec_next_id() == old(self).spec_next_id() + 1
                && !contains_id(old(self)@, old(self).spec_next_id()),
            !old(self).has_room() ==> r == Err::<i32, ErrorKind>(ErrorKind::StorageFailure)
                && *final(self) == *old(self),
    {
        proof {
            use_type_invariant(&*self);
        }
        if self.next_id < i32::MAX {
            let id = self.next_id;
            let mut rows: Vec<(i32, Token)> = Vec::new();
            core::mem::swap(&mut rows, &mut self.rows);
            rows.push((id, token));
            self.next_id = id + 1;
            proof {
                let prev = old(self).rows@;
                assert(rows@ =~= prev.push((id, token)));
                assert forall|j: int| 0 <= j < rows@.len() implies 0 < (#[trigger] rows@[j]).0
                    < id + 1 by {
                    if j < prev.len() {
                        assert(0 < prev[j].0 < id);
                        assert(rows@[j] == prev[j]);
                    }
                }
                assert forall|j: int, k: int|
                    #![trigger rows@[j].0, rows@[k].0]
                    0 <= j < k < rows@.len() implies rows@[j].0 != rows@[k].0 by {
                    if k < prev.len() {
                        assert(rows@[j] == prev[j] && rows@[k] == prev[k]);
                    } else {
                        assert(j < prev.len() && rows@[j] == prev[j]);
                    }
                }
            }
            self.rows = rows;
            proof {
                assert(self@ =~= old(self)@.push(row_of(id as int, token)));
            }
            Ok(id)
        } else {
            Err(ErrorKind::StorageFailure)
        }
    }

    /// Look up the stored record for an id, or `None` when no row carries it.
    pub fn find_by_id(&self, id: i32) -> (r: Option<Token>)
        ensures
            contains_id(self@, id as int) ==> (r matches Some(t) && row_of(id as int, t)
                == row_for_id(self@, id as int)),
            !contains_id(self@, id as int) ==> r is None,
    {
        proof {
            use_type_invariant(self);
        }
        let n = self.rows.len();
        let mut i: usize = 0;
        while i < n
            invariant
                n == self.rows@.len(),
                0 <= i <= n,
                forall|j: int| 0 <= j < i ==> #[trigger] self.rows@[j].0 != id,
                unique_ids(self@),
                self@.len() == self.rows@.len(),
                forall|j: int| 0 <= j < self@.len() ==> #[trigger] self@[j]
                    == row_of(self.rows@[j].0 as int, self.rows@[j].1),
            decreases n - i,
        {
            let row = &self.rows[i];
            if row.0 == id {
                let found = Token {
                    content: row.1.content.clone(),
                    created_at: row.1.created_at,
                    expires: row.1.expires,
                };
                proof {
                    assert(self@[i as int].id == id as int);
                    let k = index_of_id(self@, id as int);
                    assert(self@[k].id == id as int);
                    assert(k == i as int);
                }
                return Some(found);
            }
            i = i + 1;
        }
        proof {
            if contains_id(self@, id as int) {
                let k = index_of_id(self@, id as int);
                assert(self.rows@[k].0 == id);
            }
        }
        None
    }

    /// All rows, projected to id and expiry, in storage order.
    pub fn select_all(&self) -> (r: Vec<(i32, i64)>)
        ensures
            r@.len() == self@.len(),
            forall|i: int|
                #![trigger r@[i]]
                0 <= i < r@.len() ==> r@[i].0 == self@[i].id && r@[i].1 == self@[i].expires,
    {
        let n = self.rows.len();
        let mut out: Vec<(i32, i64)> = Vec::new();
        let mut i: usize = 0;
        while i < n
            invariant
                n == self.rows@.len(),
                self@.len() == n,
                0 <= i <= n,
                out@.len() == i,
                forall|j: int|
                    #![trigger out@[j]]
                    0 <= j < i ==> out@[j].0 == self@[j].id && out@[j].1 == self@[j].expires,
                forall|j: int| 0 <= j < self@.len() ==> #[trigger] self@[j]
                    == row_of(self.rows@[j].0 as int, self.rows@[j].1),
            decreases n - i,
        {
            let row = &self.rows[i];
            out.push((row.0, row.1.expires));
            i = i + 1;
        }
        out
    }

    /// Delete the row carrying the given id and report how many rows were
    /// affected. Deleting an absent id affects zero rows and is not an error.
    pub fn delete_by_id(&mut self, id: i32) -> (n: usize)
        ensures
            final(self)@ == remove_id(old(self)@, id as int),
            contains_id(old(self)@, id as int) ==> n == 1,
            !contains_id(old(self)@, id as int) ==> n == 0,
            !contains_id(final(self)@, id as int),
            final(self).spec_next_id() == old(self).spec_next_id(),
    {
        proof {
            use_type_invariant(&*self);
            assert(unique_ids(self@));
        }
        let ghost pre = self@;
        let n = self.rows.len();
        let mut i: usize = 0;
        while i < n
            invariant
                n == self.rows@.len(),
                0 <= i <= n,
                pre == self@,
                pre == old(self)@,
                self.next_id == old(self).next_id,
                unique_ids(pre),
                forall|j: int| 0 <= j < i ==> #[trigger] self.rows@[j].0 != id,
                forall|j: int| 0 <= j < self@.len() ==> #[trigger] self@[j]
                    == row_of(self.rows@[j].0 as int, self.rows@[j].1),
            decreases n - i,
        {
            if self.rows[i].0 == id {
                proof {
                    assert(self@[i as int].id == id as int);
                    let k = index_of_id(self@, id as int);
                    assert(self@[k].id == id as int);
                    assert(k == i as int);
                    use_type_invariant(&*self);
                }
                let mut rows: Vec<(i32, Token)> = Vec::new();
                core::mem::swap(&mut rows, &mut self.rows);
                rows.remove(i);
                self.rows = rows;
                proof {
                    assert(self@ =~= pre.remove(i as int));
                    lemma_remove_id_removes(pre, id as int);
                }
                return 1;
            }
            i = i + 1;
        }
        proof {
            if contains_id(self@, id as int) {
                let k = index_of_id(self@, id as int);
                assert(self.rows@[k].0 == id);
            }
        }
        0
    }

    /// Law: deleting the same id twice is idempotent. Whatever the first
    /// deletion did, the second finds no row, affects zero rows, and leaves
    /// the store as the first deletion left it — so concurrent sweeps that
    /// race to delete the same row cannot fail on it.
    pub fn duplicate_delete_is_harmless(&mut self, id: i32) -> (r: (usize, usize))
        ensures
            final(self)@ == remove_id(old(self)@, id as int),
            r.1 == 0,
    {
        let first = self.delete_by_id(id);
        let second = self.delete_by_id(id);
        (first, second)
    }
}

} // verus!
