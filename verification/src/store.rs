use vstd::prelude::*;

use crate::errors::ServiceError;

verus! {

/// One persisted row: the owner's numeric id, the stored filename, the
/// deletion ticket that authorizes removing it, and the optional audio
/// metadata. Rows are write-once, delete-once; no update exists.
pub struct UploadRecord {
    pub owner: i16,
    pub filename: String,
    pub ticket: String,
    pub title: Option<String>,
    pub author: Option<String>,
}

/// What one row says, at the specification level.
pub struct RowData {
    pub owner: i16,
    pub filename: Seq<char>,
    pub title: Option<Seq<char>>,
    pub author: Option<Seq<char>>,
}

/// The specification-level content of a row.
pub open spec fn row_data(r: UploadRecord) -> RowData {
    RowData {
        owner: r.owner,
        filename: r.filename@,
        title: r.title.deep_view(),
        author: r.author.deep_view(),
    }
}

/// No two rows carry the same deletion ticket.
pub open spec fn tickets_unique(rows: Seq<UploadRecord>) -> bool {
    forall|p: int, q: int|
        0 <= p < q < rows.len() ==> (#[trigger] rows[p]).ticket@ != (#[trigger] rows[q]).ticket@
}

/// The rows as a map from deletion ticket to row content.
pub open spec fn as_map(rows: Seq<UploadRecord>) -> Map<Seq<char>, RowData>
    decreases rows.len(),
{
    if rows.len() == 0 {
        Map::empty()
    } else {
        as_map(rows.drop_last()).insert(rows.last().ticket@, row_data(rows.last()))
    }
}

/// A ticket is in the map exactly when some row carries it.
pub proof fn lemma_as_map_contains(rows: Seq<UploadRecord>, t: Seq<char>)
    ensures
        as_map(rows).contains_key(t) <==> exists|i: int|
            0 <= i < rows.len() && (#[trigger] rows[i]).ticket@ == t,
    decreases rows.len(),
{
    if rows.len() == 0 {
    } else {
        let dl = rows.drop_last();
        lemma_as_map_contains(dl, t);
        assert(forall|i: int| 0 <= i < dl.len() ==> dl[i] == rows[i]);
        if rows.last().ticket@ == t {
            assert(rows[rows.len() - 1].ticket@ == t);
        } else if exists|i: int| 0 <= i < dl.len() && (#[trigger] dl[i]).ticket@ == t {
            let i = choose|i: int| 0 <= i < dl.len() && (#[trigger] dl[i]).ticket@ == t;
            assert(rows[i].ticket@ == t);
        } else if exists|i: int| 0 <= i < rows.len() && (#[trigger] rows[i]).ticket@ == t {
            let i = choose|i: int| 0 <= i < rows.len() && (#[trigger] rows[i]).ticket@ == t;
            assert(i == rows.len() - 1 || dl[i].ticket@ == t);
        }
    }
}

/// With unique tickets, the map sends each row's ticket to that row's
/// content.
pub proof fn lemma_as_map_index(rows: Seq<UploadRecord>, i: int)
    requires
        tickets_unique(rows),
        0 <= i < rows.len(),
    ensures
        as_map(rows).contains_key(rows[i].ticket@),
        as_map(rows)[rows[i].ticket@] == row_data(rows[i]),
    decreases rows.len(),
{
    let dl = rows.drop_last();
    assert(forall|p: int| 0 <= p < dl.len() ==> dl[p] == rows[p]);
    if i == rows.len() - 1 {
    } else {
        lemma_as_map_index(dl, i);
        assert(rows[i].ticket@ != rows.last().ticket@);
    }
}

/// With unique tickets, removing the row at `i` removes exactly that
/// ticket's entry from the map.
pub proof fn lemma_as_map_remove(rows: Seq<UploadRecord>, i: int)
    requires
        tickets_unique(rows),
        0 <= i < rows.len(),
    ensures
        as_map(rows.remove(i)) == as_map(rows).remove(rows[i].ticket@),
    decreases rows.len(),
{
    let t = rows[i].ticket@;
    let dl = rows.drop_last();
    assert(forall|p: int| 0 <= p < dl.len() ==> dl[p] == rows[p]);
    if i == rows.len() - 1 {
        assert(rows.remove(i) =~= dl);
        lemma_as_map_contains(dl, t);
        assert(!as_map(dl).contains_key(t));
        assert(as_map(dl).insert(t, row_data(rows.last())).remove(t) =~= as_map(dl));
    } else {
        let r2 = rows.remove(i);
        assert(r2.drop_last() =~= dl.remove(i));
        assert(r2.last() == rows.last());
        lemma_as_map_remove(dl, i);
        assert(as_map(r2) == as_map(dl).remove(t).insert(rows.last().ticket@, row_data(rows.last())));
        assert(rows.last().ticket@ != t);
        assert(as_map(dl).remove(t).insert(rows.last().ticket@, row_data(rows.last())) =~= as_map(
            dl,
        ).insert(rows.last().ticket@, row_data(rows.last())).remove(t));
    }
}

/// Whether a deletion request for ticket `t` by owner `o` finds a row in a
/// store with content `m`.
pub open spec fn remove_hits(m: Map<Seq<char>, RowData>, t: Seq<char>, o: i16) -> bool {
    m.contains_key(t) && m[t].owner == o
}

/// The store content after an atomic find-and-delete of `(t, o)`: the entry
/// is gone when the request found it, and nothing changed otherwise.
pub open spec fn remove_result(m: Map<Seq<char>, RowData>, t: Seq<char>, o: i16) -> Map<
    Seq<char>,
    RowData,
> {
    if remove_hits(m, t, o) {
        m.remove(t)
    } else {
        m
    }
}

/// The durable mapping from deletion ticket to upload record. Tickets are
/// unique: the store refuses a duplicate insert, as a relational unique
/// constraint would.
pub struct RecordStore {
    pub rows: Vec<UploadRecord>,
}

impl View for RecordStore {
    type V = Map<Seq<char>, RowData>;

    open spec fn view(&self) -> Map<Seq<char>, RowData> {
        as_map(self.rows@)
    }
}

impl RecordStore {
    /// The store's invariant: no two rows share a deletion ticket.
    pub open spec fn wf(self) -> bool {
        tickets_unique(self.rows@)
    }

    /// An empty store.
    pub fn new() -> (s: Self)
        ensures
            s.wf(),
            s@ == Map::<Seq<char>, RowData>::empty(),
    {
        RecordStore { rows: Vec::new() }
    }

    /// Appends a new row. A duplicate ticket is refused as a storage error —
    /// the unique constraint on tickets — and leaves the store unchanged;
    /// otherwise the row is recorded under its ticket.
    pub fn insert(
        &mut self,
        owner: i16,
        filename: String,
        ticket: String,
        title: Option<String>,
        author: Option<String>,
    ) -> (r: Result<(), ServiceError>)
        requires
            old(self).wf(),
        ensures
            final(self).wf(),
            old(self)@.contains_key(ticket@) ==> r == Err::<(), ServiceError>(
                ServiceError::StorageUnavailable,
            ) && *final(self) == *old(self),
            !old(self)@.contains_key(ticket@) ==> r == Ok::<(), ServiceError>(()) && final(self)@
                == old(self)@.insert(
                ticket@,
                (RowData {
                    owner,
                    filename: filename@,
                    title: title.deep_view(),
                    author: author.deep_view(),
                }),
            ),
    {
        let ghost t = ticket@;
        let n = self.rows.len();
        let mut i: usize = 0;
        while i < n
            invariant
                n == self.rows@.len(),
                0 <= i <= n,
                forall|j: int| 0 <= j < i ==> (#[trigger] self.rows@[j]).ticket@ != t,
                t == ticket@,
                old(self).wf(),
                *self == *old(self),
            decreases n - i,
        {
            if self.rows[i].ticket == ticket {
                proof {
                    lemma_as_map_contains(self.rows@, t);
                }
                return Err(ServiceError::StorageUnavailable);
            }
            i += 1;
        }
        proof {
            lemma_as_map_contains(self.rows@, t);
        }
        let rec = UploadRecord { owner, filename, ticket, title, author };
        self.rows.push(rec);
        proof {
            assert(self.rows@.drop_last() =~= old(self).rows@);
            assert(forall|p: int| 0 <= p < old(self).rows@.len() ==> self.rows@[p] == old(
                self,
            ).rows@[p]);
        }
        Ok(())
    }

    /// Atomic find-and-delete: locates the row carrying `ticket` and owned by
    /// `owner` and removes it, returning its stored filename. A miss — wrong
    /// ticket, wrong owner, or already deleted — is `NotFound`, and the store
    /// is unchanged; the two cases are not distinguished further.
    pub fn remove_by_ticket_and_owner(&mut self, ticket: &String, owner: i16) -> (r: Result<
        String,
        ServiceError,
    >)
        requires
            old(self).wf(),
        ensures
            final(self).wf(),
            remove_hits(old(self)@, ticket@, owner) ==> (match r {
                Ok(f) => f@ == old(self)@[ticket@].filename && final(self)@ == old(self)@.remove(
                    ticket@,
                ),
                Err(_) => false,
            }),
            !remove_hits(old(self)@, ticket@, owner) ==> r == Err::<String, ServiceError>(
                ServiceError::NotFound,
            ) && *final(self) == *old(self),
            final(self)@ == remove_result(old(self)@, ticket@, owner),
    {
        let ghost t = ticket@;
        let n = self.rows.len();
        let mut i: usize = 0;
        while i < n
            invariant
                n == self.rows@.len(),
                0 <= i <= n,
                forall|j: int| 0 <= j < i ==> (#[trigger] self.rows@[j]).ticket@ != t,
                t == ticket@,
                old(self).wf(),
                *self == *old(self),
            decreases n - i,
        {
            if self.rows[i].ticket == *ticket {
                proof {
                    lemma_as_map_index(self.rows@, i as int);
                }
                if self.rows[i].owner == owner {
                    proof {
                        lemma_as_map_remove(self.rows@, i as int);
                        assert(tickets_unique(self.rows@.remove(i as int))) by {
                            let r2 = self.rows@.remove(i as int);
                            assert forall|p: int, q: int|
                                0 <= p < q < r2.len() implies (#[trigger] r2[p]).ticket@ != (
                            #[trigger] r2[q]).ticket@ by {
                                self.rows@.remove_ensures(i as int);
                            }
                        }
                    }
                    let rec = self.rows.remove(i);
                    return Ok(rec.filename);
                } else {
                    return Err(ServiceError::NotFound);
                }
            }
            i += 1;
        }
        proof {
            lemma_as_map_contains(self.rows@, t);
        }
        Err(ServiceError::NotFound)
    }
}

/// Deletion is idempotent in effect: once a deletion for `(t, o)` has found
/// its row, the row is gone, so any later deletion for the same pair misses;
/// and a deletion that misses changes nothing.
pub proof fn lemma_delete_idempotent(m: Map<Seq<char>, RowData>, t: Seq<char>, o: i16)
    ensures
        remove_hits(m, t, o) ==> !remove_hits(remove_result(m, t, o), t, o),
        !remove_hits(m, t, o) ==> remove_result(m, t, o) == m,
{
}

/// Once a deletion for `(t, o)` hits, every later state in a chain of
/// deletions for the same pair misses.
proof fn lemma_no_hit_after(
    ms: Seq<Map<Seq<char>, RowData>>,
    t: Seq<char>,
    o: i16,
    i: int,
    k: int,
)
    requires
        forall|p: int| 0 <= p < ms.len() - 1 ==> ms[p + 1] == remove_result(#[trigger] ms[p], t, o),
        0 <= i < k < ms.len(),
        remove_hits(ms[i], t, o),
    ensures
        !remove_hits(ms[k], t, o),
    decreases k - i,
{
    if k == i + 1 {
        assert(ms[i + 1] == remove_result(ms[i], t, o));
    } else {
        if remove_hits(ms[i + 1], t, o) {
            assert(ms[i + 1] == remove_result(ms[i], t, o));
            assert(false);
        }
        assert(ms[k - 1 + 1] == remove_result(ms[k - 1], t, o));
        if remove_hits(ms[k - 1], t, o) {
            lemma_no_hit_after(ms, t, o, i, k - 1);
        }
    }
}

/// Among any chain of deletion requests for the same ticket and owner —
/// every serialization of concurrent requests is such a chain, because
/// find-and-delete is atomic — at most one finds the row; all others miss.
pub proof fn lemma_delete_exclusive(
    ms: Seq<Map<Seq<char>, RowData>>,
    t: Seq<char>,
    o: i16,
    i: int,
    j: int,
)
    requires
        forall|p: int| 0 <= p < ms.len() - 1 ==> ms[p + 1] == remove_result(#[trigger] ms[p], t, o),
        0 <= i < ms.len() - 1,
        0 <= j < ms.len() - 1,
        remove_hits(ms[i], t, o),
        remove_hits(ms[j], t, o),
    ensures
        i == j,
{
    if i < j {
        lemma_no_hit_after(ms, t, o, i, j);
    } else if j < i {
        lemma_no_hit_after(ms, t, o, j, i);
    }
}

} // verus!
