//! An in-memory registry of named, fixed-size 2D grids of text cells
//! ("tables"), offering creation, snapshot reads, and bounds-checked
//! single-cell mutation, plus a lock-guarded shared wrapper for use by
//! concurrent request handlers.

pub mod application;
pub mod model;

use vstd::prelude::*;

verus! {

pub use crate::model::Table;
pub use crate::model::TableError;
pub use crate::model::TableView;

/// The identifier-keyed collection of tables. It owns every table it
/// holds; callers only ever see snapshots, and every mutation goes
/// through its operations. Its mathematical value is the map from table
/// identifier to [`TableView`].
pub struct TableService {
    tables: Vec<Table>,
}

impl View for TableService {
    type V = Map<Seq<char>, TableView>;

    closed spec fn view(&self) -> Map<Seq<char>, TableView> {
        Map::new(
            |id: Seq<char>| self.has_id(id),
            |id: Seq<char>| self.tables@[self.idx_of(id)]@,
        )
    }
}

impl TableService {
    /// Some held table carries the identifier `id`.
    spec fn has_id(self, id: Seq<char>) -> bool {
        exists|i: int| 0 <= i < self.tables@.len() && self.tables@[i]@.id == id
    }

    /// The position of the table carrying `id`; meaningful only under
    /// `inv`, which makes identifiers unique.
    spec fn idx_of(self, id: Seq<char>) -> int {
        choose|i: int| 0 <= i < self.tables@.len() && self.tables@[i]@.id == id
    }

    /// Every held table is a rectangular grid, and no two held tables
    /// share an identifier.
    pub closed spec fn inv(self) -> bool {
        &&& forall|i: int| 0 <= i < self.tables@.len() ==> (#[trigger] self.tables@[i])@.wf()
        &&& forall|i: int, j: int|
            0 <= i < j < self.tables@.len() ==> self.tables@[i]@.id != self.tables@[j]@.id
    }

    /// Under `inv`, the table at position `i` is exactly the registry
    /// entry for its own identifier.
    proof fn lemma_entry_at(self, i: int)
        requires
            self.inv(),
            0 <= i < self.tables@.len(),
        ensures
            self.has_id(self.tables@[i]@.id),
            self.idx_of(self.tables@[i]@.id) == i,
            self@.contains_key(self.tables@[i]@.id),
            self@[self.tables@[i]@.id] == self.tables@[i]@,
    {
        let id = self.tables@[i]@.id;
        assert(0 <= i < self.tables@.len() && self.tables@[i]@.id == id);
        let j = self.idx_of(id);
        assert(0 <= j < self.tables@.len() && self.tables@[j]@.id == id);
        if i != j {
            if i < j {
                assert(self.tables@[i]@.id != self.tables@[j]@.id);
            } else {
                assert(self.tables@[j]@.id != self.tables@[i]@.id);
            }
        }
    }

    /// Every registry entry is a rectangular grid carrying its own key as
    /// its identifier.
    pub proof fn lemma_entries_wf(self)
        requires
            self.inv(),
        ensures
            forall|id: Seq<char>|
                self@.contains_key(id) ==> (#[trigger] self@[id]).wf() && self@[id].id == id,
    {
        assert forall|id: Seq<char>| self@.contains_key(id) implies (#[trigger] self@[id]).wf()
            && self@[id].id == id by {
            let i = self.idx_of(id);
            assert(0 <= i < self.tables@.len() && self.tables@[i]@.id == id);
            assert(self.tables@[i]@.wf());
        }
    }

    /// Replacing the table at position `i` by one carrying the same
    /// identifier keeps the invariant and overwrites that identifier's
    /// registry entry, leaving every other entry as it was.
    proof fn lemma_update_entry(pre: TableService, post: TableService, i: int, t: Table)
        requires
            pre.inv(),
            0 <= i < pre.tables@.len(),
            post.tables@ == pre.tables@.update(i, t),
            t@.id == pre.tables@[i]@.id,
            t@.wf(),
        ensures
            post.inv(),
            post@ == pre@.insert(t@.id, t@),
    {
        assert forall|m: int| 0 <= m < post.tables@.len() implies (#[trigger] post.tables@[m])@.wf()
            && post.tables@[m]@.id == pre.tables@[m]@.id by {
            if m != i {
                assert(post.tables@[m] == pre.tables@[m]);
            }
        }
        assert(post.inv());
        assert forall|k: Seq<char>| #[trigger] post@.contains_key(k) == pre@.insert(
            t@.id,
            t@,
        ).contains_key(k) && (post@.contains_key(k) ==> post@[k] == pre@.insert(t@.id, t@)[k]) by {
            if k == t@.id {
                pre.lemma_entry_at(i);
                post.lemma_entry_at(i);
            } else {
                if pre.has_id(k) {
                    let j = pre.idx_of(k);
                    assert(0 <= j < pre.tables@.len() && pre.tables@[j]@.id == k);
                    pre.lemma_entry_at(j);
                    post.lemma_entry_at(j);
                } else {
                    assert(!post.has_id(k)) by {
                        if post.has_id(k) {
                            let j = post.idx_of(k);
                            assert(0 <= j < post.tables@.len() && post.tables@[j]@.id == k);
                            assert(pre.tables@[j]@.id == k);
                        }
                    }
                }
            }
        }
        assert(post@ =~= pre@.insert(t@.id, t@));
    }

    /// Appending a table whose identifier no held table carries keeps the
    /// invariant and adds exactly one registry entry.
    proof fn lemma_push_entry(pre: TableService, post: TableService, t: Table)
        requires
            pre.inv(),
            !pre.has_id(t@.id),
            post.tables@ == pre.tables@.push(t),
            t@.wf(),
        ensures
            post.inv(),
            post@ == pre@.insert(t@.id, t@),
    {
        let n = pre.tables@.len() as int;
        assert forall|m: int| 0 <= m < post.tables@.len() implies (#[trigger] post.tables@[m])@.wf()
            by {
            if m < n {
                assert(post.tables@[m] == pre.tables@[m]);
            }
        }
        assert forall|m: int, j: int| 0 <= m < j < post.tables@.len() implies post.tables@[m]@.id
            != post.tables@[j]@.id by {
            if j < n {
                assert(post.tables@[m] == pre.tables@[m]);
                assert(post.tables@[j] == pre.tables@[j]);
            } else {
                assert(post.tables@[j] == t);
                assert(post.tables@[m] == pre.tables@[m]);
                assert(!(0 <= m < pre.tables@.len() && pre.tables@[m]@.id == t@.id));
            }
        }
        assert(post.inv());
        assert forall|k: Seq<char>| #[trigger] post@.contains_key(k) == pre@.insert(
            t@.id,
            t@,
        ).contains_key(k) && (post@.contains_key(k) ==> post@[k] == pre@.insert(t@.id, t@)[k]) by {
            if k == t@.id {
                assert(post.tables@[n]@.id == k);
                post.lemma_entry_at(n);
            } else {
                if pre.has_id(k) {
                    let j = pre.idx_of(k);
                    assert(0 <= j < pre.tables@.len() && pre.tables@[j]@.id == k);
                    pre.lemma_entry_at(j);
                    assert(post.tables@[j]@.id == k);
                    post.lemma_entry_at(j);
                } else {
                    assert(!post.has_id(k)) by {
                        if post.has_id(k) {
                            let j = post.idx_of(k);
                            assert(0 <= j < post.tables@.len() && post.tables@[j]@.id == k);
                            assert(j < n ==> pre.tables@[j]@.id == k);
                        }
                    }
                }
            }
        }
        assert(post@ =~= pre@.insert(t@.id, t@));
    }

    /// The position of the table carrying `id`, or `None` exactly when no
    /// held table carries it.
    fn find_index(&self, id: &String) -> (r: Option<usize>)
        ensures
            (match r {
                Some(i) => i < self.tables@.len() && self.tables@[i as int]@.id == id@,
                None => !self.has_id(id@),
            }),
    {
        let mut k: usize = 0;
        while k < self.tables.len()
            invariant
                k <= self.tables@.len(),
                forall|m: int| 0 <= m < k ==> (#[trigger] self.tables@[m])@.id != id@,
            decreases self.tables@.len() - k,
        {
            if self.tables[k].id == *id {
                return Some(k);
            }
            k += 1;
        }
        None
    }

    /// An empty registry: no table is reachable under any identifier.
    pub fn new() -> (s: TableService)
        ensures
            s.inv(),
            s@ == Map::<Seq<char>, TableView>::empty(),
    {
        let s = TableService { tables: Vec::new() };
        proof {
            assert(s@ =~= Map::<Seq<char>, TableView>::empty());
        }
        s
    }

    /// Returns a snapshot of the table registered under `id`, or
    /// `NotFound` exactly when no table carries that identifier. Read
    /// only: the registry is unchanged.
    pub fn get_table(&self, id: String) -> (r: Result<Table, TableError>)
        requires
            self.inv(),
        ensures
            self@.contains_key(id@) ==> (r matches Ok(t) && t@ == self@[id@] && t@.wf()
                && t@.id == id@),
            !self@.contains_key(id@) ==> r == Err::<Table, TableError>(TableError::NotFound),
    {
        match self.find_index(&id) {
            Some(i) => {
                proof {
                    self.lemma_entry_at(i as int);
                }
                Ok(self.tables[i].clone())
            },
            None => Err(TableError::NotFound),
        }
    }

    /// Registers a fresh all-empty table of the requested dimensions under
    /// `dto.id`, silently replacing any table already carrying that
    /// identifier, and returns a snapshot of the fresh table. Never fails.
    pub fn create_table(&mut self, dto: CreateTableBody) -> (r: Result<Table, TableError>)
        requires
            old(self).inv(),
        ensures
            final(self).inv(),
            final(self)@ == old(self)@.insert(
                dto.id@,
                TableView::init(dto.id@, dto.size_y as nat, dto.size_x as nat),
            ),
            r matches Ok(t) && t@ == TableView::init(
                dto.id@,
                dto.size_y as nat,
                dto.size_x as nat,
            ),
    {
        let table = Table::new(dto.id.clone(), dto.size_y, dto.size_x);
        let ghost fresh = table;
        let ghost pre = *self;
        match self.find_index(&dto.id) {
            Some(i) => {
                self.tables[i] = table;
                proof {
                    Self::lemma_update_entry(pre, *self, i as int, fresh);
                }
            },
            None => {
                self.tables.push(table);
                proof {
                    Self::lemma_push_entry(pre, *self, fresh);
                }
            },
        }
        self.get_table(dto.id)
    }

    /// Hands out exclusive access to the table registered under `id`, or
    /// `NotFound` exactly when no table carries that identifier. As long
    /// as the borrower keeps the table's identifier and its rectangular
    /// shape, the registry afterwards holds the borrower's final table
    /// under `id` and every other entry unchanged.
    pub fn get_mut_table(&mut self, id: String) -> (r: Result<&mut Table, TableError>)
        requires
            old(self).inv(),
        ensures
            !old(self)@.contains_key(id@) ==> r == Err::<&mut Table, TableError>(
                TableError::NotFound,
            ) && *final(self) == *old(self),
            old(self)@.contains_key(id@) ==> (r matches Ok(t) && (*t)@ == old(self)@[id@]
                && (*t)@.wf() && (((*final(t))@.id == id@ && (*final(t))@.wf())
                ==> (final(self).inv()
                    && final(self)@ == old(self)@.insert(id@, (*final(t))@)))),
    {
        let ghost pre = *self;
        match self.find_index(&id) {
            Some(i) => {
                proof {
                    pre.lemma_entry_at(i as int);
                    assert forall|nt: Table, post: TableService|
                        (nt@.id == id@ && nt@.wf() && post.tables@ == pre.tables@.update(
                            i as int,
                            nt,
                        )) implies (post.inv() && #[trigger] post.view() == pre@.insert(
                        id@,
                        #[trigger] nt.view(),
                    )) by {
                        Self::lemma_update_entry(pre, post, i as int, nt);
                    }
                }
                Ok(&mut self.tables[i])
            },
            None => Err(TableError::NotFound),
        }
    }

    /// Overwrites exactly the cell at `(dto.y, dto.x)` of the table
    /// registered under `dto.id` with `dto.value`. Signals `NotFound`
    /// exactly when no table carries that identifier, and `OutOfBounds`
    /// exactly when the coordinate lies outside that table's dimensions;
    /// on either failure the registry is left completely unchanged.
    pub fn change_table(&mut self, dto: ChangeTableDTO) -> (r: Result<(), TableError>)
        requires
            old(self).inv(),
        ensures
            final(self).inv(),
            !old(self)@.contains_key(dto.id@) ==> r == Err::<(), TableError>(TableError::NotFound)
                && final(self)@ == old(self)@,
            old(self)@.contains_key(dto.id@) && old(self)@[dto.id@].in_bounds(
                dto.y as int,
                dto.x as int,
            ) ==> r == Ok::<(), TableError>(()) && final(self)@ == old(self)@.insert(
                dto.id@,
                old(self)@[dto.id@].set_cell(dto.y as int, dto.x as int, dto.value@),
            ),
            old(self)@.contains_key(dto.id@) && !old(self)@[dto.id@].in_bounds(
                dto.y as int,
                dto.x as int,
            ) ==> r == Err::<(), TableError>(TableError::OutOfBounds)
                && final(self)@ == old(self)@,
    {
        let ghost id = dto.id@;
        let table = match self.get_mut_table(dto.id) {
            Ok(t) => t,
            Err(e) => { return Err(e) },
        };
        match table.set_value(dto.y, dto.x, dto.value) {
            Ok(_) => Ok(()),
            Err(e) => {
                proof {
                    assert(old(self)@.insert(id, old(self)@[id]) =~= old(self)@);
                }
                Err(e)
            },
        }
    }
}

/// The request shape for creating a table: its identifier and its two
/// dimensions.
pub struct CreateTableBody {
    pub id: String,
    pub size_y: u8,
    pub size_x: u8,
}

/// The request shape for overwriting one cell: the table's identifier,
/// the cell's coordinate, and the new contents.
pub struct ChangeTableDTO {
    pub id: String,
    pub x: u8,
    pub y: u8,
    pub value: String,
}

/// Law: after a creation, the table read back under the same identifier
/// has exactly `size_y` rows of `size_x` cells each, and every one of
/// its cells holds the empty string.
pub proof fn lemma_create_then_get(
    m: Map<Seq<char>, TableView>,
    id: Seq<char>,
    size_y: nat,
    size_x: nat,
)
    ensures
        m.insert(id, TableView::init(id, size_y, size_x)).contains_key(id),
        ({
            let t = m.insert(id, TableView::init(id, size_y, size_x))[id];
            &&& t.wf()
            &&& t.data.len() == size_y
            &&& forall|y: int| 0 <= y < size_y ==> (#[trigger] t.data[y]).len() == size_x
            &&& forall|y: int, x: int|
                t.in_bounds(y, x) ==> #[trigger] t.cell(y, x) == Seq::<char>::empty()
        }),
{
}

/// Law: after overwriting cell `(y, x)` of the table registered under
/// `id`, the table read back under `id` shows `v` at `(y, x)` and every
/// other cell unchanged, keeps its identifier and dimensions, and every
/// other registry entry is untouched.
pub proof fn lemma_change_then_get(
    m: Map<Seq<char>, TableView>,
    id: Seq<char>,
    y: int,
    x: int,
    v: Seq<char>,
)
    requires
        m.contains_key(id),
        m[id].wf(),
        m[id].in_bounds(y, x),
    ensures
        ({
            let m2 = m.insert(id, m[id].set_cell(y, x, v));
            &&& m2.contains_key(id)
            &&& m2[id].wf()
            &&& m2[id].id == m[id].id
            &&& m2[id].size_y == m[id].size_y
            &&& m2[id].size_x == m[id].size_x
            &&& m2[id].cell(y, x) == v
            &&& forall|y2: int, x2: int|
                m[id].in_bounds(y2, x2) && (y2 != y || x2 != x) ==> #[trigger] m2[id].cell(y2, x2)
                    == m[id].cell(y2, x2)
            &&& forall|k: Seq<char>|
                k != id ==> (#[trigger] m2.contains_key(k) == m.contains_key(k)) && (
                m.contains_key(k) ==> m2[k] == m[k])
        }),
{
    let t2 = m[id].set_cell(y, x, v);
    assert forall|y2: int| 0 <= y2 < t2.data.len() implies (#[trigger] t2.data[y2]).len()
        == t2.size_x by {
        if y2 != y {
            assert(t2.data[y2] == m[id].data[y2]);
        }
    }
}

/// Law: creating twice under one identifier leaves exactly one entry
/// reachable under it, carrying the second creation's dimensions; every
/// other identifier's entry is untouched.
pub proof fn lemma_create_overwrites(
    m: Map<Seq<char>, TableView>,
    id: Seq<char>,
    first_size_y: nat,
    first_size_x: nat,
    second_size_y: nat,
    second_size_x: nat,
)
    ensures
        ({
            let m2 = m.insert(id, TableView::init(id, first_size_y, first_size_x)).insert(
                id,
                TableView::init(id, second_size_y, second_size_x),
            );
            &&& m2.contains_key(id)
            &&& m2[id] == TableView::init(id, second_size_y, second_size_x)
            &&& m2[id].size_y == second_size_y
            &&& m2[id].size_x == second_size_x
            &&& m2.dom() == m.dom().insert(id)
            &&& forall|k: Seq<char>|
                k != id ==> (#[trigger] m2.contains_key(k) == m.contains_key(k)) && (
                m.contains_key(k) ==> m2[k] == m[k])
        }),
{
    let m2 = m.insert(id, TableView::init(id, first_size_y, first_size_x)).insert(
        id,
        TableView::init(id, second_size_y, second_size_x),
    );
    assert(m2.dom() =~= m.dom().insert(id));
}

} // verus!
