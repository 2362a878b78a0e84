//! The single-grid entity: a uniquely-identified, fixed-size 2D grid of
//! string cells, with bounds-checked read and write operations.

use vstd::prelude::*;

verus! {

/// The two request-scoped failure kinds of the registry and its tables:
/// a lookup for an identifier no table carries, and an access outside a
/// table's fixed dimensions.
#[derive(Debug, Clone, Copy, PartialEq, Eq)]
pub enum TableError {
    NotFound,
    OutOfBounds,
}

/// The mathematical value of a [`Table`]: its identifier, its dimensions,
/// and its grid as a sequence of rows of cell contents.
#[verifier::ext_equal]
pub struct TableView {
    pub id: Seq<char>,
    pub size_y: nat,
    pub size_x: nat,
    pub data: Seq<Seq<Seq<char>>>,
}

impl TableView {
    /// The grid is rectangular: exactly `size_y` rows of `size_x` cells each.
    pub open spec fn wf(self) -> bool {
        &&& self.data.len() == self.size_y
        &&& forall|y: int|
            0 <= y < self.data.len() ==> (#[trigger] self.data[y]).len() == self.size_x
    }

    /// A coordinate addresses a cell iff it is strictly below both dimensions.
    pub open spec fn in_bounds(self, y: int, x: int) -> bool {
        0 <= y < self.size_y && 0 <= x < self.size_x
    }

    /// The contents of the cell at row `y`, column `x`.
    pub open spec fn cell(self, y: int, x: int) -> Seq<char> {
        self.data[y][x]
    }

    /// The same table with exactly the cell at `(y, x)` overwritten by `v`.
    pub open spec fn set_cell(self, y: int, x: int, v: Seq<char>) -> TableView {
        TableView { data: self.data.update(y, self.data[y].update(x, v)), ..self }
    }

    /// A freshly created table: every one of its `size_y * size_x` cells
    /// holds the empty string.
    pub open spec fn init(id: Seq<char>, size_y: nat, size_x: nat) -> TableView {
        TableView {
            id,
            size_y,
            size_x,
            data: Seq::new(size_y, |y: int| Seq::new(size_x, |x: int| Seq::<char>::empty())),
        }
    }
}

/// One fixed-size grid of string cells. The dimensions are fixed at
/// creation; `set_value` is the sole mutator and rejects any coordinate
/// outside them.
#[derive(Debug, PartialEq)]
pub struct Table {
    pub id: String,
    pub size_x: u8,
    pub size_y: u8,
    pub data: Vec<Vec<String>>,
}

impl View for Table {
    type V = TableView;

    open spec fn view(&self) -> TableView {
        TableView {
            id: self.id@,
            size_y: self.size_y as nat,
            size_x: self.size_x as nat,
            data: self.data.deep_view(),
        }
    }
}

impl Table {
    /// Allocates a `size_y` x `size_x` grid with every cell set to the
    /// empty string. Accepts any dimensions, including zero.
    pub fn new(id: String, size_y: u8, size_x: u8) -> (t: Table)
        ensures
            t@ == TableView::init(id@, size_y as nat, size_x as nat),
            t@.wf(),
    {
        let row: Vec<String> = vec![String::new(); size_x as usize];
        let data: Vec<Vec<String>> = vec![row; size_y as usize];
        proof {
            assert forall|y: int| 0 <= y < data.deep_view().len() implies data.deep_view()[y]
                =~= Seq::new(size_x as nat, |x: int| Seq::<char>::empty()) by {
                assert(cloned(row, data@[y]));
                assert(data@[y]@ =~= row@);
            }
            assert(data.deep_view() =~= TableView::init(
                id@,
                size_y as nat,
                size_x as nat,
            ).data);
        }
        Table { id, size_x, size_y, data }
    }

    /// Reports the cell count, `size_x * size_y`. The product must fit in
    /// the coordinate width, or the multiplication would overflow.
    pub fn size(&self) -> (n: u8)
        requires
            self.size_x * self.size_y <= u8::MAX,
        ensures
            n == self.size_x * self.size_y,
    {
        self.size_x * self.size_y
    }

    /// Returns the current contents of the cell at `(y, x)`, or `None`
    /// exactly when the coordinate lies outside the grid. No side effects.
    pub fn get_value(&self, y: u8, x: u8) -> (r: Option<&String>)
        requires
            self@.wf(),
        ensures
            (match r {
                Some(v) => self@.in_bounds(y as int, x as int) && v@ == self@.cell(
                    y as int,
                    x as int,
                ),
                None => !self@.in_bounds(y as int, x as int),
            }),
    {
        if (y as usize) < self.data.len() {
            let row = &self.data[y as usize];
            proof {
                assert(self@.data[y as int] =~= row.deep_view());
                assert(row@.len() == self@.data[y as int].len());
            }
            if (x as usize) < row.len() {
                let v = &row[x as usize];
                proof {
                    assert(v@ == row.deep_view()[x as int]);
                }
                return Some(v);
            }
        }
        None
    }

    /// Overwrites exactly the cell at `(y, x)` when the coordinate is in
    /// bounds; otherwise signals `OutOfBounds` and leaves the grid
    /// untouched. This is the sole mutator.
    pub fn set_value(&mut self, y: u8, x: u8, new_value: String) -> (r: Result<(), TableError>)
        requires
            old(self)@.wf(),
        ensures
            final(self)@.wf(),
            final(self)@.id == old(self)@.id,
            old(self)@.in_bounds(y as int, x as int) ==> r == Ok::<(), TableError>(())
                && final(self)@ == old(self)@.set_cell(y as int, x as int, new_value@),
            !old(self)@.in_bounds(y as int, x as int) ==> r == Err::<(), TableError>(
                TableError::OutOfBounds,
            ) && final(self)@ == old(self)@,
    {
        if (y as usize) < self.data.len() {
            let row = &mut self.data[y as usize];
            if (x as usize) < row.len() {
                row[x as usize] = new_value;
                proof {
                    assert(final(self)@.data =~~= old(self)@.set_cell(
                        y as int,
                        x as int,
                        new_value@,
                    ).data);
                }
                return Ok(());
            }
        }
        proof {
            assert(final(self)@ =~~= old(self)@);
        }
        Err(TableError::OutOfBounds)
    }
}

impl Clone for Table {
    /// A clone carries the same identifier, dimensions, and cell contents
    /// as the original.
    fn clone(&self) -> (r: Table)
        ensures
            r@ == self@,
    {
        let data = self.data.clone();
        proof {
            assert forall|y: int| 0 <= y < data.deep_view().len() implies data.deep_view()[y]
                =~= self.data.deep_view()[y] by {
                assert(cloned(self.data@[y], data@[y]));
                assert(data@[y]@ =~= self.data@[y]@);
            }
            assert(data.deep_view() =~= self.data.deep_view());
        }
        Table { id: self.id.clone(), size_x: self.size_x, size_y: self.size_y, data }
    }
}

} // verus!
