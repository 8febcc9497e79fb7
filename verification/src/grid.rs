//! A rectangular grid of cells, stored row by row.

use crate::layout::{
    in_bounds, index, is_border, is_interior, lemma_offset_in_range, lemma_offset_injective, offset,
};
use vstd::prelude::*;

verus! {

/// What a grid is: its two dimensions and its cells, row after row.
pub struct GridView<T> {
    /// The number of columns.
    pub width: nat,
    /// The number of rows.
    pub height: nat,
    /// The cells: first the top row from left to right, then the next row.
    pub cells: Seq<T>,
}

impl<T> GridView<T> {
    /// There is exactly one cell for each pair of a column and a row.
    pub open spec fn wf(self) -> bool {
        self.cells.len() == self.width * self.height
    }

    /// The cell `(x, y)` lies on this grid.
    pub open spec fn contains(self, x: int, y: int) -> bool {
        in_bounds(self.width as int, self.height as int, x, y)
    }

    /// The cell `(x, y)` lies on this grid and not on its outer ring.
    pub open spec fn interior(self, x: int, y: int) -> bool {
        is_interior(self.width as int, self.height as int, x, y)
    }

    /// The cell `(x, y)` lies on the outer ring of this grid.
    pub open spec fn border(self, x: int, y: int) -> bool {
        is_border(self.width as int, self.height as int, x, y)
    }

    /// The value of cell `(x, y)`.
    pub open spec fn at(self, x: int, y: int) -> T {
        self.cells[offset(self.width as int, x, y)]
    }

    /// This grid with the value of cell `(x, y)` replaced.
    pub open spec fn put(self, x: int, y: int, value: T) -> Self {
        GridView { cells: self.cells.update(offset(self.width as int, x, y), value), ..self }
    }

    /// The grid of the given dimensions on which every cell holds `value`.
    pub open spec fn flat(width: nat, height: nat, value: T) -> Self {
        GridView { width, height, cells: Seq::new(width * height, |i: int| value) }
    }

    /// Both grids have the same dimensions.
    pub open spec fn same_shape<U>(self, other: GridView<U>) -> bool {
        self.width == other.width && self.height == other.height
    }

    /// Writing a cell overwrites it: afterwards the written cell holds the new
    /// value, whatever it held before, and every other cell holds what it held.
    pub proof fn lemma_put_at(self, x: int, y: int, value: T, cx: int, cy: int)
        requires
            self.wf(),
            self.contains(x, y),
            self.contains(cx, cy),
        ensures
            self.put(x, y, value).wf(),
            self.put(x, y, value).same_shape(self),
            cx == x && cy == y ==> self.put(x, y, value).at(cx, cy) == value,
            !(cx == x && cy == y) ==> self.put(x, y, value).at(cx, cy) == self.at(cx, cy),
    {
        lemma_offset_in_range(self.width as int, self.height as int, x, y);
        lemma_offset_in_range(self.width as int, self.height as int, cx, cy);
        if offset(self.width as int, cx, cy) == offset(self.width as int, x, y) {
            lemma_offset_injective(self.width as int, cx, cy, x, y);
        }
    }

    /// On a flat grid every cell holds the one value.
    pub proof fn lemma_flat_at(width: nat, height: nat, value: T, x: int, y: int)
        requires
            in_bounds(width as int, height as int, x, y),
        ensures
            Self::flat(width, height, value).wf(),
            Self::flat(width, height, value).at(x, y) == value,
    {
        lemma_offset_in_range(width as int, height as int, x, y);
    }
}

/// A grid of `width` by `height` cells.
pub struct Grid<T> {
    width: usize,
    height: usize,
    cells: Vec<T>,
}

impl<T> View for Grid<T> {
    type V = GridView<T>;

    closed spec fn view(&self) -> GridView<T> {
        GridView { width: self.width as nat, height: self.height as nat, cells: self.cells@ }
    }
}

impl<T: Copy> Grid<T> {
    /// The grid holds one cell for each pair of a column and a row.
    pub open spec fn wf(&self) -> bool {
        self@.wf()
    }

    /// Both dimensions are machine sizes.
    pub proof fn lemma_dimensions_fit(&self)
        ensures
            self@.width <= usize::MAX,
            self@.height <= usize::MAX,
    {
    }

    /// A grid on which every cell holds `fill`.
    pub fn new(width: usize, height: usize, fill: T) -> (grid: Self)
        requires
            width * height <= usize::MAX,
        ensures
            grid.wf(),
            grid@ == GridView::flat(width as nat, height as nat, fill),
    {
        let size: usize = width * height;
        let mut cells: Vec<T> = Vec::with_capacity(size);
        let mut filled: usize = 0;
        while filled < size
            invariant
                filled <= size,
                cells@.len() == filled,
                forall|i: int| 0 <= i < filled ==> cells@[i] == fill,
            decreases size - filled,
        {
            cells.push(fill);
            filled += 1;
        }
        let grid = Grid { width, height, cells };
        assert(grid@.cells =~= GridView::flat(width as nat, height as nat, fill).cells);
        grid
    }

    /// The number of columns.
    pub fn width(&self) -> (width: usize)
        ensures
            width == self@.width,
    {
        self.width
    }

    /// The number of rows.
    pub fn height(&self) -> (height: usize)
        ensures
            height == self@.height,
    {
        self.height
    }

    /// The value of cell `(x, y)`.
    pub fn get(&self, x: usize, y: usize) -> (value: T)
        requires
            self.wf(),
            self@.contains(x as int, y as int),
        ensures
            value == self@.at(x as int, y as int),
    {
        proof {
            lemma_offset_in_range(self.width as int, self.height as int, x as int, y as int);
            assert(self.cells@.len() == self.cells.len());
        }
        self.cells[index(x, y, self.width)]
    }

    /// Replaces the value of cell `(x, y)`; every other cell keeps its value.
    pub fn set(&mut self, x: usize, y: usize, value: T)
        requires
            old(self).wf(),
            old(self)@.contains(x as int, y as int),
        ensures
            final(self).wf(),
            final(self)@ == old(self)@.put(x as int, y as int, value),
    {
        proof {
            lemma_offset_in_range(self.width as int, self.height as int, x as int, y as int);
            assert(self.cells@.len() == self.cells.len());
        }
        let i: usize = index(x, y, self.width);
        self.cells[i] = value;
    }

    /// All cells, row after row.
    pub fn as_slice(&self) -> (cells: &[T])
        ensures
            cells@ == self@.cells,
    {
        self.cells.as_slice()
    }
}

} // verus!
