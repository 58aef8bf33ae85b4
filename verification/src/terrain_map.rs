use crate::terrain::Terrain;
use crate::terrain_generator::{
    generate, index_of, lemma_index_in_range, terrain_of, terrains_of, Sample,
};
use vstd::prelude::*;

verus! {

/// A grid of cells, stored row by row. Its size is fixed when it is built and
/// it always holds `rows * cols` cells.
pub struct TerrainMap {
    terrain_items: Vec<Terrain>,
    rows: u32,
    cols: u32,
}

impl TerrainMap {
    /// The grid holds one cell for each place.
    #[verifier::type_invariant]
    pub closed spec fn well_formed(&self) -> bool {
        self.terrain_items@.len() == self.rows * self.cols
    }

    /// The number of rows.
    pub closed spec fn rows(&self) -> nat {
        self.rows as nat
    }

    /// The number of columns.
    pub closed spec fn cols(&self) -> nat {
        self.cols as nat
    }

    /// The cells in row-major order.
    pub closed spec fn cells(&self) -> Seq<Terrain> {
        self.terrain_items@
    }

    /// The cell at `(row, col)`, if the grid has one there.
    pub open spec fn cell_at(&self, row: int, col: int) -> Option<Terrain> {
        if 0 <= row < self.rows() && 0 <= col < self.cols() {
            Some(self.cells()[index_of(row, col, self.cols() as int)])
        } else {
            None
        }
    }

    /// Whether the grid is the one of `rows` by `cols` cells that the samples give.
    pub open spec fn built_from(&self, rows: u32, cols: u32, samples: Seq<Sample>) -> bool {
        &&& self.well_formed()
        &&& self.rows() == rows
        &&& self.cols() == cols
        &&& self.cells() == terrains_of(samples)
    }

    /// Builds the grid of `rows` by `cols` cells from the samples of its cells,
    /// given in row-major order. There is no grid when the number of samples
    /// is not `rows * cols`.
    pub fn new(rows: u32, cols: u32, samples: &[Sample]) -> (map: Option<TerrainMap>)
        ensures
            map.is_some() == (samples@.len() == rows * cols),
            map matches Some(grid) ==> grid.built_from(rows, cols, samples@),
    {
        assert(rows * cols <= 0xFFFF_FFFF * 0xFFFF_FFFF) by (nonlinear_arith)
            requires
                0 <= rows <= 0xFFFF_FFFF,
                0 <= cols <= 0xFFFF_FFFF,
        ;
        let wanted: u64 = (rows as u64) * (cols as u64);
        if samples.len() as u64 != wanted {
            return None;
        }
        Some(
            Self {
                terrain_items: generate(rows as usize, cols as usize, samples),
                rows: rows,
                cols: cols,
            },
        )
    }

    pub fn get_rows(&self) -> (rows: u32)
        ensures
            rows == self.rows(),
    {
        self.rows
    }

    pub fn get_cols(&self) -> (cols: u32)
        ensures
            cols == self.cols(),
    {
        self.cols
    }

    /// The cell at `(row, col)`, or nothing when the place lies outside the grid.
    pub fn get_terrain_at(&self, row: usize, col: usize) -> (terrain: Option<&Terrain>)
        ensures
            terrain.is_some() == (row < self.rows() && col < self.cols()),
            match terrain {
                Some(found) => self.cell_at(row as int, col as int) == Some(*found),
                None => self.cell_at(row as int, col as int).is_none(),
            },
    {
        proof {
            use_type_invariant(self);
        }
        if row >= self.rows as usize || col >= self.cols as usize {
            return None;
        }
        let count: usize = self.terrain_items.len();
        proof {
            lemma_index_in_range(row as int, col as int, self.rows as int, self.cols as int);
            assert(index_of(row as int, col as int, self.cols as int) < count);
        }
        let index = (row * self.cols as usize) + col;
        Some(&self.terrain_items[index])
    }
}

/// A grid holds exactly `rows * cols` cells, and it has a cell at `(row, col)`
/// exactly when `row < rows` and `col < cols`.
pub proof fn lemma_grid_shape(map: TerrainMap, row: int, col: int)
    requires
        map.well_formed(),
    ensures
        map.cells().len() == map.rows() * map.cols(),
        map.cell_at(row, col).is_some() <==> (0 <= row < map.rows() && 0 <= col < map.cols()),
        map.cell_at(row, col) matches Some(found) ==> map.cells().contains(found),
{
    if 0 <= row < map.rows() && 0 <= col < map.cols() {
        lemma_index_in_range(row, col, map.rows() as int, map.cols() as int);
    }
}

/// Two grids of the same size built from the same samples hold the same cells
/// at the same places.
pub proof fn lemma_same_samples_same_grid(
    first: TerrainMap,
    second: TerrainMap,
    rows: u32,
    cols: u32,
    samples: Seq<Sample>,
    row: int,
    col: int,
)
    requires
        first.built_from(rows, cols, samples),
        second.built_from(rows, cols, samples),
    ensures
        first.cells() == second.cells(),
        first.cell_at(row, col) == second.cell_at(row, col),
{
}

/// The cell at `(row, col)` of a grid built from samples is the one that the
/// sample at `row * cols + col` gives.
pub proof fn lemma_cell_comes_from_its_sample(
    map: TerrainMap,
    rows: u32,
    cols: u32,
    samples: Seq<Sample>,
    row: int,
    col: int,
)
    requires
        map.built_from(rows, cols, samples),
        0 <= row < rows,
        0 <= col < cols,
    ensures
        samples.len() == rows * cols,
        map.cell_at(row, col) == Some(terrain_of(samples[index_of(row, col, cols as int)])),
{
    lemma_index_in_range(row, col, rows as int, cols as int);
}

} // verus!
