use crate::signal::Signal;
use crate::terrain::{biome, Terrain};
use vstd::prelude::*;

verus! {

/// What the two noise fields give at one cell.
#[derive(Clone, Copy, Debug, PartialEq, Eq, Structural)]
pub struct Sample {
    pub elevation: Signal,
    pub moisture: Signal,
}

/// The cell that a sample becomes: its elevation is kept, its moisture only
/// decides the biome.
pub open spec fn terrain_of(sample: Sample) -> Terrain {
    Terrain {
        elevation: sample.elevation,
        terrain_type: biome(sample.elevation, sample.moisture),
    }
}

/// The cells that a sequence of samples becomes, one for one and in order.
pub open spec fn terrains_of(samples: Seq<Sample>) -> Seq<Terrain> {
    Seq::new(samples.len(), |i: int| terrain_of(samples[i]))
}

/// The place of the cell `(row, col)` in row-major order.
pub open spec fn index_of(row: int, col: int, cols: int) -> int {
    row * cols + col
}

/// A cell inside a grid has its place inside the grid's cells, and the cell
/// that follows the last one of a row is the first of the next row.
pub proof fn lemma_index_in_range(row: int, col: int, rows: int, cols: int)
    requires
        0 <= row < rows,
        0 <= col < cols,
    ensures
        0 <= row * cols,
        0 <= index_of(row, col, cols) < rows * cols,
        index_of(row, col, cols) + 1 <= index_of(row + 1, 0, cols),
        index_of(row + 1, 0, cols) <= rows * cols,
{
    assert(row * cols >= 0) by (nonlinear_arith)
        requires
            row >= 0,
            cols > 0,
    ;
    assert((row + 1) * cols == row * cols + cols) by (nonlinear_arith);
    assert((row + 1) * cols <= rows * cols) by (nonlinear_arith)
        requires
            row + 1 <= rows,
            cols > 0,
    ;
}

/// Classifies the samples of a grid of `rows` by `cols` cells, given in
/// row-major order: the cell `(row, col)` comes from the sample at
/// `row * cols + col` and stands at that place.
pub fn generate(rows: usize, cols: usize, samples: &[Sample]) -> (terrains: Vec<Terrain>)
    requires
        samples@.len() == rows * cols,
    ensures
        terrains@ == terrains_of(samples@),
{
    let count: usize = samples.len();
    let mut terrains: Vec<Terrain> = Vec::with_capacity(count);
    let mut row: usize = 0;
    while row < rows
        invariant
            samples@.len() == rows * cols,
            row <= rows,
            terrains@.len() == index_of(row as int, 0, cols as int),
            terrains@.len() <= samples@.len(),
            forall|i: int| 0 <= i < terrains@.len() ==> terrains@[i] == terrain_of(samples@[i]),
        decreases rows - row,
    {
        let mut col: usize = 0;
        while col < cols
            invariant
                samples@.len() == rows * cols,
                row < rows,
                col <= cols,
                terrains@.len() == index_of(row as int, col as int, cols as int),
                terrains@.len() <= samples@.len(),
                forall|i: int| 0 <= i < terrains@.len() ==> terrains@[i] == terrain_of(samples@[i]),
            decreases cols - col,
        {
            proof {
                lemma_index_in_range(row as int, col as int, rows as int, cols as int);
            }
            let sample = samples[terrains.len()];
            terrains.push(Terrain::new(sample.elevation, sample.moisture));
            col = col + 1;
        }
        proof {
            if cols > 0 {
                lemma_index_in_range(row as int, cols - 1, rows as int, cols as int);
            } else {
                assert(rows * cols == 0) by (nonlinear_arith)
                    requires
                        cols == 0,
                ;
                assert((row + 1) * cols == 0) by (nonlinear_arith)
                    requires
                        cols == 0,
                ;
                assert(row * cols == 0) by (nonlinear_arith)
                    requires
                        cols == 0,
                ;
            }
            assert(index_of(row as int, cols as int, cols as int) == index_of(
                row + 1,
                0,
                cols as int,
            )) by (nonlinear_arith);
        }
        row = row + 1;
    }
    assert(terrains@ =~= terrains_of(samples@));
    terrains
}

} // verus!
