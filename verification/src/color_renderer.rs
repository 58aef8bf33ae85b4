use crate::terrain::Terrain;
use crate::terrain_generator::{index_of, lemma_index_in_range};
use crate::terrain_map::{lemma_grid_shape, TerrainMap};
use crate::terrain_type::TerrainType;
use vstd::prelude::*;

verus! {

/// A colour by its red, green and blue parts.
#[derive(Clone, Copy, Debug, PartialEq, Eq, Structural)]
pub struct Color {
    pub red: u8,
    pub green: u8,
    pub blue: u8,
}

/// The colour in which a biome is drawn.
pub open spec fn color_of(terrain_type: TerrainType) -> Color {
    match terrain_type {
        TerrainType::Bare => Color { red: 209, green: 205, blue: 192 },
        TerrainType::Beach => Color { red: 227, green: 212, blue: 170 },
        TerrainType::Desert => Color { red: 207, green: 170, blue: 110 },
        TerrainType::Forest => Color { red: 100, green: 140, blue: 80 },
        TerrainType::Grass => Color { red: 140, green: 195, blue: 120 },
        TerrainType::Mountain => Color { red: 103, green: 112, blue: 117 },
        TerrainType::RainForest => Color { red: 60, green: 166, blue: 80 },
        TerrainType::Snow => Color { red: 230, green: 230, blue: 230 },
        TerrainType::SubTropicalDesert => Color { red: 180, green: 144, blue: 116 },
        TerrainType::Swamp => Color { red: 160, green: 190, blue: 115 },
        TerrainType::Taiga => Color { red: 160, green: 200, blue: 100 },
        TerrainType::TropicalForest => Color { red: 120, green: 180, blue: 90 },
        TerrainType::TropicalRainForest => Color { red: 120, green: 180, blue: 90 },
        TerrainType::Tundra => Color { red: 200, green: 215, blue: 215 },
        TerrainType::Volcanic => Color { red: 68, green: 75, blue: 75 },
        TerrainType::Water => Color { red: 15, green: 65, blue: 100 },
    }
}

/// One of the three bytes of a colour: red, green, blue for 0, 1, 2.
pub open spec fn channel(color: Color, part: int) -> u8 {
    if part == 0 {
        color.red
    } else if part == 1 {
        color.green
    } else {
        color.blue
    }
}

/// The picture of a sequence of cells: three bytes for each cell, in the
/// order of the cells.
pub open spec fn raster(cells: Seq<Terrain>) -> Seq<u8> {
    Seq::new(3 * cells.len(), |i: int| channel(color_of(cells[i / 3].terrain_type), i % 3))
}

/// In the picture of a map the three bytes of the pixel in column `col` and
/// row `row` are the colour of the cell at `(row, col)`.
pub proof fn lemma_pixel_is_the_colour_of_its_cell(map: TerrainMap, row: int, col: int)
    requires
        map.well_formed(),
        0 <= row < map.rows(),
        0 <= col < map.cols(),
    ensures
        raster(map.cells()).len() == 3 * map.rows() * map.cols(),
        ({
            let first = 3 * index_of(row, col, map.cols() as int);
            let color = color_of(map.cell_at(row, col).unwrap().terrain_type);
            &&& 0 <= first
            &&& first + 2 < raster(map.cells()).len()
            &&& raster(map.cells())[first] == color.red
            &&& raster(map.cells())[first + 1] == color.green
            &&& raster(map.cells())[first + 2] == color.blue
        }),
{
    lemma_grid_shape(map, row, col);
    lemma_index_in_range(row, col, map.rows() as int, map.cols() as int);
    assert(3 * (map.rows() * map.cols()) == 3 * map.rows() * map.cols()) by (nonlinear_arith);
}

/// An RGB image of the `image` crate with 8 bits for each part of a pixel.
#[verifier::external_body]
pub struct Canvas {
    image: image::RgbImage,
}

/// The width and the height of the image, in pixels.
pub uninterp spec fn canvas_size(canvas: Canvas) -> (nat, nat);

/// The bytes of the image: row by row from the top, in a row pixel by pixel
/// from the left, for a pixel its red, green and blue part.
pub uninterp spec fn canvas_data(canvas: Canvas) -> Seq<u8>;

impl Canvas {
    /// `image::RgbImage::new`: an image of the given size with every byte 0.
    /// It counts the bytes as `3 * width`, then times `height`, and panics
    /// when either product is more than a `usize` holds, or when the bytes
    /// are more than a vector holds.
    #[verifier::external_body]
    fn blank(width: u32, height: u32) -> (canvas: Canvas)
        requires
            3 * width <= usize::MAX,
            3 * width * height <= isize::MAX,
        ensures
            canvas_size(canvas) == (width as nat, height as nat),
            canvas_data(canvas) == Seq::new((3 * width * height) as nat, |i: int| 0u8),
    {
        Canvas { image: image::RgbImage::new(width, height) }
    }

    /// `image::ImageBuffer::put_pixel`: sets the three bytes of the pixel in
    /// column `x` and row `y`, which start at `3 * (y * width + x)`, and
    /// leaves the rest as it is. It panics for a pixel outside the image.
    #[verifier::external_body]
    fn put_pixel(&mut self, x: u32, y: u32, color: Color)
        requires
            x < canvas_size(*old(self)).0,
            y < canvas_size(*old(self)).1,
        ensures
            canvas_size(*final(self)) == canvas_size(*old(self)),
            canvas_data(*final(self)) == ({
                let first = 3 * (y * canvas_size(*old(self)).0 + x);
                canvas_data(*old(self)).update(first, color.red).update(
                    first + 1,
                    color.green,
                ).update(first + 2, color.blue)
            }),
    {
        self.image.put_pixel(x, y, image::Rgb([color.red, color.green, color.blue]))
    }

    /// `image::ImageBuffer::into_raw`: the bytes of the image.
    #[verifier::external_body]
    fn into_raw(self) -> (bytes: Vec<u8>)
        ensures
            bytes@ == canvas_data(self),
    {
        self.image.into_raw()
    }
}

/// The colour in which a cell is drawn: that of its biome.
pub fn terrain_to_color(terrain: &Terrain) -> (color: Color)
    ensures
        color == color_of(terrain.terrain_type),
{
    match terrain.get_type() {
        TerrainType::Bare => Color { red: 209, green: 205, blue: 192 },
        TerrainType::Beach => Color { red: 227, green: 212, blue: 170 },
        TerrainType::Desert => Color { red: 207, green: 170, blue: 110 },
        TerrainType::Forest => Color { red: 100, green: 140, blue: 80 },
        TerrainType::Grass => Color { red: 140, green: 195, blue: 120 },
        TerrainType::Mountain => Color { red: 103, green: 112, blue: 117 },
        TerrainType::RainForest => Color { red: 60, green: 166, blue: 80 },
        TerrainType::Snow => Color { red: 230, green: 230, blue: 230 },
        TerrainType::SubTropicalDesert => Color { red: 180, green: 144, blue: 116 },
        TerrainType::Swamp => Color { red: 160, green: 190, blue: 115 },
        TerrainType::Taiga => Color { red: 160, green: 200, blue: 100 },
        TerrainType::TropicalForest => Color { red: 120, green: 180, blue: 90 },
        TerrainType::TropicalRainForest => Color { red: 120, green: 180, blue: 90 },
        TerrainType::Tundra => Color { red: 200, green: 215, blue: 215 },
        TerrainType::Volcanic => Color { red: 68, green: 75, blue: 75 },
        TerrainType::Water => Color { red: 15, green: 65, blue: 100 },
    }
}

/// Whether the first `done` pixels of the data are those of the cells.
spec fn painted(data: Seq<u8>, cells: Seq<Terrain>, done: int) -> bool {
    forall|i: int| 0 <= i < 3 * done ==> #[trigger] data[i] == raster(cells)[i]
}

/// Setting the three bytes of the pixel that follows the painted ones to the
/// colour of its cell paints one pixel more.
proof fn lemma_paint_next(data: Seq<u8>, cells: Seq<Terrain>, done: int)
    requires
        0 <= done < cells.len(),
        data.len() == 3 * cells.len(),
        painted(data, cells, done),
    ensures
        ({
            let color = color_of(cells[done].terrain_type);
            let next = data.update(3 * done, color.red).update(3 * done + 1, color.green).update(
                3 * done + 2,
                color.blue,
            );
            next.len() == data.len() && painted(next, cells, done + 1)
        }),
{
    let color = color_of(cells[done].terrain_type);
    let next = data.update(3 * done, color.red).update(3 * done + 1, color.green).update(
        3 * done + 2,
        color.blue,
    );
    assert forall|i: int| 0 <= i < 3 * (done + 1) implies #[trigger] next[i] == raster(cells)[i] by {
        if i < 3 * done {
            assert(data[i] == raster(cells)[i]);
        } else {
            assert(i / 3 == done);
        }
    }
}

/// Draws the map: the pixel in column `col` and row `row` gets the colour of
/// the cell at `(row, col)`. The result holds three bytes for each cell, row
/// by row: the bytes of an RGB image that is `cols` wide and `rows` high.
///
/// The bytes of one row have to fit in a `usize`, also where the map has no
/// row, and the bytes of all rows in a vector.
pub fn render(map: &TerrainMap) -> (bytes: Vec<u8>)
    requires
        3 * map.cols() <= usize::MAX,
        3 * map.rows() * map.cols() <= isize::MAX,
    ensures
        bytes@ == raster(map.cells()),
{
    let rows: u32 = map.get_rows();
    let cols: u32 = map.get_cols();
    proof {
        use_type_invariant(map);
        lemma_grid_shape(*map, 0, 0);
        assert(3 * cols * rows == 3 * rows * cols) by (nonlinear_arith);
        assert(3 * cols * rows == 3 * (rows * cols)) by (nonlinear_arith);
    }
    let mut canvas = Canvas::blank(cols, rows);
    let mut row: u32 = 0;
    while row < rows
        invariant
            map.well_formed(),
            rows == map.rows(),
            cols == map.cols(),
            map.cells().len() == rows * cols,
            row <= rows,
            canvas_size(canvas) == (cols as nat, rows as nat),
            canvas_data(canvas).len() == 3 * map.cells().len(),
            painted(canvas_data(canvas), map.cells(), index_of(row as int, 0, cols as int)),
        decreases rows - row,
    {
        let mut col: u32 = 0;
        while col < cols
            invariant
                map.well_formed(),
                rows == map.rows(),
                cols == map.cols(),
                map.cells().len() == rows * cols,
                row < rows,
                col <= cols,
                canvas_size(canvas) == (cols as nat, rows as nat),
                canvas_data(canvas).len() == 3 * map.cells().len(),
                painted(
                    canvas_data(canvas),
                    map.cells(),
                    index_of(row as int, col as int, cols as int),
                ),
            decreases cols - col,
        {
            proof {
                lemma_index_in_range(row as int, col as int, rows as int, cols as int);
            }
            if let Some(terrain) = map.get_terrain_at(row as usize, col as usize) {
                proof {
                    lemma_paint_next(
                        canvas_data(canvas),
                        map.cells(),
                        index_of(row as int, col as int, cols as int),
                    );
                }
                canvas.put_pixel(col, row, terrain_to_color(terrain));
            }
            col = col + 1;
        }
        proof {
            assert(index_of(row as int, cols as int, cols as int) == index_of(
                row + 1,
                0,
                cols as int,
            )) by (nonlinear_arith);
        }
        row = row + 1;
    }
    proof {
        assert(index_of(rows as int, 0, cols as int) == map.cells().len());
    }
    let bytes = canvas.into_raw();
    assert(bytes@ =~= raster(map.cells()));
    bytes
}

} // verus!
