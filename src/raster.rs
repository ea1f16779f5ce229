use vstd::prelude::*;

use crate::terrain::{cell_color, cell_to_color, terrain_color, transparent, Color, Terrain, Tile};

verus! {

/// Bytes per RGBA pixel.
pub const BYTES_PER_PIXEL: usize = 4;

/// The four bytes of pixel `k` of a row-major RGBA buffer.
pub open spec fn quad(bytes: Seq<u8>, k: int) -> Color {
    (bytes[4 * k], bytes[4 * k + 1], bytes[4 * k + 2], bytes[4 * k + 3])
}

/// A snapshot whose rows all have the length of the first one.
pub open spec fn is_rectangular(grid: Seq<Vec<Option<Tile>>>) -> bool {
    forall|i: int| 0 <= i < grid.len() ==> #[trigger] grid[i]@.len() == grid[0]@.len()
}

/// The number of columns of a snapshot (zero when it has no rows).
pub open spec fn grid_cols(grid: Seq<Vec<Option<Tile>>>) -> nat {
    if grid.len() == 0 {
        0
    } else {
        grid[0]@.len()
    }
}

/// An in-memory RGBA image, one pixel per grid cell, rows stored one after another.
pub struct RasterImage {
    width: usize,
    height: usize,
    pixels: Vec<u8>,
}

impl RasterImage {
    pub closed spec fn spec_width(&self) -> nat {
        self.width as nat
    }

    pub closed spec fn spec_height(&self) -> nat {
        self.height as nat
    }

    /// The pixel buffer, four bytes per pixel.
    pub closed spec fn bytes(&self) -> Seq<u8> {
        self.pixels@
    }

    /// The buffer holds exactly four bytes for each of the `width * height` pixels.
    pub open spec fn wf(&self) -> bool {
        self.bytes().len() == self.spec_height() * self.spec_width() * 4
    }

    /// The color of the pixel at `row`, `col`.
    pub open spec fn pixel(&self, row: int, col: int) -> Color {
        quad(self.bytes(), row * self.spec_width() + col)
    }

    pub fn width(&self) -> (w: usize)
        ensures
            w == self.spec_width(),
    {
        self.width
    }

    pub fn height(&self) -> (h: usize)
        ensures
            h == self.spec_height(),
    {
        self.height
    }

    /// The raw RGBA bytes, row-major.
    pub fn as_bytes(&self) -> (b: &Vec<u8>)
        ensures
            b@ == self.bytes(),
    {
        &self.pixels
    }

    /// The color of the pixel at `row`, `col`.
    pub fn pixel_at(&self, row: usize, col: usize) -> (c: Color)
        requires
            self.wf(),
            row < self.spec_height(),
            col < self.spec_width(),
        ensures
            c == self.pixel(row as int, col as int),
    {
        proof {
            lemma_cell_in_bounds(row as int, col as int, self.height as int, self.width as int);
        }
        let n = self.pixels.len();
        assert(n == self.height * self.width * 4);
        let k = (row * self.width + col) * BYTES_PER_PIXEL;
        (self.pixels[k], self.pixels[k + 1], self.pixels[k + 2], self.pixels[k + 3])
    }
}

/// `img` is the rasterization of `grid`: one pixel per cell, each of the cell's color.
pub open spec fn depicts(img: RasterImage, grid: Seq<Vec<Option<Tile>>>) -> bool {
    &&& img.wf()
    &&& img.spec_height() == grid.len()
    &&& img.spec_width() == grid_cols(grid)
    &&& forall|i: int, j: int|
        0 <= i < grid.len() && 0 <= j < grid_cols(grid) ==> img.pixel(i, j) == cell_color(
            #[trigger] grid[i]@[j],
        )
}

proof fn lemma_cell_in_bounds(a: int, b: int, rows: int, cols: int)
    requires
        0 <= a < rows,
        0 <= b < cols,
    ensures
        0 <= a * cols + b,
        (a * cols + b) * 4 + 3 < rows * cols * 4,
        a * cols + b < a * cols + cols,
        a * cols + cols <= rows * cols,
{
    assert(0 <= a * cols) by (nonlinear_arith)
        requires
            0 <= a,
            0 <= cols,
    ;
    assert(a * cols + cols <= rows * cols) by (nonlinear_arith)
        requires
            a < rows,
            0 <= cols,
    ;
    assert((a * cols + b) * 4 + 3 < rows * cols * 4) by (nonlinear_arith)
        requires
            a * cols + b < rows * cols,
    ;
}

proof fn lemma_row_start_mono(i: int, cols: int)
    requires
        0 <= i,
        0 <= cols,
    ensures
        0 <= i * cols,
        (i + 1) * cols == i * cols + cols,
{
    assert(0 <= i * cols) by (nonlinear_arith)
        requires
            0 <= i,
            0 <= cols,
    ;
    assert((i + 1) * cols == i * cols + cols) by (nonlinear_arith);
}

/// Converts a snapshot into an image: terrain colors for observed cells, transparent
/// pixels for unobserved ones. A snapshot with no rows gives a 0x0 image.
pub fn rasterize(grid: &Vec<Vec<Option<Tile>>>) -> (img: RasterImage)
    requires
        is_rectangular(grid@),
        grid@.len() * grid_cols(grid@) * 4 <= usize::MAX,
    ensures
        depicts(img, grid@),
{
    let rows = grid.len();
    let cols: usize = if rows == 0 {
        0
    } else {
        grid[0].len()
    };
    let mut pixels: Vec<u8> = Vec::new();
    let mut i: usize = 0;
    while i < rows
        invariant
            rows == grid@.len(),
            cols == grid_cols(grid@),
            is_rectangular(grid@),
            rows * cols * 4 <= usize::MAX,
            i <= rows,
            pixels@.len() == i * cols * 4,
            forall|a: int, b: int|
                0 <= a < i && 0 <= b < cols ==> quad(pixels@, a * cols + b) == cell_color(
                    #[trigger] grid@[a]@[b],
                ),
        decreases rows - i,
    {
        let row = &grid[i];
        assert(row@.len() == cols);
        proof {
            lemma_row_start_mono(i as int, cols as int);
            assert((i + 1) * cols * 4 <= rows * cols * 4) by (nonlinear_arith)
                requires
                    i < rows,
                    0 <= cols,
            ;
        }
        let mut j: usize = 0;
        while j < cols
            invariant
                rows == grid@.len(),
                cols == grid_cols(grid@),
                row@ == grid@[i as int]@,
                row@.len() == cols,
                i < rows,
                j <= cols,
                (i + 1) * cols * 4 <= rows * cols * 4,
                rows * cols * 4 <= usize::MAX,
                0 <= i * cols,
                (i + 1) * cols == i * cols + cols,
                pixels@.len() == (i * cols + j) * 4,
                forall|a: int, b: int|
                    0 <= a < i && 0 <= b < cols ==> quad(pixels@, a * cols + b) == cell_color(
                        #[trigger] grid@[a]@[b],
                    ),
                forall|b: int|
                    0 <= b < j ==> quad(pixels@, i * cols + b) == cell_color(
                        #[trigger] grid@[i as int]@[b],
                    ),
            decreases cols - j,
        {
            let c = cell_to_color(&row[j]);
            let ghost before = pixels@;
            pixels.push(c.0);
            pixels.push(c.1);
            pixels.push(c.2);
            pixels.push(c.3);
            proof {
                assert forall|a: int, b: int|
                    0 <= a < i && 0 <= b < cols implies quad(pixels@, a * cols + b) == cell_color(
                        #[trigger] grid@[a]@[b],
                    ) by {
                    lemma_cell_in_bounds(a, b, i as int, cols as int);
                    assert(quad(before, a * cols + b) == cell_color(grid@[a]@[b]));
                };
                assert forall|b: int|
                    0 <= b < j + 1 implies quad(pixels@, i * cols + b) == cell_color(
                        #[trigger] grid@[i as int]@[b],
                    ) by {
                    if b < j {
                        assert(quad(before, i * cols + b) == cell_color(grid@[i as int]@[b]));
                    }
                };
            }
            j = j + 1;
        }
        assert forall|a: int, b: int|
            0 <= a < i + 1 && 0 <= b < cols implies quad(pixels@, a * cols + b) == cell_color(
                #[trigger] grid@[a]@[b],
            ) by {
            if a == i {
                assert(quad(pixels@, i * cols + b) == cell_color(grid@[i as int]@[b]));
            }
        };
        i = i + 1;
    }
    let img = RasterImage { width: cols, height: rows, pixels };
    assert(img.wf()) by (nonlinear_arith)
        requires
            img.bytes().len() == rows * cols * 4,
            img.spec_width() == cols,
            img.spec_height() == rows,
    ;
    img
}

/// Every pixel of a rasterized snapshot is transparent exactly where the cell is unobserved.
pub proof fn lemma_transparent_iff_unobserved(
    img: RasterImage,
    grid: Seq<Vec<Option<Tile>>>,
    i: int,
    j: int,
)
    requires
        depicts(img, grid),
        0 <= i < grid.len(),
        0 <= j < grid_cols(grid),
    ensures
        img.pixel(i, j) == transparent() <==> grid[i]@[j].is_none(),
{
    assert(img.pixel(i, j) == cell_color(grid[i]@[j]));
}

/// The rasterization of a grid has `width = cols` and `height = rows`, so a grid
/// with no rows gives a 0x0 image.
pub proof fn lemma_raster_dimensions(img: RasterImage, grid: Seq<Vec<Option<Tile>>>)
    requires
        depicts(img, grid),
    ensures
        img.spec_height() == grid.len(),
        grid.len() > 0 ==> img.spec_width() == grid[0]@.len(),
        grid.len() == 0 ==> img.spec_width() == 0 && img.spec_height() == 0 && img.bytes().len()
            == 0,
{
    if grid.len() == 0 {
        assert(img.bytes().len() == 0) by (nonlinear_arith)
            requires
                img.bytes().len() == img.spec_height() * img.spec_width() * 4,
                img.spec_height() == 0,
        ;
    }
}

/// A grid whose every cell is an observed tile of terrain `t`.
pub open spec fn is_uniform(grid: Seq<Vec<Option<Tile>>>, t: Terrain) -> bool {
    &&& is_rectangular(grid)
    &&& forall|i: int, j: int|
        0 <= i < grid.len() && 0 <= j < grid_cols(grid) ==> (#[trigger] grid[i]@[j] matches Some(
            tile,
        ) && tile.tile_type == t)
}

/// Rasterizing a grid made of one terrain gives an image whose every pixel holds that
/// terrain's color, byte for byte.
pub proof fn lemma_uniform_grid_uniform_image(
    img: RasterImage,
    grid: Seq<Vec<Option<Tile>>>,
    t: Terrain,
)
    requires
        depicts(img, grid),
        is_uniform(grid, t),
    ensures
        forall|i: int, j: int|
            0 <= i < img.spec_height() && 0 <= j < img.spec_width() ==> #[trigger] img.pixel(i, j)
                == terrain_color(t),
{
    assert forall|i: int, j: int|
        0 <= i < img.spec_height() && 0 <= j < img.spec_width() implies #[trigger] img.pixel(i, j)
        == terrain_color(t) by {
        assert(img.pixel(i, j) == cell_color(grid[i]@[j]));
    };
}

} // verus!
