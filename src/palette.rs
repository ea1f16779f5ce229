use vstd::prelude::*;

use crate::raster::{grid_cols, is_rectangular};
use crate::terrain::{cell_to_color, content_color, match_color_to_content, terrain_color, Color, Tile};

verus! {

/// Side of the robot's local view.
pub const VIEW_SIDE: usize = 3;

/// How the cells of a grid are colored for display.
#[derive(Clone, Copy, Debug, PartialEq, Eq, Structural)]
pub enum Palette {
    /// Terrain colors; unobserved cells transparent.
    Terrain,
    /// Terrain colors; unobserved cells dark grey.
    TerrainView,
    /// Content colors; unobserved cells transparent.
    Content,
}

/// The display color of one cell under a palette.
pub open spec fn palette_color(p: Palette, cell: Option<Tile>) -> Color {
    match cell {
        Some(tile) => match p {
            Palette::Content => content_color(tile.content),
            _ => terrain_color(tile.tile_type),
        },
        None => match p {
            Palette::TerrainView => (105u8, 105u8, 105u8, 255u8),
            _ => (0u8, 0u8, 0u8, 0u8),
        },
    }
}

/// The entry at `a`, `b` of the transposed, colored grid: the color of cell (`b`, `a`)
/// when the grid has it, else `fill`.
pub open spec fn transposed_entry(
    grid: Seq<Vec<Option<Tile>>>,
    fill: Color,
    p: Palette,
    a: int,
    b: int,
) -> Color {
    if b < grid.len() && a < grid[b]@.len() {
        palette_color(p, grid[b]@[a])
    } else {
        fill
    }
}

/// `m` has `rows` rows of `cols` entries, each the transposed color of `grid`.
pub open spec fn is_transposed_colors(
    m: Seq<Vec<Color>>,
    grid: Seq<Vec<Option<Tile>>>,
    rows: nat,
    cols: nat,
    fill: Color,
    p: Palette,
) -> bool {
    &&& m.len() == rows
    &&& forall|a: int| 0 <= a < rows ==> #[trigger] m[a]@.len() == cols
    &&& forall|a: int, b: int|
        0 <= a < rows && 0 <= b < cols ==> #[trigger] m[a]@[b] == transposed_entry(
            grid,
            fill,
            p,
            a,
            b,
        )
}

fn color_cell(p: Palette, cell: &Option<Tile>) -> (c: Color)
    ensures
        c == palette_color(p, *cell),
{
    match cell {
        Some(tile) => match p {
            Palette::Content => match_color_to_content(&tile.content),
            _ => cell_to_color(cell),
        },
        None => match p {
            Palette::TerrainView => (105, 105, 105, 255),
            _ => (0, 0, 0, 0),
        },
    }
}

/// Colors `grid` under `p` and transposes it into a `rows` x `cols` matrix: entry
/// (`a`, `b`) is the color of cell (`b`, `a`), or `fill` where the grid has no such cell.
pub fn transposed_colors(
    grid: &Vec<Vec<Option<Tile>>>,
    rows: usize,
    cols: usize,
    fill: Color,
    p: Palette,
) -> (m: Vec<Vec<Color>>)
    ensures
        is_transposed_colors(m@, grid@, rows as nat, cols as nat, fill, p),
{
    let mut m: Vec<Vec<Color>> = Vec::new();
    let mut a: usize = 0;
    while a < rows
        invariant
            a <= rows,
            m@.len() == a,
            forall|x: int| 0 <= x < a ==> #[trigger] m@[x]@.len() == cols,
            forall|x: int, y: int|
                0 <= x < a && 0 <= y < cols ==> #[trigger] m@[x]@[y] == transposed_entry(
                    grid@,
                    fill,
                    p,
                    x,
                    y,
                ),
        decreases rows - a,
    {
        let mut row: Vec<Color> = Vec::new();
        let mut b: usize = 0;
        while b < cols
            invariant
                a < rows,
                b <= cols,
                row@.len() == b,
                forall|y: int|
                    0 <= y < b ==> #[trigger] row@[y] == transposed_entry(
                        grid@,
                        fill,
                        p,
                        a as int,
                        y,
                    ),
            decreases cols - b,
        {
            let c = if b < grid.len() && a < grid[b].len() {
                color_cell(p, &grid[b][a])
            } else {
                fill
            };
            row.push(c);
            b = b + 1;
        }
        m.push(row);
        a = a + 1;
    }
    m
}

/// The display colors of the robot's 3x3 local view, transposed: terrain colors, dark grey
/// where the robot sees nothing, transparent outside the view.
pub fn robot_view_colors(view: &Vec<Vec<Option<Tile>>>) -> (m: Vec<Vec<Color>>)
    ensures
        is_transposed_colors(
            m@,
            view@,
            VIEW_SIDE as nat,
            VIEW_SIDE as nat,
            (0u8, 0u8, 0u8, 0u8),
            Palette::TerrainView,
        ),
{
    transposed_colors(view, VIEW_SIDE, VIEW_SIDE, (0, 0, 0, 0), Palette::TerrainView)
}

/// The content colors of the robot's 3x3 local view, transposed: transparent where the
/// robot sees nothing, opaque black outside the view.
pub fn robot_content_view_colors(view: &Vec<Vec<Option<Tile>>>) -> (m: Vec<Vec<Color>>)
    ensures
        is_transposed_colors(
            m@,
            view@,
            VIEW_SIDE as nat,
            VIEW_SIDE as nat,
            (0u8, 0u8, 0u8, 255u8),
            Palette::Content,
        ),
{
    transposed_colors(view, VIEW_SIDE, VIEW_SIDE, (0, 0, 0, 255), Palette::Content)
}

/// The terrain colors of a discovered map, transposed (column-major for drawing).
pub fn map_terrain_colors(grid: &Vec<Vec<Option<Tile>>>) -> (m: Vec<Vec<Color>>)
    requires
        is_rectangular(grid@),
    ensures
        is_transposed_colors(
            m@,
            grid@,
            grid_cols(grid@),
            grid@.len(),
            (0u8, 0u8, 0u8, 0u8),
            Palette::Terrain,
        ),
{
    let cols: usize = if grid.len() == 0 {
        0
    } else {
        grid[0].len()
    };
    transposed_colors(grid, cols, grid.len(), (0, 0, 0, 0), Palette::Terrain)
}

/// The content colors of a discovered map, transposed (column-major for drawing).
pub fn map_content_colors(grid: &Vec<Vec<Option<Tile>>>) -> (m: Vec<Vec<Color>>)
    requires
        is_rectangular(grid@),
    ensures
        is_transposed_colors(
            m@,
            grid@,
            grid_cols(grid@),
            grid@.len(),
            (0u8, 0u8, 0u8, 0u8),
            Palette::Content,
        ),
{
    let cols: usize = if grid.len() == 0 {
        0
    } else {
        grid[0].len()
    };
    transposed_colors(grid, cols, grid.len(), (0, 0, 0, 0), Palette::Content)
}

/// `runs` splits `start..end` of `line` into maximal stretches of one color: in order,
/// without gaps, each non-empty, each of one color, and no two neighbours of the same color.
pub open spec fn is_color_runs(runs: Seq<(usize, usize)>, line: Seq<Color>, start: int, end: int) -> bool {
    &&& (runs.len() == 0 <==> start == end)
    &&& runs.len() > 0 ==> runs[0].0 == start && runs.last().1 == end
    &&& forall|k: int| 0 <= k < runs.len() ==> (#[trigger] runs[k]).0 < runs[k].1
    &&& forall|k: int| 0 <= k < runs.len() - 1 ==> (#[trigger] runs[k]).1 == runs[k + 1].0
    &&& forall|k: int, x: int|
        #![trigger runs[k], line[x]]
        0 <= k < runs.len() && runs[k].0 <= x < runs[k].1 ==> line[x] == line[runs[k].0 as int]
    &&& forall|k: int|
        0 <= k < runs.len() - 1 ==> line[(#[trigger] runs[k]).0 as int] != line[runs[k
            + 1].0 as int]
}

fn same_color(a: Color, b: Color) -> (r: bool)
    ensures
        r == (a == b),
{
    a.0 == b.0 && a.1 == b.1 && a.2 == b.2 && a.3 == b.3
}

/// Splits the cells `start..end` of one line of colors into maximal runs of one color, so
/// that each run can be drawn as a single rectangle.
pub fn color_runs(line: &Vec<Color>, start: usize, end: usize) -> (runs: Vec<(usize, usize)>)
    requires
        start <= end <= line@.len(),
    ensures
        is_color_runs(runs@, line@, start as int, end as int),
{
    let mut runs: Vec<(usize, usize)> = Vec::new();
    let mut i: usize = start;
    while i < end
        invariant
            start <= i <= end <= line@.len(),
            runs@.len() == 0 <==> i == start,
            runs@.len() > 0 ==> runs@[0].0 == start && runs@.last().1 == i,
            runs@.len() > 0 && i < end ==> line@[runs@.last().0 as int] != line@[i as int],
            forall|k: int| 0 <= k < runs@.len() ==> (#[trigger] runs@[k]).0 < runs@[k].1,
            forall|k: int| 0 <= k < runs@.len() - 1 ==> (#[trigger] runs@[k]).1 == runs@[k + 1].0,
            forall|k: int, x: int|
                #![trigger runs@[k], line@[x]]
                0 <= k < runs@.len() && runs@[k].0 <= x < runs@[k].1 ==> line@[x] == line@[runs@[k].0 as int],
            forall|k: int|
                0 <= k < runs@.len() - 1 ==> line@[(#[trigger] runs@[k]).0 as int] != line@[runs@[k
                    + 1].0 as int],
        decreases end - i,
    {
        let color = line[i];
        let mut j: usize = i + 1;
        while j < end && same_color(line[j], color)
            invariant
                i < j <= end <= line@.len(),
                color == line@[i as int],
                forall|x: int| i <= x < j ==> #[trigger] line@[x] == color,
            decreases end - j,
        {
            j = j + 1;
        }
        let ghost before = runs@;
        runs.push((i, j));
        proof {
            assert(runs@[runs@.len() - 1] == (i, j));
            assert forall|k: int, x: int|
                #![trigger runs@[k], line@[x]]
                0 <= k < runs@.len() && runs@[k].0 <= x < runs@[k].1 implies line@[x] == line@[runs@[k].0 as int] by {
                if k < runs@.len() - 1 {
                    assert(runs@[k] == before[k]);
                } else {
                    assert(line@[x] == color);
                }
            };
            assert forall|k: int| 0 <= k < runs@.len() - 1 implies (#[trigger] runs@[k]).1 == runs@[k
                + 1].0 by {
                if k == runs@.len() - 2 {
                    assert(runs@[k] == before.last());
                } else {
                    assert(runs@[k] == before[k] && runs@[k + 1] == before[k + 1]);
                }
            };
            assert forall|k: int|
                0 <= k < runs@.len() - 1 implies line@[(#[trigger] runs@[k]).0 as int]
                != line@[runs@[k + 1].0 as int] by {
                if k == runs@.len() - 2 {
                    assert(runs@[k] == before.last());
                } else {
                    assert(runs@[k] == before[k] && runs@[k + 1] == before[k + 1]);
                }
            };
        }
        i = j;
    }
    runs
}

} // verus!
