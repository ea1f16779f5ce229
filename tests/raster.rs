use visualizer::raster::rasterize;
use visualizer::terrain::{
    match_color_to_content, match_color_to_type, ContentKind, Terrain, Tile,
};

fn tile(t: Terrain) -> Option<Tile> {
    Some(Tile { tile_type: t, content: ContentKind::NoContent })
}

fn uniform(t: Terrain, rows: usize, cols: usize) -> Vec<Vec<Option<Tile>>> {
    vec![vec![tile(t); cols]; rows]
}

const ALL_TERRAINS: [(Terrain, (u8, u8, u8, u8)); 12] = [
    (Terrain::Grass, (0, 255, 0, 255)),
    (Terrain::Street, (0, 0, 0, 255)),
    (Terrain::ShallowWater, (0, 0, 255, 255)),
    (Terrain::DeepWater, (0, 0, 128, 255)),
    (Terrain::Sand, (255, 255, 0, 255)),
    (Terrain::Hill, (255, 128, 0, 255)),
    (Terrain::Mountain, (128, 128, 128, 255)),
    (Terrain::Wall, (255, 128, 0, 255)),
    (Terrain::Teleport(false), (255, 0, 255, 255)),
    (Terrain::Teleport(true), (255, 0, 255, 255)),
    (Terrain::Lava, (255, 0, 0, 255)),
    (Terrain::Snow, (255, 255, 255, 255)),
];

#[test]
fn color_table_matches() {
    for (t, c) in ALL_TERRAINS {
        assert_eq!(match_color_to_type(&t), c);
    }
}

#[test]
fn content_colors() {
    assert_eq!(match_color_to_content(&ContentKind::Rock), (112, 128, 144, 255));
    assert_eq!(match_color_to_content(&ContentKind::Coin), (255, 215, 0, 255));
    assert_eq!(match_color_to_content(&ContentKind::NoContent), (0, 0, 0, 0));
}

#[test]
fn empty_snapshot_gives_empty_image() {
    let img = rasterize(&Vec::new());
    assert_eq!(img.width(), 0);
    assert_eq!(img.height(), 0);
    assert!(img.as_bytes().is_empty());
}

#[test]
fn dimensions_follow_rows_and_columns() {
    let grid = uniform(Terrain::Sand, 2, 3);
    let img = rasterize(&grid);
    assert_eq!(img.width(), 3);
    assert_eq!(img.height(), 2);
    assert_eq!(img.as_bytes().len(), 2 * 3 * 4);
}

#[test]
fn rows_without_columns() {
    let grid: Vec<Vec<Option<Tile>>> = vec![Vec::new(), Vec::new()];
    let img = rasterize(&grid);
    assert_eq!(img.width(), 0);
    assert_eq!(img.height(), 2);
    assert!(img.as_bytes().is_empty());
}

#[test]
fn uniform_grid_gives_uniform_image() {
    for (t, c) in ALL_TERRAINS {
        let img = rasterize(&uniform(t, 3, 4));
        let bytes = img.as_bytes();
        for px in bytes.chunks(4) {
            assert_eq!((px[0], px[1], px[2], px[3]), c);
        }
        for r in 0..3 {
            for col in 0..4 {
                assert_eq!(img.pixel_at(r, col), c);
            }
        }
    }
}

#[test]
fn unobserved_cells_are_transparent() {
    let grid = vec![
        vec![None, tile(Terrain::Lava)],
        vec![tile(Terrain::Snow), None],
        vec![None, None],
    ];
    let img = rasterize(&grid);
    assert_eq!(img.width(), 2);
    assert_eq!(img.height(), 3);
    for r in 0..3 {
        for c in 0..2 {
            let transparent = img.pixel_at(r, c) == (0, 0, 0, 0);
            assert_eq!(transparent, grid[r][c].is_none());
        }
    }
    assert_eq!(img.pixel_at(0, 1), (255, 0, 0, 255));
    assert_eq!(img.pixel_at(1, 0), (255, 255, 255, 255));
}

#[test]
fn pixels_are_row_major() {
    let grid = vec![
        vec![tile(Terrain::Grass), tile(Terrain::Street)],
        vec![tile(Terrain::DeepWater), None],
    ];
    let img = rasterize(&grid);
    assert_eq!(
        img.as_bytes().clone(),
        vec![0, 255, 0, 255, 0, 0, 0, 255, 0, 0, 128, 255, 0, 0, 0, 0]
    );
}

#[test]
fn rasterize_is_deterministic() {
    let grid = vec![vec![tile(Terrain::Hill), None, tile(Terrain::Wall)]];
    assert_eq!(rasterize(&grid).as_bytes(), rasterize(&grid).as_bytes());
}
