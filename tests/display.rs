use visualizer::events::{react_to_event, EventReaction, RobotEvent, SoundCue};
use visualizer::inventory::backpack_to_text;
use visualizer::palette::{
    color_runs, map_content_colors, map_terrain_colors, robot_content_view_colors,
    robot_view_colors,
};
use visualizer::terrain::{ContentKind, Terrain, Tile};

fn t(tt: Terrain, c: ContentKind) -> Option<Tile> {
    Some(Tile { tile_type: tt, content: c })
}

#[test]
fn view_colors_are_transposed() {
    let view = vec![
        vec![t(Terrain::Grass, ContentKind::Rock), None, t(Terrain::Lava, ContentKind::NoContent)],
        vec![None, t(Terrain::Snow, ContentKind::Coin), None],
    ];
    let m = robot_view_colors(&view);
    assert_eq!(m.len(), 3);
    assert!(m.iter().all(|r| r.len() == 3));
    assert_eq!(m[0][0], (0, 255, 0, 255));
    assert_eq!(m[1][0], (105, 105, 105, 255));
    assert_eq!(m[2][0], (255, 0, 0, 255));
    assert_eq!(m[0][1], (105, 105, 105, 255));
    assert_eq!(m[1][1], (255, 255, 255, 255));
    assert_eq!(m[0][2], (0, 0, 0, 0));
    let c = robot_content_view_colors(&view);
    assert_eq!(c[0][0], (112, 128, 144, 255));
    assert_eq!(c[1][0], (0, 0, 0, 0));
    assert_eq!(c[2][0], (0, 0, 0, 0));
    assert_eq!(c[1][1], (255, 215, 0, 255));
    assert_eq!(c[2][2], (0, 0, 0, 255));
}

#[test]
fn map_colors_are_transposed() {
    let grid = vec![
        vec![t(Terrain::Sand, ContentKind::Tree), None],
        vec![t(Terrain::Street, ContentKind::NoContent), t(Terrain::Hill, ContentKind::Fire)],
        vec![None, None],
    ];
    let m = map_terrain_colors(&grid);
    assert_eq!(m.len(), 2);
    assert!(m.iter().all(|r| r.len() == 3));
    assert_eq!(m[0][0], (255, 255, 0, 255));
    assert_eq!(m[0][1], (0, 0, 0, 255));
    assert_eq!(m[1][1], (255, 128, 0, 255));
    assert_eq!(m[1][0], (0, 0, 0, 0));
    let c = map_content_colors(&grid);
    assert_eq!(c[0][0], (0, 100, 0, 255));
    assert_eq!(c[1][1], (255, 0, 0, 255));
    assert_eq!(c[0][1], (0, 0, 0, 0));
}

#[test]
fn moved_event_records_a_frame() {
    let r = react_to_event(RobotEvent::Moved, false);
    assert!(r.add_frame && r.update_coordinates);
    assert!(!r.clear_images && !r.update_energy && !r.update_backpack);
    assert_eq!(r.sound, None);
}

#[test]
fn other_events() {
    assert!(react_to_event(RobotEvent::Ready, true).clear_images);
    assert!(react_to_event(RobotEvent::EnergyConsumed, false).update_energy);
    assert!(react_to_event(RobotEvent::EnergyRecharged, false).update_energy);
    let added = react_to_event(RobotEvent::AddedToBackpack, true);
    assert!(added.update_backpack);
    assert_eq!(added.sound, Some(SoundCue::AddedToBackpack));
    assert_eq!(react_to_event(RobotEvent::AddedToBackpack, false).sound, None);
    assert_eq!(react_to_event(RobotEvent::TimeChanged, true).sound, Some(SoundCue::TimeChanged));
    let quiet = EventReaction {
        clear_images: false,
        update_energy: false,
        update_coordinates: false,
        add_frame: false,
        update_backpack: false,
        sound: None,
    };
    assert_eq!(react_to_event(RobotEvent::Terminated, true), quiet);
    assert_eq!(react_to_event(RobotEvent::DayChanged, true), quiet);
    assert_eq!(react_to_event(RobotEvent::TileContentUpdated, true), quiet);
}

#[test]
fn backpack_text() {
    assert_eq!(backpack_to_text(0, &vec![("Rock".to_string(), 2)]), "Empty backpack");
    assert_eq!(backpack_to_text(10, &Vec::new()), "Empty backpack");
    let contents = vec![
        ("Rock".to_string(), 3),
        ("Tree".to_string(), 0),
        ("Coin".to_string(), 120),
    ];
    assert_eq!(
        backpack_to_text(20, &contents),
        "Backpack (Size: 20):  Rock: 3  Coin: 120  "
    );
    assert_eq!(backpack_to_text(5, &vec![("Fish".to_string(), 0)]), "Backpack (Size: 5):  ");
}

#[test]
fn runs_merge_equal_neighbours() {
    let a = (1u8, 2, 3, 4);
    let b = (9u8, 9, 9, 9);
    let line = vec![a, a, b, b, b, a, b];
    assert_eq!(color_runs(&line, 0, 7), vec![(0, 2), (2, 5), (5, 6), (6, 7)]);
    assert_eq!(color_runs(&line, 1, 4), vec![(1, 2), (2, 4)]);
    assert_eq!(color_runs(&line, 3, 3), Vec::<(usize, usize)>::new());
    assert_eq!(color_runs(&vec![a; 5], 0, 5), vec![(0, 5)]);
}
