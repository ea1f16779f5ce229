use visualizer::encoder::encoder_args;
use visualizer::ledger::{
    next_persist_step, FinalizeStep, Frame, Frames, Outcome, PersistStep, SaveError,
};
use visualizer::naming::frame_file_name_string;
use visualizer::shared::{update_report, update_resource};
use visualizer::terrain::{ContentKind, Terrain, Tile};

fn grid_of(t: Option<Terrain>) -> Option<Vec<Vec<Option<Tile>>>> {
    let cell = t.map(|t| Tile { tile_type: t, content: ContentKind::NoContent });
    Some(vec![vec![cell; 2]; 2])
}

#[test]
fn new_ledger_is_empty() {
    let f = Frames::new();
    assert_eq!((f.received(), f.saved(), f.failed()), (0, 0, 0));
    assert_eq!(f.finalize_step(0), FinalizeStep::Encode);
}

#[test]
fn missing_map_is_ignored() {
    let mut f = Frames::new();
    assert!(f.add_frame(&None).is_none());
    assert_eq!(f.received(), 0);
}

#[test]
fn ids_are_dense_in_call_order() {
    let mut f = Frames::new();
    for expected in 0..5usize {
        let frame = f.add_frame(&grid_of(Some(Terrain::Grass))).unwrap();
        assert_eq!(frame.id(), expected);
    }
    assert_eq!(f.received(), 5);
    assert_eq!(f.finalize_step(0), FinalizeStep::Wait);
}

#[test]
fn all_saved_then_encode() {
    let n = 7usize;
    let mut f = Frames::new();
    let ids: Vec<usize> = (0..n).map(|_| f.add_frame(&grid_of(Some(Terrain::Sand))).unwrap().id()).collect();
    assert_eq!(ids, (0..n).collect::<Vec<_>>());
    for id in [3usize, 0, 6, 1, 5, 2, 4] {
        assert_eq!(f.finalize_step(0), FinalizeStep::Wait);
        assert!(f.record_outcome(id, Outcome::Saved));
    }
    assert_eq!(f.saved(), n);
    assert_eq!(f.failed(), 0);
    assert_eq!(f.finalize_step(0), FinalizeStep::Encode);
    assert_eq!(f.finalize_step(100), FinalizeStep::Encode);
}

#[test]
fn outcome_counted_once() {
    let mut f = Frames::new();
    f.add_frame(&grid_of(None));
    assert!(f.record_outcome(0, Outcome::Failed));
    assert!(!f.record_outcome(0, Outcome::Saved));
    assert!(!f.record_outcome(0, Outcome::Failed));
    assert!(!f.record_outcome(1, Outcome::Saved));
    assert_eq!((f.received(), f.saved(), f.failed()), (1, 0, 1));
}

#[test]
fn quiescent_counts_add_up() {
    let mut f = Frames::new();
    for _ in 0..6 {
        f.add_frame(&grid_of(Some(Terrain::Lava)));
    }
    let outcomes = [Outcome::Saved, Outcome::Failed, Outcome::Saved, Outcome::Failed, Outcome::Failed, Outcome::Saved];
    for (id, o) in outcomes.iter().enumerate() {
        f.record_outcome(id, *o);
    }
    assert_eq!(f.received(), f.saved() + f.failed());
    assert_eq!(f.saved(), 3);
}

#[test]
fn failure_budget_stops_waiting() {
    let mut f = Frames::new();
    for _ in 0..8 {
        f.add_frame(&grid_of(Some(Terrain::Snow)));
    }
    for id in 0..5 {
        f.record_outcome(id, Outcome::Failed);
    }
    for cycles in 0..10 {
        assert_eq!(f.finalize_step(cycles), FinalizeStep::Wait);
    }
    assert_eq!(f.finalize_step(10), FinalizeStep::TooManyFailures);
    assert_eq!(f.finalize_step(11), FinalizeStep::TooManyFailures);
}

#[test]
fn few_failures_keep_waiting() {
    let mut f = Frames::new();
    for _ in 0..3 {
        f.add_frame(&grid_of(Some(Terrain::Snow)));
    }
    for id in 0..3 {
        f.record_outcome(id, Outcome::Failed);
    }
    assert_eq!(f.finalize_step(50), FinalizeStep::Wait);
}

#[test]
fn persist_steps() {
    let terminal = [SaveError::Decoding, SaveError::Encoding, SaveError::Unsupported, SaveError::Io];
    for e in terminal {
        assert_eq!(next_persist_step(1, &Err(e)), PersistStep::Finish(Outcome::Failed));
    }
    assert_eq!(next_persist_step(1, &Ok(())), PersistStep::Finish(Outcome::Saved));
    assert_eq!(next_persist_step(1, &Err(SaveError::Other)), PersistStep::Retry);
    assert_eq!(next_persist_step(2, &Ok(())), PersistStep::Finish(Outcome::Saved));
    assert_eq!(next_persist_step(2, &Err(SaveError::Other)), PersistStep::Finish(Outcome::Failed));
}

#[test]
fn frame_without_map_is_empty() {
    let frame = Frame::new_from_robot_map(&None, 4);
    assert_eq!(frame.id(), 4);
    assert_eq!(frame.image().width(), 0);
    assert_eq!(frame.image().height(), 0);
}

#[test]
fn three_snapshots_end_to_end() {
    let mut f = Frames::new();
    let mixed = Some(vec![
        vec![None, Some(Tile { tile_type: Terrain::Street, content: ContentKind::NoContent })],
        vec![
            Some(Tile { tile_type: Terrain::Street, content: ContentKind::Rock }),
            Some(Tile { tile_type: Terrain::Street, content: ContentKind::NoContent }),
        ],
    ]);
    let snapshots = [grid_of(Some(Terrain::Grass)), grid_of(None), mixed];
    let mut frames = Vec::new();
    for s in snapshots.iter() {
        frames.push(f.add_frame(s).unwrap());
    }
    let names: Vec<String> = frames.iter().map(|fr| frame_file_name_string(fr.id())).collect();
    assert_eq!(names, vec!["00000.png", "00001.png", "00002.png"]);
    assert_eq!(
        frames[0].image().as_bytes().clone(),
        [0u8, 255, 0, 255].repeat(4)
    );
    assert_eq!(frames[1].image().as_bytes().clone(), vec![0u8; 16]);
    let mut expected = vec![0u8, 0, 0, 0];
    expected.extend([0u8, 0, 0, 255].repeat(3));
    assert_eq!(frames[2].image().as_bytes().clone(), expected);
    for fr in frames.iter() {
        assert!(f.record_outcome(fr.id(), Outcome::Saved));
    }
    assert_eq!(f.finalize_step(0), FinalizeStep::Encode);
    let args = encoder_args("../pngs", "output_video.mp4");
    assert_eq!(args[6], "../pngs/%05d.png");
    assert_eq!(args.last().unwrap(), "output_video.mp4");
}

#[test]
fn encoder_command_line() {
    let args = encoder_args("frames", "out.mp4");
    let expected = [
        "-y", "-framerate", "60", "-f", "image2", "-i", "frames/%05d.png", "-vcodec", "libx264",
        "-crf", "17", "-preset", "medium", "out.mp4",
    ];
    assert_eq!(args, expected.iter().map(|s| s.to_string()).collect::<Vec<_>>());
}

#[test]
fn update_resource_replaces_value() {
    let cell = std::sync::Mutex::new(3usize);
    assert_eq!(update_resource(&cell, 9), Ok(()));
    assert_eq!(*cell.lock().unwrap(), 9);
}

#[test]
fn update_report_names_poisoning() {
    assert_eq!(update_report(true), Ok(()));
    assert_eq!(update_report(false), Err("Mutex was poisoned".to_string()));
}
