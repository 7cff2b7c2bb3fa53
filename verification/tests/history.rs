use teal::diff::{DiffMap, PixelOp};
use teal::history::History;
use teal::image::Image;
use teal::pixel::{CHANNEL_ONE, Pixel};

fn white() -> Pixel {
    Pixel { r: CHANNEL_ONE, g: CHANNEL_ONE, b: CHANNEL_ONE, a: CHANNEL_ONE }
}

/// An operation that restores pixel (0, 0) to a marker value.
fn marker_op(marker: u32) -> PixelOp {
    let mut diff = DiffMap::new();
    diff.insert_if_absent(0, 0, Pixel { r: marker, g: 0, b: 0, a: CHANNEL_ONE });
    PixelOp::new(diff)
}

#[test]
fn eviction_halves_the_undo_sequence() {
    // With max_undo = 10, the 11th commit truncates the sequence to
    // exactly half the bound: the 5 most recent operations, oldest
    // first.
    let mut history = History::new(10, 10, false);
    for marker in 1..=11u32 {
        history.commit(marker_op(marker));
    }
    assert_eq!(history.undo_buffer.len(), 5);
    for (slot, expected) in (7..=11u32).enumerate() {
        assert_eq!(history.undo_buffer[slot].undo_pixels.entries[0].pixel.r, expected);
    }
}

#[test]
fn commits_within_the_bound_keep_everything() {
    let mut history = History::new(10, 10, false);
    for marker in 1..=10u32 {
        history.commit(marker_op(marker));
    }
    assert_eq!(history.undo_buffer.len(), 10);
    assert_eq!(history.undo_buffer[0].undo_pixels.entries[0].pixel.r, 1);
}

#[test]
fn commit_can_clear_the_redo_sequence() {
    let mut image = Image::new(2, 2, white());
    let mut history = History::new(10, 10, true);
    history.commit(marker_op(1));
    assert!(history.undo(&mut image));
    assert_eq!(history.redo_buffer.len(), 1);
    history.commit(marker_op(2));
    assert_eq!(history.redo_buffer.len(), 0);

    let mut keeping = History::new(10, 10, false);
    keeping.commit(marker_op(1));
    assert!(keeping.undo(&mut image));
    keeping.commit(marker_op(2));
    assert_eq!(keeping.redo_buffer.len(), 1);
}

#[test]
fn undo_and_redo_report_empty_sequences() {
    let mut image = Image::new(2, 2, white());
    let mut history = History::new(10, 10, false);
    assert!(!history.undo(&mut image));
    assert!(!history.redo(&mut image));
    assert_eq!(*image.get(0, 0), white());
}

#[test]
fn apply_and_invert_toggles_exactly() {
    // Applying a diff operation and then applying the inverted operation
    // it became restores the canvas exactly, pixel for pixel; a further
    // application brings the edit back.
    let mut image = Image::new(2, 2, white());
    let red = Pixel { r: CHANNEL_ONE, g: 0, b: 0, a: CHANNEL_ONE };
    let mut op = marker_op(0);
    // First application: writes (0, 0, 0, 1) over white at (0, 0).
    op.undo(&mut image);
    let written = *image.get(0, 0);
    assert_eq!(written, Pixel { r: 0, g: 0, b: 0, a: CHANNEL_ONE });
    assert_ne!(written, red);
    // Second application: the op now holds white, so the canvas returns
    // to its original state.
    op.undo(&mut image);
    for x in 0..2 {
        for y in 0..2 {
            assert_eq!(*image.get(x, y), white());
        }
    }
    // Third application: the edit comes back.
    op.undo(&mut image);
    assert_eq!(*image.get(0, 0), written);
}

#[test]
fn diff_map_keeps_only_the_first_capture() {
    let mut diff = DiffMap::new();
    let first = Pixel { r: 1, g: 2, b: 3, a: 4 };
    let second = Pixel { r: 9, g: 9, b: 9, a: 9 };
    diff.insert_if_absent(5, 6, first);
    diff.insert_if_absent(5, 6, second);
    assert_eq!(diff.len(), 1);
    assert_eq!(diff.entries[0].pixel, first);
    assert!(!diff.is_empty());
    assert!(diff.contains(5, 6));
    assert!(!diff.contains(6, 5));
}
