use teal::application::{AppAction, Application, BrushEntry};
use teal::brush::Brush;
use teal::config::Config;
use teal::gui::{DragEvent, Event, Key, KeyEvent};
use teal::image::Image;
use teal::pixel::{CHANNEL_ONE, DisplayPixel, Pixel};
use teal::view::ScreenBuffer;

struct NullScreen;

impl ScreenBuffer for NullScreen {
    fn width(&self) -> u32 {
        0
    }
    fn height(&self) -> u32 {
        0
    }
    fn set(&mut self, _x: u32, _y: u32, _pixel: DisplayPixel) {}
}

fn white() -> Pixel {
    Pixel { r: CHANNEL_ONE, g: CHANNEL_ONE, b: CHANNEL_ONE, a: CHANNEL_ONE }
}

fn config() -> Config {
    Config {
        max_undo: 10,
        max_redo: 10,
        clear_redo_on_commit: false,
        brushes: vec![],
        default_color: white(),
    }
}

/// A single-stamp brush: a 1x1 raster whose one pixel has the given
/// average luminance, so the kernel is one point at (0, 0) with weight
/// `CHANNEL_ONE - luminance`.
fn dot_brush(luminance: u32) -> Brush {
    let raster = Image::new(1, 1, Pixel { r: luminance, g: luminance, b: luminance, a: CHANNEL_ONE });
    Brush::new(String::from("dot"), raster)
}

fn app_with_brush(width: u32, height: u32, luminance: u32) -> Application {
    let image = Image::new(width, height, white());
    let brushes = vec![BrushEntry { quickid: 'b', brush: dot_brush(luminance) }];
    Application::new(image, brushes, config())
}

fn press(app: &mut Application, value: char, alt: bool) -> Option<AppAction> {
    let mut screen = NullScreen;
    app.handle_event(
        Event::Key(KeyEvent::Press(Key::Sequence { value, control: false, alt })),
        &mut screen,
    )
}

fn drag(app: &mut Application, de: DragEvent) -> Option<AppAction> {
    let mut screen = NullScreen;
    app.handle_event(Event::Drag(de), &mut screen)
}

#[test]
fn dot_stroke_paints_undoes_and_redoes() {
    // 4x4 white canvas, single full-weight stamp at the centre of the
    // brush, paint colour blue, stroke begun and ended at canvas
    // coordinate (2, 2): that pixel turns blue, undo restores white,
    // redo returns it to blue.
    let mut app = app_with_brush(4, 4, 0);
    assert!(press(&mut app, 'b', true).is_none());
    let mut screen = NullScreen;
    app.handle_event(
        Event::ColorUpdate { r: 0, g: 0, b: CHANNEL_ONE, a: CHANNEL_ONE },
        &mut screen,
    );
    // Factor starts at 0.5, so display 4000 milli maps to canvas 2.
    assert!(drag(&mut app, DragEvent::Begin(4_000, 4_000)).is_none());
    assert!(drag(&mut app, DragEvent::End(0, 0)).is_none());
    let blue = Pixel { r: 0, g: 0, b: CHANNEL_ONE, a: CHANNEL_ONE };
    assert_eq!(*app.image.get(2, 2), blue);
    // Every other pixel is untouched.
    for x in 0..4 {
        for y in 0..4 {
            if (x, y) != (2, 2) {
                assert_eq!(*app.image.get(x, y), white());
            }
        }
    }
    assert!(press(&mut app, 'u', false).is_none());
    assert_eq!(*app.image.get(2, 2), white());
    assert!(press(&mut app, 'r', false).is_none());
    assert_eq!(*app.image.get(2, 2), blue);
}

#[test]
fn zero_length_stroke_stamps_exactly_once() {
    // A begin-then-immediately-end drag still applies exactly one stamp:
    // with a half-weight brush, one application of black over white gives
    // exactly the half-way value; a second application would darken it
    // further.
    let mut app = app_with_brush(4, 4, CHANNEL_ONE / 2);
    assert!(press(&mut app, 'b', true).is_none());
    let mut screen = NullScreen;
    app.handle_event(Event::ColorUpdate { r: 0, g: 0, b: 0, a: CHANNEL_ONE }, &mut screen);
    assert!(drag(&mut app, DragEvent::Begin(4_000, 4_000)).is_none());
    assert!(drag(&mut app, DragEvent::End(0, 0)).is_none());
    let half = CHANNEL_ONE / 2;
    assert_eq!(*app.image.get(2, 2), Pixel { r: half, g: half, b: half, a: CHANNEL_ONE });
}

#[test]
fn diff_captures_prestroke_value_not_intermediate() {
    // A stroke that touches the same pixel three times blends three
    // times, but undo restores the value from before the stroke began.
    let mut app = app_with_brush(4, 4, CHANNEL_ONE / 2);
    assert!(press(&mut app, 'b', true).is_none());
    let mut screen = NullScreen;
    app.handle_event(Event::ColorUpdate { r: 0, g: 0, b: CHANNEL_ONE, a: CHANNEL_ONE }, &mut screen);
    assert!(drag(&mut app, DragEvent::Begin(4_000, 4_000)).is_none());
    assert!(drag(&mut app, DragEvent::Update(0, 0)).is_none());
    assert!(drag(&mut app, DragEvent::Update(0, 0)).is_none());
    assert!(drag(&mut app, DragEvent::End(0, 0)).is_none());
    // Three half-strength coats of (0, 0, 1) over white.
    let touched = *app.image.get(2, 2);
    assert_eq!(touched, Pixel { r: 8192, g: 8192, b: CHANNEL_ONE, a: CHANNEL_ONE });
    assert!(press(&mut app, 'u', false).is_none());
    assert_eq!(*app.image.get(2, 2), white());
    assert!(press(&mut app, 'r', false).is_none());
    assert_eq!(*app.image.get(2, 2), touched);
}

#[test]
fn off_canvas_drag_is_a_no_op() {
    // A drag entirely outside the canvas bounds touches nothing, leaves
    // the canvas unmodified and yields no operation to undo.
    let mut app = app_with_brush(4, 4, 0);
    assert!(press(&mut app, 'b', true).is_none());
    assert!(drag(&mut app, DragEvent::Begin(40_000, 40_000)).is_none());
    assert!(drag(&mut app, DragEvent::Update(2_000, 0)).is_none());
    assert!(drag(&mut app, DragEvent::End(4_000, 0)).is_none());
    for x in 0..4 {
        for y in 0..4 {
            assert_eq!(*app.image.get(x, y), white());
        }
    }
    assert_eq!(press(&mut app, 'u', false), Some(AppAction::NoticeNothingToUndo));
}

#[test]
fn stroke_without_brush_is_refused() {
    let mut app = app_with_brush(4, 4, 0);
    assert_eq!(
        drag(&mut app, DragEvent::Begin(4_000, 4_000)),
        Some(AppAction::NoticeNoBrushSelected)
    );
    assert!(drag(&mut app, DragEvent::End(0, 0)).is_none());
    for x in 0..4 {
        for y in 0..4 {
            assert_eq!(*app.image.get(x, y), white());
        }
    }
}

#[test]
fn unknown_quickid_warns_and_selects_nothing() {
    let mut app = app_with_brush(4, 4, 0);
    assert_eq!(press(&mut app, 'd', true), Some(AppAction::NoticeUnknownBrush('d')));
    assert_eq!(
        drag(&mut app, DragEvent::Begin(4_000, 4_000)),
        Some(AppAction::NoticeNoBrushSelected)
    );
}

#[test]
fn save_key_requests_a_save() {
    let mut app = app_with_brush(4, 4, 0);
    assert_eq!(press(&mut app, 's', false), Some(AppAction::SaveImage));
}

#[test]
fn zoom_keys_step_the_view_factor() {
    let mut app = app_with_brush(4, 4, 0);
    assert_eq!(app.image_view.conversion_factor, 5);
    assert!(press(&mut app, 'z', false).is_none());
    assert_eq!(app.image_view.conversion_factor, 4);
    assert!(press(&mut app, 'x', false).is_none());
    assert!(press(&mut app, 'x', false).is_none());
    assert_eq!(app.image_view.conversion_factor, 6);
}

#[test]
fn color_update_sets_the_paint_color() {
    let mut app = app_with_brush(4, 4, 0);
    let mut screen = NullScreen;
    app.handle_event(Event::ColorUpdate { r: 1, g: 2, b: 3, a: 4 }, &mut screen);
    assert_eq!(app.input_state.color, Some(Pixel { r: 1, g: 2, b: 3, a: 4 }));
}

#[test]
fn line_stroke_covers_the_segment() {
    // Factor 1.0, full-weight dot brush: a drag from canvas (0, 0) to
    // (3, 0) walks the whole segment and paints every pixel on it.
    let image = Image::new(4, 1, white());
    let brushes = vec![BrushEntry { quickid: 'b', brush: dot_brush(0) }];
    let mut app = Application::new(image, brushes, config());
    app.image_view = teal::view::ImageView::from_parts(0, 0, 10);
    assert!(press(&mut app, 'b', true).is_none());
    let mut screen = NullScreen;
    app.handle_event(Event::ColorUpdate { r: 0, g: 0, b: 0, a: CHANNEL_ONE }, &mut screen);
    assert!(drag(&mut app, DragEvent::Begin(0, 0)).is_none());
    assert!(drag(&mut app, DragEvent::End(3_000, 0)).is_none());
    let black = Pixel { r: 0, g: 0, b: 0, a: CHANNEL_ONE };
    assert_eq!(*app.image.get(0, 0), black);
    assert_eq!(*app.image.get(1, 0), black);
    assert_eq!(*app.image.get(2, 0), black);
    // The loop runs for t < 1.0, so the exact endpoint is reached only
    // where a step lands on it; with length 3.0 and step 0.4 no step
    // does, and pixel (3, 0) keeps its value.
    assert_eq!(*app.image.get(3, 0), white());
}
