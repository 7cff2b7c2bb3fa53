//! The application core: one owned value holding the canvas, the view,
//! the input state and the history, driven by a dispatch function invoked
//! once per input event. Everything the host must do on the outside —
//! save the image, show a notice — comes back as an action value.
use vstd::prelude::*;

use crate::brush::Brush;
use crate::config::Config;
use crate::diff::PixelOp;
use crate::diff::apply_diff;
use crate::diff::capture;
use crate::gui::DragEvent;
use crate::gui::Event;
use crate::gui::Key;
use crate::gui::KeyEvent;
use crate::history::History;
use crate::history::evict_spec;
use crate::image::Image;
use crate::ops::DragInput;
use crate::ops::DragState;
use crate::ops::PaintBrush;
use crate::ops::walk_full;
use crate::pixel::CHANNEL_ONE;
use crate::pixel::Pixel;
use crate::view::COORD_LIMIT;
use crate::view::FACTOR_LIMIT;
use crate::view::ImageView;
use crate::view::ScreenBuffer;

verus! {

/// What the host must do after an event, beyond repainting: save the
/// image, or show a user-visible notice.
#[derive(Clone, Copy, Debug, PartialEq, Eq, Structural)]
pub enum AppAction {
    /// Write the image out to its file.
    SaveImage,
    /// No brush is configured under this quick ID.
    NoticeUnknownBrush(char),
    /// A paint stroke began with no brush selected; it was refused.
    NoticeNoBrushSelected,
    /// Undo was requested with an empty undo sequence.
    NoticeNothingToUndo,
    /// Redo was requested with an empty redo sequence.
    NoticeNothingToRedo,
}

/// A loaded brush with its quick-select id.
pub struct BrushEntry {
    /// The character that selects this brush.
    pub quickid: char,
    /// The loaded brush.
    pub brush: Brush,
}

/// Current input state: what is held, selected and in progress.
pub struct InputState {
    /// Holds an in-progress drag operation.
    pub drag: Option<DragInput>,
    /// Holds the current key press, removed when released.
    pub key: Option<Key>,
    /// Command state handling incoming key presses.
    pub command: crate::command::CommandState,
    /// Current colour.
    pub color: Option<Pixel>,
    /// Currently selected brush (by quick ID).
    pub selected_brush: Option<char>,
}

/// Application data.
pub struct Application {
    /// Actual image data being operated on.
    pub image: Image,
    /// Image view, transforming the image for view on the screen.
    pub image_view: ImageView,
    /// Current input state of the system.
    pub input_state: InputState,
    /// Completed and undone operations.
    pub history: History,
    /// Loaded brushes with their quick IDs.
    pub brushes: Vec<BrushEntry>,
    /// Config file options.
    pub config: Config,
}

/// Whether some configured brush carries this quick ID.
pub open spec fn brushes_have(s: Seq<BrushEntry>, c: char) -> bool {
    exists|i: int| 0 <= i < s.len() && (#[trigger] s[i]).quickid == c
}

/// Two brushes with the same name, raster and kernel.
pub open spec fn brush_like(a: Brush, b: Brush) -> bool {
    &&& a.kernel@ == b.kernel@
    &&& a.data.width == b.data.width
    &&& a.data.height == b.data.height
    &&& a.data.pixels@ == b.data.pixels@
    &&& a.name@ == b.name@
}

/// The configured colour, or full-alpha white when none is set.
pub open spec fn color_or_white(c: Option<Pixel>) -> Pixel {
    match c {
        Some(p) => p,
        None => Pixel { r: CHANNEL_ONE, g: CHANNEL_ONE, b: CHANNEL_ONE, a: CHANNEL_ONE },
    }
}

/// The application with only the held key changed.
pub open spec fn with_key(o: Application, k: Option<Key>) -> Application {
    Application { input_state: InputState { key: k, ..o.input_state }, ..o }
}

/// The view after one zoom-in step.
pub open spec fn zoomed_in_view(v: ImageView) -> ImageView {
    if v.conversion_factor - 1 >= -FACTOR_LIMIT {
        ImageView { conversion_factor: (v.conversion_factor - 1) as i64, ..v }
    } else {
        v
    }
}

/// The view after one zoom-out step.
pub open spec fn zoomed_out_view(v: ImageView) -> ImageView {
    if v.conversion_factor + 1 <= FACTOR_LIMIT {
        ImageView { conversion_factor: (v.conversion_factor + 1) as i64, ..v }
    } else {
        v
    }
}

/// The image and the history changed exactly as one undo of the last
/// committed operation changes them.
pub open spec fn undo_transition(o: Application, n: Application) -> bool {
    let popped = o.history.undo_buffer@.last();
    &&& n.image.width == o.image.width
    &&& n.image.height == o.image.height
    &&& n.image.as_map() == apply_diff(o.image.as_map(), popped.as_map())
    &&& n.history.undo_buffer@ == o.history.undo_buffer@.drop_last()
    &&& exists|x: PixelOp|
        (#[trigger] x.as_map()) == capture(o.image.as_map(), popped.as_map().dom())
            && n.history.redo_buffer@ == evict_spec(
            o.history.redo_buffer@.push(x),
            o.history.max_redo as int,
        )
    &&& n.history.max_undo == o.history.max_undo
    &&& n.history.max_redo == o.history.max_redo
    &&& n.history.clear_redo_on_commit == o.history.clear_redo_on_commit
}

/// The image and the history changed exactly as one redo of the last
/// undone operation changes them.
pub open spec fn redo_transition(o: Application, n: Application) -> bool {
    let popped = o.history.redo_buffer@.last();
    &&& n.image.width == o.image.width
    &&& n.image.height == o.image.height
    &&& n.image.as_map() == apply_diff(o.image.as_map(), popped.as_map())
    &&& n.history.redo_buffer@ == o.history.redo_buffer@.drop_last()
    &&& exists|x: PixelOp|
        (#[trigger] x.as_map()) == capture(o.image.as_map(), popped.as_map().dom())
            && n.history.undo_buffer@ == evict_spec(
            o.history.undo_buffer@.push(x),
            o.history.max_undo as int,
        )
    &&& n.history.max_undo == o.history.max_undo
    &&& n.history.max_redo == o.history.max_redo
    &&& n.history.clear_redo_on_commit == o.history.clear_redo_on_commit
}

/// What a key press does, before the key itself is recorded as held:
/// alt plus a quick ID selects a brush; `u`, `r`, `s`, `z` and `x` are
/// the undo, redo, save and zoom commands; anything else does nothing.
pub open spec fn press_action_transition(
    o: Application,
    n: Application,
    k: Key,
    act: Option<AppAction>,
) -> bool {
    match k {
        Key::Sequence { value, control: _, alt } => {
            if alt {
                if brushes_have(o.brushes@, value) {
                    n == Application {
                        input_state: InputState {
                            selected_brush: Some(value),
                            ..o.input_state
                        },
                        ..o
                    } && act is None
                } else {
                    n == o && act == Some(AppAction::NoticeUnknownBrush(value))
                }
            } else if value == 'u' {
                &&& n.image_view == o.image_view
                &&& n.brushes == o.brushes
                &&& n.config == o.config
                &&& n.input_state == o.input_state
                &&& if o.history.undo_buffer@.len() > 0 {
                    undo_transition(o, n) && act is None
                } else {
                    &&& n.image == o.image
                    &&& n.history.undo_buffer@ == o.history.undo_buffer@
                    &&& n.history.redo_buffer@ == o.history.redo_buffer@
                    &&& n.history.max_undo == o.history.max_undo
                    &&& n.history.max_redo == o.history.max_redo
                    &&& n.history.clear_redo_on_commit == o.history.clear_redo_on_commit
                    &&& act == Some(AppAction::NoticeNothingToUndo)
                }
            } else if value == 'r' {
                &&& n.image_view == o.image_view
                &&& n.brushes == o.brushes
                &&& n.config == o.config
                &&& n.input_state == o.input_state
                &&& if o.history.redo_buffer@.len() > 0 {
                    redo_transition(o, n) && act is None
                } else {
                    &&& n.image == o.image
                    &&& n.history.undo_buffer@ == o.history.undo_buffer@
                    &&& n.history.redo_buffer@ == o.history.redo_buffer@
                    &&& n.history.max_undo == o.history.max_undo
                    &&& n.history.max_redo == o.history.max_redo
                    &&& n.history.clear_redo_on_commit == o.history.clear_redo_on_commit
                    &&& act == Some(AppAction::NoticeNothingToRedo)
                }
            } else if value == 's' {
                n == o && act == Some(AppAction::SaveImage)
            } else if value == 'z' {
                n == Application { image_view: zoomed_in_view(o.image_view), ..o } && act is None
            } else if value == 'x' {
                n == Application { image_view: zoomed_out_view(o.image_view), ..o } && act is None
            } else {
                n == o && act is None
            }
        },
        _ => n == o && act is None,
    }
}

/// What one drag event does: begin creates a stroke around the selected
/// brush (or refuses it), update walks one segment, end walks the last
/// segment and commits the stroke's diff where it touched anything.
pub open spec fn drag_transition(
    o: Application,
    n: Application,
    de: DragEvent,
    act: Option<AppAction>,
) -> bool {
    match de {
        DragEvent::Begin(x, y) => {
            if o.input_state.key == Some(Key::PlainControl) {
                n == o && act is None
            } else {
                match o.input_state.selected_brush {
                    None => n == o && act == Some(AppAction::NoticeNoBrushSelected),
                    Some(sel) => {
                        &&& act is None
                        &&& n.image == o.image
                        &&& n.image_view == o.image_view
                        &&& n.history == o.history
                        &&& n.brushes == o.brushes
                        &&& n.config == o.config
                        &&& n.input_state.key == o.input_state.key
                        &&& n.input_state.color == o.input_state.color
                        &&& n.input_state.selected_brush == o.input_state.selected_brush
                        &&& match n.input_state.drag {
                            Some(d) => {
                                &&& d.state == DragState::Active
                                &&& d.start_x == x
                                &&& d.start_y == y
                                &&& d.points@ == seq![(0i64, 0i64)]
                                &&& d.base@ == o.image.as_map()
                                &&& d.diff() == Map::<(int, int), Pixel>::empty()
                                &&& d.handler.color == color_or_white(o.input_state.color)
                                &&& exists|i: int|
                                    0 <= i < o.brushes@.len() && (#[trigger] o.brushes@[i]).quickid
                                        == sel && brush_like(d.handler.brush, o.brushes@[i].brush)
                            },
                            None => false,
                        }
                    },
                }
            }
        },
        DragEvent::Update(dx, dy) => {
            match o.input_state.drag {
                None => n == o && act is None,
                Some(d) => {
                    let a = d.seg_endpoint(
                        o.image_view,
                        d.points@.last().0 as int,
                        d.points@.last().1 as int,
                    );
                    let b = d.seg_endpoint(o.image_view, dx as int, dy as int);
                    let walked = walk_full(
                        o.image.as_map(),
                        d.diff(),
                        d.handler.brush.kernel@,
                        d.handler.color,
                        a.0,
                        a.1,
                        b.0,
                        b.1,
                    );
                    &&& act is None
                    &&& n.image_view == o.image_view
                    &&& n.history == o.history
                    &&& n.brushes == o.brushes
                    &&& n.config == o.config
                    &&& n.input_state.key == o.input_state.key
                    &&& n.input_state.color == o.input_state.color
                    &&& n.input_state.selected_brush == o.input_state.selected_brush
                    &&& n.image.width == o.image.width
                    &&& n.image.height == o.image.height
                    &&& n.image.as_map() == walked.0
                    &&& match n.input_state.drag {
                        Some(d2) => {
                            &&& d2.state == DragState::Active
                            &&& d2.start_x == d.start_x
                            &&& d2.start_y == d.start_y
                            &&& d2.base == d.base
                            &&& d2.points@ == d.points@.push((dx, dy))
                            &&& d2.handler.brush == d.handler.brush
                            &&& d2.handler.color == d.handler.color
                            &&& d2.diff() == walked.1
                        },
                        None => false,
                    }
                },
            }
        },
        DragEvent::End(dx, dy) => {
            match o.input_state.drag {
                None => n == o && act is None,
                Some(d) => {
                    let a = d.seg_endpoint(
                        o.image_view,
                        d.points@.last().0 as int,
                        d.points@.last().1 as int,
                    );
                    let b = d.seg_endpoint(o.image_view, dx as int, dy as int);
                    let walked = walk_full(
                        o.image.as_map(),
                        d.diff(),
                        d.handler.brush.kernel@,
                        d.handler.color,
                        a.0,
                        a.1,
                        b.0,
                        b.1,
                    );
                    &&& act is None
                    &&& n.image_view == o.image_view
                    &&& n.brushes == o.brushes
                    &&& n.config == o.config
                    &&& n.input_state.key == o.input_state.key
                    &&& n.input_state.color == o.input_state.color
                    &&& n.input_state.selected_brush == o.input_state.selected_brush
                    &&& n.input_state.drag is None
                    &&& n.image.width == o.image.width
                    &&& n.image.height == o.image.height
                    &&& n.image.as_map() == walked.0
                    &&& if walked.1 == Map::<(int, int), Pixel>::empty() {
                        n.history == o.history
                    } else {
                        &&& exists|op: PixelOp|
                            (#[trigger] op.as_map()) == walked.1 && n.history.undo_buffer@
                                == evict_spec(
                                o.history.undo_buffer@.push(op),
                                o.history.max_undo as int,
                            )
                        &&& n.history.redo_buffer@ == if o.history.clear_redo_on_commit {
                            Seq::<PixelOp>::empty()
                        } else {
                            o.history.redo_buffer@
                        }
                        &&& n.history.max_undo == o.history.max_undo
                        &&& n.history.max_redo == o.history.max_redo
                        &&& n.history.clear_redo_on_commit == o.history.clear_redo_on_commit
                    }
                },
            }
        },
    }
}

/// What one event does to the application, and which action it hands the
/// host: the whole dispatch, case by case.
pub open spec fn step_transition(
    o: Application,
    n: Application,
    event: Event,
    act: Option<AppAction>,
) -> bool {
    match event {
        Event::Key(KeyEvent::Press(k)) => exists|mid: Application|
            #[trigger] press_action_transition(o, mid, k, act) && n == with_key(mid, Some(k)),
        Event::Key(KeyEvent::Release(_)) => n == with_key(o, None) && act is None,
        Event::Drag(de) => drag_transition(o, n, de, act),
        Event::ColorUpdate { r, g, b, a } => n == Application {
            input_state: InputState { color: Some(Pixel { r, g, b, a }), ..o.input_state },
            ..o
        } && act is None,
        Event::Resize => n == o && act is None,
    }
}

/// Whether an event's payload is within the machine-range guards: drag
/// positions within the display limit and colour channels within the
/// fixed-point range.
pub open spec fn event_in_range(event: Event) -> bool {
    match event {
        Event::Drag(DragEvent::Begin(x, y)) => -COORD_LIMIT <= x <= COORD_LIMIT && -COORD_LIMIT
            <= y <= COORD_LIMIT,
        Event::Drag(DragEvent::Update(x, y)) => -COORD_LIMIT <= x <= COORD_LIMIT && -COORD_LIMIT
            <= y <= COORD_LIMIT,
        Event::Drag(DragEvent::End(x, y)) => -COORD_LIMIT <= x <= COORD_LIMIT && -COORD_LIMIT <= y
            <= COORD_LIMIT,
        Event::ColorUpdate { r, g, b, a } => r <= CHANNEL_ONE && g <= CHANNEL_ONE && b
            <= CHANNEL_ONE && a <= CHANNEL_ONE,
        _ => true,
    }
}

impl Application {
    /// The canvas, the view, the history and every loaded brush are
    /// well-formed; a selected quick ID always has its brush; an
    /// in-progress drag is active and consistent with the canvas bounds.
    pub open spec fn wf(self) -> bool {
        &&& self.image.wf()
        &&& self.image_view.wf()
        &&& self.history.wf()
        &&& self.history.fits_all(self.image.width as int, self.image.height as int)
        &&& forall|i: int| 0 <= i < self.brushes@.len() ==> (#[trigger] self.brushes@[i]).brush.wf()
        &&& match self.input_state.color {
            Some(c) => c.wf(),
            None => true,
        }
        &&& match self.input_state.selected_brush {
            Some(q) => brushes_have(self.brushes@, q),
            None => true,
        }
        &&& match self.input_state.drag {
            Some(d) => d.wf() && d.state == DragState::Active && d.handler.undo_pixels.fits(
                self.image.width as int,
                self.image.height as int,
            ),
            None => true,
        }
    }

    /// Create a new application around a loaded canvas, the loaded
    /// brushes and the configuration.
    pub fn new(image: Image, brushes: Vec<BrushEntry>, config: Config) -> (out: Application)
        requires
            image.wf(),
            forall|i: int| 0 <= i < brushes@.len() ==> (#[trigger] brushes@[i]).brush.wf(),
            config.max_undo >= 1,
            config.max_redo >= 1,
        ensures
            out.wf(),
            out.image == image,
            out.brushes == brushes,
            out.config == config,
            out.image_view == (ImageView {
                disp_corner_x: 0,
                disp_corner_y: 0,
                conversion_factor: 5,
            }),
            out.input_state.drag is None,
            out.input_state.key is None,
            out.input_state.color is None,
            out.input_state.selected_brush is None,
            out.history.undo_buffer@.len() == 0,
            out.history.redo_buffer@.len() == 0,
            out.history.max_undo == config.max_undo,
            out.history.max_redo == config.max_redo,
            out.history.clear_redo_on_commit == config.clear_redo_on_commit,
    {
        let history = History::new(config.max_undo, config.max_redo, config.clear_redo_on_commit);
        Application {
            image,
            image_view: ImageView::new(),
            input_state: InputState {
                drag: None,
                key: None,
                command: crate::command::CommandState::new(),
                color: None,
                selected_brush: None,
            },
            history,
            brushes,
            config,
        }
    }

    /// Main event handling function: dispatch one input event from the
    /// GUI, mutate the application accordingly, repaint the screen where
    /// needed, and hand back what the host must do.
    pub fn handle_event<S: ScreenBuffer>(&mut self, event: Event, screen: &mut S) -> (act: Option<
        AppAction,
    >)
        requires
            old(self).wf(),
            event_in_range(event),
        ensures
            final(self).wf(),
            step_transition(*old(self), *final(self), event, act),
    {
        match event {
            Event::Key(key_event) => self.handle_key_event(key_event, screen),
            Event::Drag(drag_event) => self.handle_drag_event(drag_event, screen),
            Event::ColorUpdate { r, g, b, a } => {
                self.input_state.color = Some(Pixel { r, g, b, a });
                None
            },
            Event::Resize => {
                self.image_view.update_screen(&self.image, screen);
                None
            },
        }
    }

    /// Handle a key event: a press takes its action and records the held
    /// key; a release forgets it.
    fn handle_key_event<S: ScreenBuffer>(&mut self, key_event: KeyEvent, screen: &mut S) -> (act:
        Option<AppAction>)
        requires
            old(self).wf(),
        ensures
            final(self).wf(),
            step_transition(*old(self), *final(self), Event::Key(key_event), act),
    {
        match key_event {
            KeyEvent::Press(key) => {
                let act = self.take_key_press_action(key, screen);
                let ghost mid = *self;
                self.input_state.key = Some(key);
                proof {
                    assert(press_action_transition(*old(self), mid, key, act));
                    assert(*self == with_key(mid, Some(key)));
                }
                act
            },
            KeyEvent::Release(_key) => {
                self.input_state.key = None;
                None
            },
        }
    }

    /// Take action for a key press: alt plus a quick ID selects a brush;
    /// `u` undoes, `r` redoes, `s` asks the host to save, `z` and `x`
    /// zoom; other keys do nothing.
    fn take_key_press_action<S: ScreenBuffer>(&mut self, key: Key, screen: &mut S) -> (act: Option<
        AppAction,
    >)
        requires
            old(self).wf(),
        ensures
            final(self).wf(),
            press_action_transition(*old(self), *final(self), key, act),
    {
        if let Key::Sequence { value, control: _, alt } = key {
            if alt {
                // Check if it's a brush action.
                if self.lookup_brush(value) {
                    self.input_state.selected_brush = Some(value);
                    return None;
                } else {
                    return Some(AppAction::NoticeUnknownBrush(value));
                }
            }
            // Check for other commands.
            match value {
                'u' => {
                    if self.history.undo(&mut self.image) {
                        self.image_view.update_screen(&self.image, screen);
                        None
                    } else {
                        Some(AppAction::NoticeNothingToUndo)
                    }
                },
                'r' => {
                    if self.history.redo(&mut self.image) {
                        self.image_view.update_screen(&self.image, screen);
                        None
                    } else {
                        Some(AppAction::NoticeNothingToRedo)
                    }
                },
                's' => Some(AppAction::SaveImage),
                'z' => {
                    self.image_view.zoom_in();
                    self.image_view.update_screen(&self.image, screen);
                    None
                },
                'x' => {
                    self.image_view.zoom_out();
                    self.image_view.update_screen(&self.image, screen);
                    None
                },
                _ => None,
            }
        } else {
            None
        }
    }

    /// Whether a brush with this quick ID is loaded.
    fn lookup_brush(&self, quickid: char) -> (out: bool)
        ensures
            out == brushes_have(self.brushes@, quickid),
    {
        let n = self.brushes.len();
        let mut i: usize = 0;
        while i < n
            invariant
                i <= n,
                n == self.brushes@.len(),
                forall|j: int| 0 <= j < i ==> (#[trigger] self.brushes@[j]).quickid != quickid,
            decreases n - i,
        {
            if self.brushes[i].quickid == quickid {
                return true;
            }
            i += 1;
        }
        false
    }

    /// Create the drag input handler for a beginning gesture: nothing
    /// under a plain-control drag or when no brush is selected, otherwise
    /// an idle gesture around the selected brush and the current colour.
    fn create_drag_input(&self) -> (out: Option<DragInput>)
        requires
            self.wf(),
        ensures
            match out {
                None => self.input_state.key == Some(Key::PlainControl)
                    || self.input_state.selected_brush is None,
                Some(d) => {
                    &&& self.input_state.key != Some(Key::PlainControl)
                    &&& match self.input_state.selected_brush {
                        Some(q) => exists|i: int|
                            0 <= i < self.brushes@.len() && (#[trigger] self.brushes@[i]).quickid
                                == q && brush_like(d.handler.brush, self.brushes@[i].brush),
                        None => false,
                    }
                    &&& d.wf()
                    &&& d.state == DragState::Idle
                    &&& d.points@.len() == 0
                    &&& d.handler.undo_pixels.entries@.len() == 0
                    &&& d.handler.color == color_or_white(self.input_state.color)
                },
            },
    {
        match self.input_state.key {
            Some(Key::PlainControl) => {
                // A control-drag is reserved for panning the view; the
                // view transform has no pan action, so the gesture is
                // ignored rather than painted.
                return None;
            },
            _ => {},
        }
        let quickid = match self.input_state.selected_brush {
            None => {
                return None;
            },
            Some(q) => q,
        };
        let n = self.brushes.len();
        let mut i: usize = 0;
        while i < n
            invariant
                self.wf(),
                i <= n,
                n == self.brushes@.len(),
                self.input_state.selected_brush == Some(quickid),
                self.input_state.key != Some(Key::PlainControl),
                forall|j: int| 0 <= j < i ==> (#[trigger] self.brushes@[j]).quickid != quickid,
            decreases n - i,
        {
            if self.brushes[i].quickid == quickid {
                let brush = self.brushes[i].brush.duplicate();
                let color = match &self.input_state.color {
                    Some(c) => *c,
                    None => Pixel::opaque(CHANNEL_ONE, CHANNEL_ONE, CHANNEL_ONE),
                };
                let handler = PaintBrush::new(brush, color);
                return Some(DragInput::new(handler));
            }
            i += 1;
        }
        // The selected quick ID always has its brush (a well-formedness
        // invariant), so the scan cannot run out.
        proof {
            assert(false);
        }
        None
    }

    /// Handle a drag event: begin starts a stroke, update extends it by
    /// one segment, end finishes it and commits its diff to the history.
    fn handle_drag_event<S: ScreenBuffer>(&mut self, drag_event: DragEvent, screen: &mut S) -> (act:
        Option<AppAction>)
        requires
            old(self).wf(),
            event_in_range(Event::Drag(drag_event)),
        ensures
            final(self).wf(),
            drag_transition(*old(self), *final(self), drag_event, act),
    {
        match drag_event {
            DragEvent::Begin(start_x, start_y) => {
                match self.create_drag_input() {
                    Some(mut drag) => {
                        drag.start(&self.image, start_x, start_y);
                        self.image_view.update_screen(&self.image, screen);
                        self.input_state.drag = Some(drag);
                        None
                    },
                    None => {
                        match self.input_state.key {
                            Some(Key::PlainControl) => None,
                            _ => Some(AppAction::NoticeNoBrushSelected),
                        }
                    },
                }
            },
            DragEvent::Update(x, y) => {
                let painting = match &mut self.input_state.drag {
                    Some(drag) => {
                        drag.update(&mut self.image, &self.image_view, x, y);
                        true
                    },
                    None => false,
                };
                if painting {
                    self.image_view.update_screen(&self.image, screen);
                }
                None
            },
            DragEvent::End(x, y) => {
                match self.input_state.drag.take() {
                    Some(mut drag) => {
                        drag.finish(&mut self.image, &self.image_view, x, y);
                        match drag.to_op() {
                            Some(op) => {
                                self.history.commit(op);
                            },
                            None => {},
                        }
                        self.image_view.update_screen(&self.image, screen);
                        None
                    },
                    None => None,
                }
            },
        }
    }
}

} // verus!
