//! The mode state machine: from the inputs of one tick, the next mode and
//! the device work that the tick performs.
use vstd::prelude::*;
use crate::calibration::{CalibrationMatrix, Coord, fits_i32};
use crate::input::{Edge, InputDebouncer, TouchEvent, TouchState, edge_of, touch_after_all};

verus! {

/// The value a pulled-high line reads while its button is pressed.
pub const PRESSED: u8 = 0;

/// Preview frame interval: one frame every `1 / PREVIEW_FPS` seconds.
pub const PREVIEW_FPS: u32 = 20;
/// Still-capture frame interval: one frame every `1 / STILL_FPS` seconds.
pub const STILL_FPS: u32 = 10;
/// Width of a still photo.
pub const STILL_WIDTH: u32 = 4056;
/// Height of a still photo.
pub const STILL_HEIGHT: u32 = 3040;

/// The controller's mode.
#[derive(Debug, Clone, Copy, PartialEq, Eq, Structural)]
pub enum Mode {
    /// Splash content on the display, no capture stream.
    Idle,
    /// Live preview: one frame to the display per tick.
    Preview,
    /// One high-resolution photo is taken on the next tick.
    StillCapture,
}

/// Pixel format of a capture stream.
#[derive(Debug, Clone, Copy, PartialEq, Eq, Structural)]
pub enum FrameFormat {
    /// Interleaved 8-bit RGB triplets (`RGB3`).
    Rgb3,
    /// A compressed still image (`JPEG`).
    Jpeg,
}

/// How the camera is configured for a stream.
#[derive(Debug, Clone, Copy, PartialEq, Eq, Structural)]
pub struct CameraConfig {
    /// Frame interval as a fraction of a second: this numerator...
    pub interval_num: u32,
    /// ...over this denominator.
    pub interval_den: u32,
    pub width: u32,
    pub height: u32,
    pub format: FrameFormat,
}

/// The device work of one tick.
#[derive(Debug, Clone, Copy, PartialEq, Eq, Structural)]
pub enum Action {
    /// End the control loop; no further ticks.
    Stop,
    /// Nothing to do this tick.
    Wait,
    /// Start the camera once with the given configuration.
    StartPreview(CameraConfig),
    /// Capture one frame, convert it, and write it to the display.
    ShowFrame,
    /// Stop the preview, capture one photo with the given configuration,
    /// reopen the camera idle, store the photo, and restore the splash content.
    CaptureStill(CameraConfig),
}

/// Which input starts the preview and takes the photo.
#[derive(Debug, Clone, Copy, PartialEq, Eq, Structural)]
pub enum Trigger {
    /// A press edge on this line.
    Line { channel: usize },
    /// The start of touch contact.
    TouchStart,
}

/// The preview stream's configuration for a display of `width` by `height`.
pub open spec fn preview_config(width: u32, height: u32) -> CameraConfig {
    CameraConfig { interval_num: 1, interval_den: PREVIEW_FPS, width, height, format: FrameFormat::Rgb3 }
}

/// The still capture's configuration.
pub open spec fn still_config() -> CameraConfig {
    CameraConfig {
        interval_num: 1,
        interval_den: STILL_FPS,
        width: STILL_WIDTH,
        height: STILL_HEIGHT,
        format: FrameFormat::Jpeg,
    }
}

/// The next mode and the tick's work, from the mode, whether the trigger
/// fired this tick, and whether the quit line reads pressed.
pub open spec fn transition(mode: Mode, triggered: bool, quit: bool, width: u32, height: u32) -> (
    Mode,
    Action,
) {
    if quit {
        (mode, Action::Stop)
    } else {
        match mode {
            Mode::Idle => if triggered {
                (Mode::Preview, Action::StartPreview(preview_config(width, height)))
            } else {
                (Mode::Idle, Action::Wait)
            },
            Mode::Preview => if triggered {
                (Mode::StillCapture, Action::Wait)
            } else {
                (Mode::Preview, Action::ShowFrame)
            },
            Mode::StillCapture => (Mode::Idle, Action::CaptureStill(still_config())),
        }
    }
}

/// The preview stream's configuration for a display of `width` by `height`.
pub fn preview_camera_config(width: u32, height: u32) -> (c: CameraConfig)
    ensures
        c == preview_config(width, height),
{
    CameraConfig { interval_num: 1, interval_den: PREVIEW_FPS, width, height, format: FrameFormat::Rgb3 }
}

/// The still capture's configuration.
pub fn still_camera_config() -> (c: CameraConfig)
    ensures
        c == still_config(),
{
    CameraConfig {
        interval_num: 1,
        interval_den: STILL_FPS,
        width: STILL_WIDTH,
        height: STILL_HEIGHT,
        format: FrameFormat::Jpeg,
    }
}

/// One transition of the mode state machine.
pub fn next_step(mode: Mode, triggered: bool, quit: bool, width: u32, height: u32) -> (r: (
    Mode,
    Action,
))
    ensures
        r == transition(mode, triggered, quit, width, height),
{
    if quit {
        return (mode, Action::Stop);
    }
    match mode {
        Mode::Idle => if triggered {
            (Mode::Preview, Action::StartPreview(preview_camera_config(width, height)))
        } else {
            (Mode::Idle, Action::Wait)
        },
        Mode::Preview => if triggered {
            (Mode::StillCapture, Action::Wait)
        } else {
            (Mode::Preview, Action::ShowFrame)
        },
        Mode::StillCapture => (Mode::Idle, Action::CaptureStill(still_camera_config())),
    }
}

/// The mode cycle: a trigger in Idle starts the preview with exactly one
/// camera configuration; a trigger in Preview moves to StillCapture; the next
/// tick takes the photo, restores the splash content and returns to Idle; a
/// pressed quit line stops the loop in every mode.
pub proof fn lemma_mode_cycle(mode: Mode, triggered: bool, width: u32, height: u32)
    ensures
        transition(Mode::Idle, true, false, width, height) == (
            Mode::Preview,
            Action::StartPreview(preview_config(width, height)),
        ),
        transition(Mode::Preview, true, false, width, height).0 == Mode::StillCapture,
        transition(Mode::StillCapture, triggered, false, width, height) == (
            Mode::Idle,
            Action::CaptureStill(still_config()),
        ),
        transition(mode, triggered, true, width, height).1 == Action::Stop,
        !(transition(mode, triggered, false, width, height).1 is Stop),
        transition(mode, triggered, false, width, height).1 is StartPreview
            ==> mode == Mode::Idle && triggered,
{
}

/// The edges that polling channels `0..k` in order emits, from stored
/// values `prev` and new samples `samples`.
pub open spec fn line_edges(prev: Seq<u8>, samples: Seq<u8>, k: int) -> Seq<Edge>
    decreases k,
{
    if k <= 0 {
        Seq::empty()
    } else {
        let before = line_edges(prev, samples, k - 1);
        match edge_of((k - 1) as usize, prev[k - 1], samples[k - 1]) {
            Some(e) => before.push(e),
            None => before,
        }
    }
}

/// What one tick reports besides the mode change.
pub struct TickOutput {
    /// The device work of this tick.
    pub action: Action,
    /// The line edges of this tick, in channel order.
    pub edges: Vec<Edge>,
    /// The calibrated touch point while contact is active and the point fits.
    pub touch_point: Option<Coord>,
}

/// The whole state of the control loop.
pub struct Controller {
    pub mode: Mode,
    pub trigger: Trigger,
    /// The line that ends the loop while it reads pressed.
    pub quit_channel: usize,
    pub lines: InputDebouncer,
    pub touch: TouchState,
    pub calibration: CalibrationMatrix,
    /// Display geometry, fixed at startup.
    pub width: u32,
    pub height: u32,
}

impl Controller {
    /// The configuration is consistent: the channels it names exist and the
    /// calibration is usable.
    pub open spec fn wf(&self) -> bool {
        &&& self.calibration.wf()
        &&& self.quit_channel < self.lines@.len()
        &&& (self.trigger matches Trigger::Line { channel } ==> channel < self.lines@.len())
    }

    /// Whether the trigger fires in a tick that samples the lines as
    /// `samples` and receives the touch events `events`.
    pub open spec fn fires(&self, samples: Seq<u8>, events: Seq<TouchEvent>) -> bool {
        match self.trigger {
            Trigger::Line { channel } => edge_of(channel, self.lines@[channel as int], samples[channel as int])
                == Some(Edge { channel, value: PRESSED }),
            Trigger::TouchStart => !self.touch.touching && touch_after_all(self.touch, events).touching,
        }
    }

    /// A controller in Idle with `channels` lines, none sampled yet, and no
    /// touch contact.
    pub fn new(trigger: Trigger, quit_channel: usize, channels: usize, calibration: CalibrationMatrix,
        width: u32, height: u32) -> (c: Controller)
        requires
            calibration.wf(),
            quit_channel < channels,
            trigger matches Trigger::Line { channel } ==> channel < channels,
        ensures
            c.wf(),
            c.mode == Mode::Idle,
            c.trigger == trigger,
            c.quit_channel == quit_channel,
            c.lines@.len() == channels,
            c.touch == (TouchState { raw: Coord { x: 0, y: 0 }, touching: false }),
            c.calibration == calibration,
            c.width == width,
            c.height == height,
    {
        Controller {
            mode: Mode::Idle,
            trigger,
            quit_channel,
            lines: InputDebouncer::unsampled(channels),
            touch: TouchState::new(),
            calibration,
            width,
            height,
        }
    }

    /// One tick: polls every line in channel order, takes the touch events
    /// into account, calibrates the touch point while contact is active, and
    /// steps the mode state machine.
    pub fn tick(&mut self, samples: &Vec<u8>, events: &Vec<TouchEvent>) -> (out: TickOutput)
        requires
            old(self).wf(),
            samples@.len() == old(self).lines@.len(),
        ensures
            final(self).wf(),
            final(self).lines@ == samples@,
            final(self).touch == touch_after_all(old(self).touch, events@),
            out.edges@ == line_edges(old(self).lines@, samples@, samples@.len() as int),
            ({
                let (mode, action) = transition(
                    old(self).mode,
                    old(self).fires(samples@, events@),
                    samples@[old(self).quit_channel as int] == PRESSED,
                    old(self).width,
                    old(self).height,
                );
                final(self).mode == mode && out.action == action
            }),
            ({
                let t = final(self).touch;
                let m = old(self).calibration;
                out.touch_point is Some <==> t.touching && fits_i32(m.x_of(t.raw)) && fits_i32(
                    m.y_of(t.raw),
                )
            }),
            out.touch_point is Some ==> out.touch_point->Some_0.x == old(self).calibration.x_of(
                final(self).touch.raw,
            ) && out.touch_point->Some_0.y == old(self).calibration.y_of(final(self).touch.raw),
            final(self).trigger == old(self).trigger,
            final(self).quit_channel == old(self).quit_channel,
            final(self).calibration == old(self).calibration,
            final(self).width == old(self).width,
            final(self).height == old(self).height,
    {
        let ghost prev = self.lines@;
        let ghost pre = *self;
        let trigger_prev: u8 = match self.trigger {
            Trigger::Line { channel } => self.lines.previous(channel),
            Trigger::TouchStart => PRESSED,
        };
        let n = samples.len();
        let mut edges: Vec<Edge> = Vec::new();
        let mut i: usize = 0;
        while i < n
            invariant
                n == samples@.len(),
                i <= n,
                prev.len() == n,
                self.lines@.len() == n,
                forall|k: int| 0 <= k < i ==> self.lines@[k] == samples@[k],
                forall|k: int| i <= k < n ==> self.lines@[k] == prev[k],
                edges@ == line_edges(prev, samples@, i as int),
                self.mode == pre.mode,
                self.trigger == pre.trigger,
                self.quit_channel == pre.quit_channel,
                self.touch == pre.touch,
                self.calibration == pre.calibration,
                self.width == pre.width,
                self.height == pre.height,
            decreases n - i,
        {
            match self.lines.poll(i, samples[i]) {
                Some(e) => edges.push(e),
                None => {},
            }
            i = i + 1;
        }
        assert(self.lines@ =~= samples@);
        let was_touching = self.touch.touching;
        self.touch.apply_events(events);
        let touch_point = if self.touch.touching {
            self.calibration.apply(&self.touch.raw)
        } else {
            None
        };
        let quit = samples[self.quit_channel] == PRESSED;
        let triggered = match self.trigger {
            Trigger::Line { channel } => samples[channel] != trigger_prev && samples[channel]
                == PRESSED,
            Trigger::TouchStart => !was_touching && self.touch.touching,
        };
        let (mode, action) = next_step(self.mode, triggered, quit, self.width, self.height);
        self.mode = mode;
        TickOutput { action, edges, touch_point }
    }
}

} // verus!
