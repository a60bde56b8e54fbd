use viewfinder::calibration::{CalibrationMatrix, Coord};
use viewfinder::control::{
    next_step, preview_camera_config, still_camera_config, Action, CameraConfig, Controller,
    FrameFormat, Mode, Trigger,
};
use viewfinder::input::{Edge, TouchEvent, BTN_TOUCH, EV_ABS, EV_KEY};

const SHUTTER: usize = 0;
const QUIT: usize = 1;

fn controller(trigger: Trigger) -> Controller {
    let m = CalibrationMatrix::from_values(&vec![1, 0, 0, 0, 1, 0, 1]).unwrap();
    Controller::new(trigger, QUIT, 2, m, 320, 240)
}

#[test]
fn configs() {
    assert_eq!(
        preview_camera_config(320, 240),
        CameraConfig { interval_num: 1, interval_den: 20, width: 320, height: 240, format: FrameFormat::Rgb3 }
    );
    assert_eq!(
        still_camera_config(),
        CameraConfig { interval_num: 1, interval_den: 10, width: 4056, height: 3040, format: FrameFormat::Jpeg }
    );
}

#[test]
fn transitions() {
    let preview = Action::StartPreview(preview_camera_config(320, 240));
    assert_eq!(next_step(Mode::Idle, true, false, 320, 240), (Mode::Preview, preview));
    assert_eq!(next_step(Mode::Idle, false, false, 320, 240), (Mode::Idle, Action::Wait));
    assert_eq!(next_step(Mode::Preview, false, false, 320, 240), (Mode::Preview, Action::ShowFrame));
    assert_eq!(next_step(Mode::Preview, true, false, 320, 240), (Mode::StillCapture, Action::Wait));
    let still = Action::CaptureStill(still_camera_config());
    assert_eq!(next_step(Mode::StillCapture, false, false, 320, 240), (Mode::Idle, still));
    assert_eq!(next_step(Mode::StillCapture, true, false, 320, 240), (Mode::Idle, still));
    for mode in [Mode::Idle, Mode::Preview, Mode::StillCapture] {
        assert_eq!(next_step(mode, true, true, 320, 240).1, Action::Stop);
        assert_eq!(next_step(mode, false, true, 320, 240).1, Action::Stop);
    }
}

#[test]
fn full_cycle_on_shutter_line() {
    let mut c = controller(Trigger::Line { channel: SHUTTER });
    let none: Vec<TouchEvent> = Vec::new();
    // first poll reports both lines, nothing pressed
    let out = c.tick(&vec![1, 1], &none);
    assert_eq!(out.action, Action::Wait);
    assert_eq!(out.edges, vec![Edge { channel: 0, value: 1 }, Edge { channel: 1, value: 1 }]);
    assert_eq!(c.mode, Mode::Idle);
    // press: exactly one reconfiguration
    let out = c.tick(&vec![0, 1], &none);
    assert_eq!(out.action, Action::StartPreview(preview_camera_config(320, 240)));
    assert_eq!(out.edges, vec![Edge { channel: 0, value: 0 }]);
    assert_eq!(c.mode, Mode::Preview);
    // held: no new edge, preview frames
    let out = c.tick(&vec![0, 1], &none);
    assert_eq!(out.action, Action::ShowFrame);
    assert!(out.edges.is_empty());
    let out = c.tick(&vec![1, 1], &none);
    assert_eq!(out.action, Action::ShowFrame);
    // second press
    let out = c.tick(&vec![0, 1], &none);
    assert_eq!(out.action, Action::Wait);
    assert_eq!(c.mode, Mode::StillCapture);
    let out = c.tick(&vec![0, 1], &none);
    assert_eq!(out.action, Action::CaptureStill(still_camera_config()));
    assert_eq!(c.mode, Mode::Idle);
    // quit
    let out = c.tick(&vec![1, 0], &none);
    assert_eq!(out.action, Action::Stop);
}

#[test]
fn quit_from_preview() {
    let mut c = controller(Trigger::Line { channel: SHUTTER });
    let none: Vec<TouchEvent> = Vec::new();
    c.tick(&vec![0, 1], &none);
    assert_eq!(c.mode, Mode::Preview);
    let out = c.tick(&vec![0, 0], &none);
    assert_eq!(out.action, Action::Stop);
}

#[test]
fn touch_trigger_and_point() {
    let mut c = controller(Trigger::TouchStart);
    let start = vec![
        TouchEvent { kind: EV_ABS, code: 0, value: 100 },
        TouchEvent { kind: EV_ABS, code: 1, value: 50 },
        TouchEvent { kind: EV_KEY, code: BTN_TOUCH, value: 1 },
    ];
    let out = c.tick(&vec![1, 1], &start);
    assert_eq!(out.action, Action::StartPreview(preview_camera_config(320, 240)));
    assert_eq!(out.touch_point, Some(Coord { x: 100, y: 50 }));
    // contact continues: no new trigger
    let out = c.tick(&vec![1, 1], &Vec::new());
    assert_eq!(out.action, Action::ShowFrame);
    assert_eq!(out.touch_point, Some(Coord { x: 100, y: 50 }));
    let stop = vec![TouchEvent { kind: EV_KEY, code: BTN_TOUCH, value: 0 }];
    let out = c.tick(&vec![1, 1], &stop);
    assert_eq!(out.touch_point, None);
    assert_eq!(out.action, Action::ShowFrame);
    let out = c.tick(&vec![1, 1], &start);
    assert_eq!(out.action, Action::Wait);
    assert_eq!(c.mode, Mode::StillCapture);
}
