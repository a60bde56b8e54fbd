//! Control logic of a viewfinder camera: converts camera frames to the
//! display's RGB565 format, calibrates touch coordinates, debounces digital
//! inputs and sequences the preview / still-capture modes.
//!
//! Everything here is pure: the program around the library performs the
//! device work (camera, framebuffer, GPIO lines, touch events) and hands
//! plain values in and out.
pub mod calibration;
pub mod control;
pub mod input;
pub mod photo;
pub mod pixel;
