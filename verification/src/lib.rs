//! Post-processing for a two-stage face pipeline.
//!
//! A detector emits many candidate rows per frame. [`yolov5_face`] decodes
//! the rows that pass a confidence threshold and keeps one detection per
//! face by a greedy, order-dependent deduplication. [`frame`] picks the best
//! detection and derives the square crop that is handed to the landmark
//! model ([`crop`]) and the rectangle in which its result is shown.
//! [`display`] fits the captured image into the display and maps points
//! between capture space and display space. [`face_landmark`] decodes the
//! landmark model's output.
//!
//! All quantities are [`fixed::Fixed`] numbers: signed fixed point with 32
//! fractional bits, rounded toward zero and saturating, so that every
//! function is total and every result is stated exactly. [`single`] reads
//! single-precision numbers, as the camera and the models give them, into
//! fixed point and writes them back for the renderer.

pub mod crop;
pub mod demo;
pub mod display;
pub mod face_landmark;
pub mod fixed;
pub mod frame;
pub mod geometry;
pub mod perf;
pub mod single;
pub mod utils;
pub mod yolov5_face;
