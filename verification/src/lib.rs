//! Annotation engine for captured raster images.
//!
//! A session ([`canvas::CanvasState`]) owns the base image, the committed
//! shapes in drawing order, the undone shapes, and the drawing in
//! progress. Pointer events drive the draw state machine
//! ([`tools::ActiveDraw`]), which commits a shape only when the drawing is
//! large enough. [`blur`] pixelates rectangles of an image by block
//! averages, in place or as a copy. A frame on screen pixelates every blur
//! region from the untouched base image; the exported image applies them
//! one after the other.
//!
//! Coordinates are whole pixels, colours have eight bits per channel, and
//! images are plain byte buffers ([`raster::RasterBuffer`]). Painting
//! strokes and text, files, the clipboard and widgets are left to the
//! program around the library, which gets from it what to paint and in
//! which order.

pub mod blur;
pub mod canvas;
pub mod cli;
pub mod config;
pub mod hex;
pub mod history;
pub mod icon;
pub mod output;
pub mod portal;
pub mod raster;
pub mod region;
pub mod selection;
pub mod shapes;
pub mod tools;
pub mod tray;
