//! The core of a tray screenshot tool: RGBA frames, overlap detection between
//! the consecutive captures of a scrolling capture, stitching them into one
//! tall image, the decisions of the tool's window, and the texts it writes.
mod grid;
pub mod frame;
pub mod overlap;
pub mod stitch;
pub mod controller;
pub mod text;
pub mod icon;
pub mod capture;
