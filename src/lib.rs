//! Frame synthesis for sensor displacement videos: the tiled grid of
//! per-sensor plot windows, the reusable pixel buffer with its cached axis
//! template, and a byte-exact bitmap container for each frame.

pub mod bmp;
pub mod frame;
pub mod layout;
