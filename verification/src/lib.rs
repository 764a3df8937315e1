//! Driver library for HUB75 RGB LED matrix panels (1/32 scan, 64×64 by default):
//! an RGB565 frame buffer, and the signal sequences that shift, latch and light
//! each pair of rows on the panel.
pub mod framebuffer;
pub mod hub75;

pub use framebuffer::{display_frame, PixelMap, Rgb565};
pub use hub75::Hub75Pins;
