//! Rendering helpers and client logic for the BAAM attendance client.
//!
//! Colors are RGB565 words; images are views into flat `u16` pixel buffers.

pub mod blend;
pub mod image;
pub mod texture;
pub mod effects;
pub mod encoding;
pub mod timer;
pub mod scene;
pub mod lights;
pub mod qr;
pub mod api;
pub mod settings;
pub mod spmc_buffer;
pub mod ui;
pub mod viewfinder;
pub mod flow;
