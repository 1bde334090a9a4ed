//! A Direct3D11 rendering backend for egui, split into a verified core and a
//! thin device layer.
//!
//! The core tracks which textures the GUI layer and the host application have
//! handed to the renderer, keeps a CPU shadow of every GUI-managed texture so
//! that partial updates can be replayed, and decides, primitive by primitive,
//! which draw calls a frame turns into. It is generic over the GPU handle
//! types, so it runs unchanged against a real device or a stand-in.

pub mod frame;
pub mod texture;
pub mod utils;
