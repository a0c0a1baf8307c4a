//! Backend-independent core of a Direct3D10 renderer for an immediate-mode GUI.
//!
//! The crate keeps track of the textures the GUI refers to and decides, mesh by
//! mesh, which draw calls a frame consists of. It never talks to the graphics
//! device itself: GPU objects are carried as values of the caller's handle
//! types, and every operation that needs the device is handed back to the
//! caller as a description of the call to make.

pub mod image;
pub mod texture;
pub mod renderer;
pub mod texture_laws;
