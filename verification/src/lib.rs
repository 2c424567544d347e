//! Verified core of an egui painter for SDL2's 2D renderer.
//!
//! The crate decides what a 2D backend has to do for one frame of GUI output:
//! which textures to create, patch or destroy, which clip rectangles to set
//! and which meshes to draw, in which order. It performs no drawing itself.
//! A host hands it plain values and carries out the commands it returns.

pub mod command;
pub mod format;
pub mod frame;
pub mod image;
pub mod laws;
pub mod mesh;
pub mod offscreen;
pub mod painter;
pub mod rect;
pub mod surface;
pub mod surface_laws;
pub mod surface_model;
pub mod texture_cache;
pub mod texture_id;

pub use crate::command::{Command, PaintError};
pub use crate::format::PixelFormat;
pub use crate::frame::FrameReport;
pub use crate::image::{ImageDelta, TexturesDelta};
pub use crate::mesh::{ClippedPrimitive, Disposition, Mesh, Primitive};
pub use crate::offscreen::Offscreen;
pub use crate::painter::{Failure, FramePlan, Painter};
pub use crate::rect::PixelRect;
pub use crate::surface::Surface;
pub use crate::surface_model::DrawCall;
pub use crate::texture_cache::{
    update_egui_texture, Allocation, TextureCache, TextureError, TextureInfo, TextureUpdate,
    Upload,
};
pub use crate::texture_id::TextureId;
