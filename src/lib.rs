//! A small orrery: view and time controls for a gravity simulation, and the
//! mapping of universe coordinates onto an RGBA pixel buffer where bodies are
//! drawn as filled disks.
pub mod input;
pub mod palette;
pub mod pixels;
pub mod raster;
pub mod world;

pub use pixels::PixelBuffer;
pub use raster::{PixelPoint, ScaledBuffer, UniversePoint};
pub use world::{Entity, PhysicsBody, Renderable, World};
