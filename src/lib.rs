//! The verified core of a small real-time 3D engine: a handle-based
//! resource arena with a glyph cache, the per-frame pass plan of the scene
//! renderer, and the state machine of GPU object picking.

pub mod arena;
pub mod assets;
pub mod editor;
pub mod gameobject;
pub mod handle;
pub mod input;
pub mod material;
pub mod picking;
pub mod renderer;
pub mod resource_manager;
pub mod texture;
