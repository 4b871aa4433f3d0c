//! Verified core of a 2D signed-distance-field renderer: bit flags, index
//! arenas, component index packing, shader source assembly and the batching
//! and buffer bookkeeping that feed the GPU pipeline.

pub mod bounding;
pub mod builder;
pub mod builtins;
pub mod calculations;
pub mod components;
pub mod extensions;
pub mod flag;
pub mod groups;
pub mod implementations;
pub mod indices;
pub mod operations;
pub mod pipeline;
pub mod render;
pub mod shader;
pub mod sorting;
pub mod text;
