pub mod shader;
pub mod shader_loading;
