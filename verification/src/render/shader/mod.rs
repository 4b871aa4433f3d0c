pub mod buffers;
pub mod building;
pub mod loading;
pub mod variants;
