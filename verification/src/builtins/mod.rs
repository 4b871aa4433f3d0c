pub mod groups;
pub mod sdf;
