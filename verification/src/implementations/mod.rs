pub mod calculations;
pub mod operations;
pub mod components;
pub mod setup;
