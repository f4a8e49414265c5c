//! The viewer: its state, the keys that change it, and the outside work that the changes need.

pub mod key_laws;
pub mod laws;
pub mod machine;
pub mod model;
pub mod screens;
pub mod work_laws;

pub use machine::App;
pub use model::Screen;
