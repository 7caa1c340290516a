//! Containers and the solver that places their children.

pub mod auto;
pub mod auto_solver;
pub mod decor;
pub mod pin;
pub mod row_laws;
pub mod scroll_box;
pub mod spacing;

pub use auto::Auto;
pub use auto_solver::solve;
pub use pin::{Pin, PinBoard, PinOrigin};
pub use scroll_box::ScrollBox;
pub use spacing::Spacing;
