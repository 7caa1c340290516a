//! A terminal layout and rendering engine: views negotiate their size,
//! a single-axis solver turns sizing constraints into rectangles, and
//! views paint into a grid of styled cells that is diffed against the
//! frame shown before.

pub mod buffer;
pub mod diff;
pub mod layouts;
pub mod styles;
pub mod terminal;
pub mod text;
pub mod values;
pub mod view_laws;
pub mod views;

pub use buffer::{Buffer, Cell, CellView};
pub use diff::DiffResult;
pub use layouts::{solve, Auto, Pin, PinBoard, PinOrigin, ScrollBox, Spacing};
pub use styles::{Corners, FillStyle, LineStyle, Mark, Stroke, Style, StyleView};
pub use terminal::{Screen, TerminalEvent};
pub use values::{Align, Constraints, ContainerSizing, Dimensions, Dir, Layout, Point, Rect, Sizing};
pub use views::{Border, Label, MultilineText, Padding, Rule, Spacer, Styled, Widget};
