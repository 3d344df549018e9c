//! Balloon layout and canvas compositing for annotated patch panels.
//!
//! A panel is a row of numbered slots. Each occupied slot carries a label,
//! which is drawn as a balloon above the panel, with a pointer down to its
//! slot. The balloons are placed so that no two of them touch: a balloon
//! that finds no room in a row moves left, or up into the next row.
//!
//! - `round`: rounding to a multiple.
//! - `placeholder`: the cells of a canvas, their order, and their merge.
//! - `canvas`: the grid that cells are kept in.
//! - `template`: a canvas, and the overlay of two canvases.
//! - `balloon`: the geometry of a balloon, and its drawing.
//! - `panel`: the placement of all balloons, and the whole diagram.
//! - `theme`: glyphs, colours and the border of the panel.
//! - `text`: lines, replacing and numbers, for the border.
//! - `slot`, `error`: the slots of a panel, and what can go wrong.

pub mod balloon;
pub mod canvas;
pub mod error;
pub mod panel;
pub mod placeholder;
pub mod round;
pub mod slot;
pub mod template;
pub mod text;
pub mod theme;
