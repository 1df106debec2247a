//! A small vector-shape editor core: a shape document (shapes, z-order and
//! id allocation), a deterministic fill-color cycler, and the pointer-gesture
//! state machines that create rectangles and drag existing shapes.

pub mod app_state;
pub mod canvas;
pub mod doc_ops;
pub mod file_operations;
pub mod shapes;
pub mod shapes_doc;
pub mod trackers;
