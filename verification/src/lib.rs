pub mod bezier;
pub mod contour;
pub mod laws;
pub mod piecewise;
pub mod error;
pub mod evaluate;
pub mod rect;
pub mod skpath;
pub mod vector;
