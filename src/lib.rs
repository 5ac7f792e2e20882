//! Layout and projection engine for line charts: bounds arithmetic, edge
//! composition, inset overlays, aspect-ratio resolution, data-to-pixel
//! projection, data-range aggregation and tick generation, over integer pixel
//! and data coordinates.

pub mod aspect_ratio;
pub mod bounds;
pub mod chart;
pub mod edge;
pub mod edge_layout;
pub mod inner;
pub mod layout;
pub mod projection;
pub mod rotated_label;
pub mod series;
pub mod tick;
pub mod ticks;
