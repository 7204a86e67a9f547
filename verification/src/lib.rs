//! Renders tabular data as a monospaced, bordered text grid for terminal
//! output. Tables are built by appending rows of cells; the renderer computes
//! per-column widths (cells may span several columns), resolves each cell's
//! style and alignment from a cascade of defaults, and emits the grid line by
//! line.

pub mod laws;
pub mod style;
pub mod table;
pub mod term;
pub mod utils;

pub use style::Alignment;
pub use style::TableStyle;
pub use table::Cell;
pub use table::Row;
pub use table::Table;
