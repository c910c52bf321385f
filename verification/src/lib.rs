//! Calendar heat maps of daily activity counts: reading the counts out of
//! profile markup or a structured answer, laying them out week by week, and
//! choosing how each cell is drawn.

pub mod cell;
pub mod date;
pub mod error;
pub mod fetch;
pub mod heatmap;
pub mod query;
pub mod reading;
pub mod records;
pub mod render;
pub mod scrape;
