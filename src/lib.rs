//! Piecewise-linear interpolation tables over binary64 breakpoints, and tables
//! read from CSV text.

pub mod csv_data;
pub mod float_order;
pub mod interpolator;
pub mod matrix;
