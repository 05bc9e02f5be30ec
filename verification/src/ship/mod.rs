//! The built-in ship.
pub mod expression;
pub mod lines;
pub mod names;
pub mod native;
pub mod number_laws;
pub mod numbers;
pub mod spline;
pub mod spline_laws;
pub mod wide;
pub mod station_laws;
pub mod value;
