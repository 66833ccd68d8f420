//! Rendering of columnar values as display strings, and the naming rules
//! applied to columns of CSV files whose header names were generated.

pub mod column;
pub mod data_source;
pub mod decimal;
pub mod display;
pub mod duration;
pub mod options;
pub mod render;
pub mod temporal;
pub mod text;
