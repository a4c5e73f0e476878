pub mod chart;
pub mod shape;
