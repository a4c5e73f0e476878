pub mod builder;
pub mod calculations;
pub mod context;
pub mod nodes;
