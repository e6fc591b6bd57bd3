pub mod calculate;
pub mod models;
