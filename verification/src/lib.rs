//! Verified core of the Creamy Cream ice-cream ratio optimizer: the data
//! model of ingredients and their nutritional properties, the selection of
//! ingredients for a calculation, and the decisions of the optimizer screen.

pub mod entity;
pub mod api;
pub mod components;
pub mod text;
pub mod views;
