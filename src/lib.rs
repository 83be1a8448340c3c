//! A model of robot link descriptions and their serialization to markup.
//!
//! Every real quantity (lengths, angles, masses, moments) is held as a
//! fixed-point count of billionths of its unit in an `i64`.
pub mod attributes;
pub mod cylinder_inertia;
pub mod decimal;
pub mod elements;
pub mod link;
pub mod markup;
pub mod pretty;
