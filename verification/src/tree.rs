//! Constructs of a class file as trees of values.

pub mod annotation;
