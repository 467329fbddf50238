//! Core data model of a differential-privacy analysis validator: values,
//! their statically known properties, and the property-propagation rules of
//! a few components.

pub mod error;
pub mod bits;
pub mod scalar;
pub mod keyed;
pub mod nd;
pub mod jagged;
pub mod array;
pub mod hashmap;
pub mod value;
pub mod component;
pub mod properties;
pub mod utilities;
pub mod components;
