//! Intermediate representation shared by all parsers.
//!
//! Lengths, sizes and ratios are measured in points and fractions by the
//! converter; the types here are generic over that measure type `N`, which no
//! logic of this library inspects: it only moves such values from one place
//! to another.

pub mod elements;
pub mod style;
pub mod fixed;
