//! The style value model: what a declaration holds, for each kind of
//! property, and how it is lowered to an expression of each platform.

pub mod animation;
pub mod box_shadow;
pub mod calc;
pub mod color;
pub mod display;
pub mod laws;
pub mod length_value;
pub mod normal;
pub mod number;
pub mod number_property;
pub mod property;
pub mod size;
pub mod style_value_type;
pub mod unit;
