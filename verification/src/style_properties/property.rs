//! Parsed declarations, as the values of the style model read them.

use vstd::prelude::*;
use crate::style_properties::number::Number;
use crate::style_properties::unit::{Length, LengthValue};

verus! {

/// A `display` keyword that stands alone.
#[derive(Clone, Copy, Debug, PartialEq, Eq, Structural)]
pub enum DisplayKeyword {
    /// The keyword `none`.
    NoneKeyword,
    Contents,
    TableRowGroup,
    TableHeaderGroup,
    TableFooterGroup,
    TableRow,
    TableCell,
    TableColumnGroup,
    TableColumn,
    TableCaption,
    RubyBase,
    RubyText,
    RubyBaseContainer,
    RubyTextContainer,
}

/// How a box takes part in the layout of its parent.
#[derive(Clone, Copy, Debug, PartialEq, Eq, Structural)]
pub enum DisplayOutside {
    Block,
    Inline,
    RunIn,
}

/// How a box lays out what is inside it.
#[derive(Clone, Copy, Debug, PartialEq, Eq, Structural)]
pub enum DisplayInside {
    Flow,
    FlowRoot,
    Table,
    Flex,
    Box,
    Grid,
    Ruby,
}

/// The outer and the inner display type of a box.
#[derive(Clone, Copy, Debug, PartialEq, Eq, Structural)]
pub struct DisplayPair {
    pub outside: DisplayOutside,
    pub inside: DisplayInside,
    pub is_list_item: bool,
}

/// The value of `display`.
#[derive(Clone, Copy, Debug, PartialEq, Eq, Structural)]
pub enum DisplayValue {
    Keyword(DisplayKeyword),
    Pair(DisplayPair),
}

/// A length or a percentage.
#[derive(Debug, PartialEq)]
pub enum DimensionPercentage {
    Dimension(LengthValue),
    Percentage(Number),
    /// A `calc()` expression as CSS text.
    Calc(String),
}

/// A length, a percentage, or `auto`.
#[derive(Debug, PartialEq)]
pub enum LengthPercentageOrAuto {
    Auto,
    LengthPercentage(DimensionPercentage),
}

/// The value of a size property: a length or a percentage, or one of the
/// keywords.
#[derive(Debug, PartialEq)]
pub enum Size {
    LengthPercentage(DimensionPercentage),
    Other,
}

/// A time.
#[derive(Clone, Copy, Debug, PartialEq, Eq, Structural)]
pub enum Time {
    Seconds(Number),
    Milliseconds(Number),
}

/// How often an animation runs.
#[derive(Clone, Copy, Debug, PartialEq, Eq, Structural)]
pub enum AnimationIterationCount {
    Number(Number),
    Infinite,
}

/// One animation of the `animation` shorthand. Its name and its timing
/// function are held as CSS text.
#[derive(Debug, PartialEq)]
pub struct AnimationItem {
    pub name: String,
    pub duration: Time,
    pub delay: Time,
    pub iteration_count: AnimationIterationCount,
    pub timing_function: String,
}

/// One shadow of `box-shadow`. Its color is held as CSS text.
#[derive(Debug, PartialEq)]
pub struct BoxShadowItem {
    pub color: String,
    pub x_offset: Length,
    pub y_offset: Length,
    pub blur: Length,
    pub spread: Length,
    pub inset: bool,
}

/// A parsed declaration, by the shape of its value.
#[derive(Debug, PartialEq)]
pub enum Property {
    Display(DisplayValue),
    BoxShadow(Vec<BoxShadowItem>),
    Animation(Vec<AnimationItem>),
    /// The names of `animation-name` as CSS text.
    AnimationName(String),
    AnimationDuration(Vec<Time>),
    AnimationDelay(Vec<Time>),
    AnimationIterationCount(Vec<AnimationIterationCount>),
    /// The timing functions of `animation-timing-function`, each as CSS
    /// text.
    AnimationTimingFunction(Vec<String>),
    /// A property whose value is a color, with the color as CSS text.
    Color(String),
    /// A property whose value is a number.
    Number(Number),
    /// A property whose value is a length, a percentage or `auto`.
    Length(LengthPercentageOrAuto),
    /// A property whose value is a size.
    Size(Size),
    /// Any other property, with its value as CSS text.
    Other(String),
}

} // verus!
