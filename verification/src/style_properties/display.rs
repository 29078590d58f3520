//! The `display` property.

use vstd::prelude::*;
use crate::style_properties::property::{
    DisplayInside, DisplayKeyword, DisplayOutside, DisplayValue, Property,
};
use crate::style_properties::unit::{Expr, ExprView, PropertyTuple, PropertyTupleView};
use crate::text::owned;

verus! {

/// What `display` comes to on the platforms.
#[derive(Clone, Copy, Debug, PartialEq, Eq, Structural)]
pub enum EnumValue {
    /// `none`: the element is not shown.
    NoneValue,
    Flex,
    Block,
    Invalid,
}

/// A `display` declaration.
#[derive(Debug, PartialEq)]
pub struct Display {
    pub id: String,
    pub value: EnumValue,
}

/// What a declaration comes to as `display`: `none` for the keyword
/// `none`; `flex` for a pair whose inside is flex; `block` for a pair
/// whose outside is block and whose inside is not flex; invalid for
/// every other value and for a declaration of another property.
pub open spec fn display_of(property: Property) -> EnumValue {
    match property {
        Property::Display(DisplayValue::Keyword(DisplayKeyword::NoneKeyword)) => {
            EnumValue::NoneValue
        },
        Property::Display(DisplayValue::Keyword(_)) => EnumValue::Invalid,
        Property::Display(DisplayValue::Pair(pair)) => if pair.inside == DisplayInside::Flex {
            EnumValue::Flex
        } else if pair.outside == DisplayOutside::Block {
            EnumValue::Block
        } else {
            EnumValue::Invalid
        },
        _ => EnumValue::Invalid,
    }
}

/// The expression of a `display` value, the same on both platforms.
pub open spec fn display_expr(value: EnumValue) -> ExprView {
    match value {
        EnumValue::NoneValue => ExprView::Str("none"@),
        EnumValue::Flex => ExprView::Str("flex"@),
        EnumValue::Block => ExprView::Str("block"@),
        EnumValue::Invalid => ExprView::Invalid,
    }
}

impl Display {
    /// The `display` value of a declaration, under the name `id`.
    pub fn from(id: String, property: &Property) -> (d: Display)
        ensures
            d.id == id,
            d.value == display_of(*property),
    {
        Display {
            id,
            value: match property {
                Property::Display(value) => match value {
                    DisplayValue::Keyword(keyword) => match keyword {
                        DisplayKeyword::NoneKeyword => EnumValue::NoneValue,
                        _ => EnumValue::Invalid,
                    },
                    DisplayValue::Pair(pair) => {
                        if let DisplayInside::Flex = pair.inside {
                            EnumValue::Flex
                        } else if let DisplayOutside::Block = pair.outside {
                            EnumValue::Block
                        } else {
                            EnumValue::Invalid
                        }
                    },
                },
                _ => EnumValue::Invalid,
            },
        }
    }

    fn lower(&self) -> (t: PropertyTuple)
        ensures
            t@ == PropertyTupleView::One(self.id@, display_expr(self.value)),
    {
        PropertyTuple::One(
            self.id.clone(),
            match self.value {
                EnumValue::NoneValue => Expr::Str(owned("none")),
                EnumValue::Flex => Expr::Str(owned("flex")),
                EnumValue::Block => Expr::Str(owned("block")),
                EnumValue::Invalid => Expr::Invalid,
            },
        )
    }

    /// The value for the Harmony platform.
    pub fn to_expr(&self) -> (t: PropertyTuple)
        ensures
            t@ == PropertyTupleView::One(self.id@, display_expr(self.value)),
    {
        self.lower()
    }

    /// The value for the React Native platform.
    pub fn to_rn_expr(&self) -> (t: PropertyTuple)
        ensures
            t@ == PropertyTupleView::One(self.id@, display_expr(self.value)),
    {
        self.lower()
    }
}

} // verus!
