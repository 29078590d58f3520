//! The properties whose value is a number.

use vstd::prelude::*;
use crate::style_properties::number::Number;
use crate::style_properties::property::Property;
use crate::style_properties::unit::{Expr, ExprView, PropertyTuple, PropertyTupleView};

verus! {

/// A property whose value is a number.
#[derive(Debug, PartialEq)]
pub struct NumberProperty {
    pub id: String,
    pub value: Number,
}

/// The number of a declaration: that of a number property; zero for any
/// other declaration.
pub open spec fn number_of(property: Property) -> Number {
    match property {
        Property::Number(n) => n,
        _ => Number { micros: 0 },
    }
}

impl NumberProperty {
    /// The number of a declaration, under the name `id`.
    pub fn from(id: String, property: &Property) -> (p: NumberProperty)
        ensures
            p.id == id,
            p.value == number_of(*property),
    {
        match property {
            Property::Number(value) => NumberProperty { id, value: *value },
            _ => NumberProperty { id, value: Number::from_micros(0) },
        }
    }

    /// The number `value` under the name `id`.
    pub fn from_value(id: String, value: Number) -> (p: NumberProperty)
        ensures
            p.id == id,
            p.value == value,
    {
        NumberProperty { id, value }
    }

    /// The value for the Harmony platform: the number.
    pub fn to_expr(&self) -> (t: PropertyTuple)
        ensures
            t@ == PropertyTupleView::One(self.id@, ExprView::Num(self.value.micros as int)),
    {
        PropertyTuple::One(self.id.clone(), Expr::Num(self.value))
    }

    /// The value for the React Native platform: the number.
    pub fn to_rn_expr(&self) -> (t: PropertyTuple)
        ensures
            t@ == PropertyTupleView::One(self.id@, ExprView::Num(self.value.micros as int)),
    {
        PropertyTuple::One(self.id.clone(), Expr::Num(self.value))
    }
}

} // verus!
