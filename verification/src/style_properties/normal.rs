//! The properties whose value is taken as it is written.

use vstd::prelude::*;
use crate::style_properties::property::Property;
use crate::style_properties::unit::{Expr, ExprView, PropertyTuple, PropertyTupleView};

verus! {

/// A property whose value is taken as its CSS text.
#[derive(Debug, PartialEq)]
pub struct Normal {
    pub id: String,
    pub value: String,
}

/// The text of a declaration: that of a property of no other kind;
/// nothing for the other kinds.
pub open spec fn text_of_property(property: Property) -> Seq<char> {
    match property {
        Property::Other(text) => text@,
        _ => Seq::empty(),
    }
}

impl Normal {
    /// The text `value` under the name `id`.
    pub fn new(id: String, value: String) -> (p: Normal)
        ensures
            p.id == id,
            p.value == value,
    {
        Normal { id, value }
    }

    /// The text of a declaration, under the name `id`.
    pub fn from(id: String, property: &Property) -> (p: Normal)
        ensures
            p.id == id,
            p.value@ == text_of_property(*property),
    {
        match property {
            Property::Other(text) => Normal { id, value: text.clone() },
            _ => Normal { id, value: String::new() },
        }
    }

    /// The value for the Harmony platform: the text as a string.
    pub fn to_expr(&self) -> (t: PropertyTuple)
        ensures
            t@ == PropertyTupleView::One(self.id@, ExprView::Str(self.value@)),
    {
        PropertyTuple::One(self.id.clone(), Expr::Str(self.value.clone()))
    }

    /// The value for the React Native platform: the text as a string.
    pub fn to_rn_expr(&self) -> (t: PropertyTuple)
        ensures
            t@ == PropertyTupleView::One(self.id@, ExprView::Str(self.value@)),
    {
        PropertyTuple::One(self.id.clone(), Expr::Str(self.value.clone()))
    }
}

} // verus!
