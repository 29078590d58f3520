//! The properties whose value is a length, a percentage or `auto`.

use vstd::prelude::*;
use crate::style_properties::calc::{generate_expr_lit_calc, rewritten_calc};
use crate::style_properties::number::Number;
use crate::style_properties::property::{DimensionPercentage, LengthPercentageOrAuto, Property};
use crate::style_properties::unit::{
    generate_expr_by_length_value, length_value_expr, percentage_string, percentage_text, Expr,
    ExprView, LengthValue, Platform, PropertyTuple, PropertyTupleView,
};
use crate::text::owned;

verus! {

/// What a length property holds.
#[derive(Debug, PartialEq)]
pub enum EnumValue {
    LengthValue(LengthValue),
    Percentage(Number),
    /// A `calc()` expression as CSS text.
    String(String),
    Auto,
}

pub ghost enum EnumValueView {
    LengthValue(LengthValue),
    Percentage(Number),
    String(Seq<char>),
    Auto,
}

impl View for EnumValue {
    type V = EnumValueView;

    open spec fn view(&self) -> EnumValueView {
        match self {
            EnumValue::LengthValue(v) => EnumValueView::LengthValue(*v),
            EnumValue::Percentage(p) => EnumValueView::Percentage(*p),
            EnumValue::String(s) => EnumValueView::String(s@),
            EnumValue::Auto => EnumValueView::Auto,
        }
    }
}

/// A property whose value is a length, a percentage or `auto`.
#[derive(Debug, PartialEq)]
pub struct LengthValueProperty {
    pub id: String,
    pub value: EnumValue,
}

/// What a length or a percentage is held as.
pub open spec fn dimension_value(d: DimensionPercentage) -> EnumValueView {
    match d {
        DimensionPercentage::Dimension(v) => EnumValueView::LengthValue(v),
        DimensionPercentage::Percentage(p) => EnumValueView::Percentage(p),
        DimensionPercentage::Calc(text) => EnumValueView::String(text@),
    }
}

/// What a declaration is held as: the value of a length property; the
/// text `auto` for any other declaration.
pub open spec fn length_value_of(property: Property) -> EnumValueView {
    match property {
        Property::Length(LengthPercentageOrAuto::Auto) => EnumValueView::Auto,
        Property::Length(LengthPercentageOrAuto::LengthPercentage(d)) => dimension_value(d),
        _ => EnumValueView::String("auto"@),
    }
}

/// The expression of the value on a platform: a `calc()` text as the
/// template literal of its rewritten text, a length by the helper for
/// its unit, a percentage as a string; `auto` as the string `auto` on
/// React Native and as the invalid marker on Harmony, which has no such
/// value.
pub open spec fn length_value_expr_of(value: EnumValueView, platform: Platform) -> ExprView {
    match value {
        EnumValueView::String(text) => ExprView::Tpl(rewritten_calc(text, platform)),
        EnumValueView::LengthValue(v) => length_value_expr(v, platform),
        EnumValueView::Percentage(p) => ExprView::Str(percentage_text(p)),
        EnumValueView::Auto => match platform {
            Platform::Harmony => ExprView::Invalid,
            Platform::ReactNative => ExprView::Str("auto"@),
        },
    }
}

impl LengthValueProperty {
    /// The value of a declaration, under the name `id`.
    pub fn from(id: String, property: &Property) -> (p: LengthValueProperty)
        ensures
            p.id == id,
            p.value@ == length_value_of(*property),
    {
        match property {
            Property::Length(value) => LengthValueProperty {
                id,
                value: match value {
                    LengthPercentageOrAuto::Auto => EnumValue::Auto,
                    LengthPercentageOrAuto::LengthPercentage(d) => match d {
                        DimensionPercentage::Dimension(v) => EnumValue::LengthValue(*v),
                        DimensionPercentage::Percentage(p) => EnumValue::Percentage(*p),
                        DimensionPercentage::Calc(text) => EnumValue::String(text.clone()),
                    },
                },
            },
            _ => LengthValueProperty { id, value: EnumValue::String(owned("auto")) },
        }
    }

    fn lower(&self, platform: Platform) -> (t: PropertyTuple)
        ensures
            t@ == PropertyTupleView::One(self.id@, length_value_expr_of(self.value@, platform)),
    {
        PropertyTuple::One(
            self.id.clone(),
            match &self.value {
                EnumValue::String(value) => generate_expr_lit_calc(value.as_str(), platform),
                EnumValue::LengthValue(v) => generate_expr_by_length_value(v, platform),
                EnumValue::Percentage(p) => Expr::Str(percentage_string(*p)),
                EnumValue::Auto => match platform {
                    Platform::Harmony => Expr::Invalid,
                    Platform::ReactNative => Expr::Str(owned("auto")),
                },
            },
        )
    }

    /// The value for the Harmony platform.
    pub fn to_expr(&self) -> (t: PropertyTuple)
        ensures
            t@ == PropertyTupleView::One(
                self.id@,
                length_value_expr_of(self.value@, Platform::Harmony),
            ),
    {
        self.lower(Platform::Harmony)
    }

    /// The value for the React Native platform.
    pub fn to_rn_expr(&self) -> (t: PropertyTuple)
        ensures
            t@ == PropertyTupleView::One(
                self.id@,
                length_value_expr_of(self.value@, Platform::ReactNative),
            ),
    {
        self.lower(Platform::ReactNative)
    }
}

} // verus!
