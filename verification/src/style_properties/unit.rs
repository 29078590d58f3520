//! Platforms, target expressions, and the lowering of lengths.

use vstd::prelude::*;
use crate::style_properties::number::{clamp, decimal_text, Number};
use crate::text::{owned, push_text, same_text};

verus! {

/// The platform that a style value is lowered for.
#[derive(Clone, Copy, Debug, PartialEq, Eq, Structural)]
pub enum Platform {
    ReactNative,
    Harmony,
}

/// The helper that converts lengths on the Harmony platform.
pub const CONVERT_STYLE_PX_FN: &'static str = "convertNumber2VP";

/// The helper that converts pixels on the React Native platform.
pub const RN_CONVERT_STYLE_PX_FN: &'static str = "scalePx2dp";

/// The helper that converts viewport units on the React Native platform.
pub const RN_CONVERT_STYLE_VU_FN: &'static str = "scaleVu2dp";

/// The key of a property of an object expression.
#[derive(Debug, PartialEq)]
pub enum PropKey {
    Ident(String),
    Str(String),
}

pub ghost enum PropKeyView {
    Ident(Seq<char>),
    Str(Seq<char>),
}

impl View for PropKey {
    type V = PropKeyView;

    open spec fn view(&self) -> PropKeyView {
        match self {
            PropKey::Ident(s) => PropKeyView::Ident(s@),
            PropKey::Str(s) => PropKeyView::Str(s@),
        }
    }
}

/// An expression of the target language.
#[derive(Debug, PartialEq)]
pub enum Expr {
    /// A string literal.
    Str(String),
    /// A number literal.
    Num(Number),
    /// A boolean literal.
    Bool(bool),
    /// A template literal without interpolations, given by its raw text.
    Tpl(String),
    /// A call of a named function.
    Call(String, Vec<Expr>),
    /// An object literal.
    Object(Vec<Prop>),
    /// An array literal.
    Array(Vec<Expr>),
    /// The marker of a value that the platform cannot represent.
    Invalid,
}

/// One property of an object expression.
#[derive(Debug, PartialEq)]
pub struct Prop {
    pub key: PropKey,
    pub value: Expr,
}

pub ghost enum ExprView {
    Str(Seq<char>),
    Num(int),
    Bool(bool),
    Tpl(Seq<char>),
    Call(Seq<char>, Seq<ExprView>),
    Object(Seq<(PropKeyView, ExprView)>),
    Array(Seq<ExprView>),
    Invalid,
}

/// The view of an expression; a number is given by its millionths.
pub open spec fn expr_view(e: Expr) -> ExprView
    decreases e, 0nat,
{
    match e {
        Expr::Str(s) => ExprView::Str(s@),
        Expr::Num(n) => ExprView::Num(n.micros as int),
        Expr::Bool(b) => ExprView::Bool(b),
        Expr::Tpl(s) => ExprView::Tpl(s@),
        Expr::Call(name, args) => ExprView::Call(name@, exprs_view(args@)),
        Expr::Object(props) => ExprView::Object(props_view(props@)),
        Expr::Array(items) => ExprView::Array(exprs_view(items@)),
        Expr::Invalid => ExprView::Invalid,
    }
}

/// The views of a list of expressions.
pub open spec fn exprs_view(items: Seq<Expr>) -> Seq<ExprView>
    decreases items, 1nat,
{
    Seq::new(
        items.len(),
        |i: int|
            if 0 <= i < items.len() {
                expr_view(items[i])
            } else {
                ExprView::Invalid
            },
    )
}

/// The views of the properties of an object expression.
pub open spec fn props_view(props: Seq<Prop>) -> Seq<(PropKeyView, ExprView)>
    decreases props, 1nat,
{
    Seq::new(
        props.len(),
        |i: int|
            if 0 <= i < props.len() {
                (props[i].key@, expr_view(props[i].value))
            } else {
                (PropKeyView::Ident(Seq::empty()), ExprView::Invalid)
            },
    )
}

impl View for Expr {
    type V = ExprView;

    open spec fn view(&self) -> ExprView {
        expr_view(*self)
    }
}

impl View for Prop {
    type V = (PropKeyView, ExprView);

    open spec fn view(&self) -> (PropKeyView, ExprView) {
        (self.key@, self.value@)
    }
}

/// What a style value is lowered to: one named expression, or several.
#[derive(Debug, PartialEq)]
pub enum PropertyTuple {
    One(String, Expr),
    Array(Vec<(String, Expr)>),
}

pub ghost enum PropertyTupleView {
    One(Seq<char>, ExprView),
    Array(Seq<(Seq<char>, ExprView)>),
}

/// The views of a list of named expressions.
pub open spec fn named_view(items: Seq<(String, Expr)>) -> Seq<(Seq<char>, ExprView)> {
    items.map_values(|p: (String, Expr)| (p.0@, p.1@))
}

impl View for PropertyTuple {
    type V = PropertyTupleView;

    open spec fn view(&self) -> PropertyTupleView {
        match self {
            PropertyTuple::One(name, e) => PropertyTupleView::One(name@, e@),
            PropertyTuple::Array(items) => PropertyTupleView::Array(named_view(items@)),
        }
    }
}

/// The unit of a length, as far as the platforms tell units apart.
#[derive(Clone, Copy, Debug, PartialEq, Eq, Structural)]
pub enum LengthUnit {
    Px,
    Vw,
    Vh,
    Other,
}

/// A length with a unit.
#[derive(Clone, Copy, Debug, PartialEq, Eq, Structural)]
pub struct LengthValue {
    pub value: Number,
    pub unit: LengthUnit,
}

/// A length: a value with a unit, or a `calc()` expression as CSS text.
#[derive(Debug, PartialEq)]
pub enum Length {
    Value(LengthValue),
    Calc(String),
}

/// The name of a unit that a helper converts.
pub open spec fn unit_text(unit: LengthUnit) -> Seq<char> {
    match unit {
        LengthUnit::Px => "px"@,
        LengthUnit::Vw => "vw"@,
        LengthUnit::Vh => "vh"@,
        LengthUnit::Other => Seq::empty(),
    }
}

/// The helper that converts a length of the unit named `unit` on the
/// platform: on Harmony one helper for every unit; on React Native one
/// for pixels and one for the units of the viewport.
pub open spec fn helper_text(platform: Platform, unit: Seq<char>) -> Seq<char> {
    match platform {
        Platform::Harmony => CONVERT_STYLE_PX_FN@,
        Platform::ReactNative => if unit == "px"@ {
            RN_CONVERT_STYLE_PX_FN@
        } else {
            RN_CONVERT_STYLE_VU_FN@
        },
    }
}

/// A length with a unit as an expression of the platform: a call of the
/// helper for the unit, with the number and the name of the unit; the
/// invalid marker for a unit that no helper converts.
pub open spec fn length_value_expr(v: LengthValue, platform: Platform) -> ExprView {
    match v.unit {
        LengthUnit::Other => ExprView::Invalid,
        _ => ExprView::Call(
            helper_text(platform, unit_text(v.unit)),
            seq![ExprView::Num(v.value.micros as int), ExprView::Str(unit_text(v.unit))],
        ),
    }
}

/// A percentage as text: a hundred times the number, then `%`.
pub open spec fn percentage_text(p: Number) -> Seq<char> {
    decimal_text(clamp(p.micros * 100)) + "%"@
}

/// The name of the helper for a unit on a platform.
pub fn helper_name(platform: Platform, unit: &str) -> (s: String)
    ensures
        s@ == helper_text(platform, unit@),
{
    match platform {
        Platform::Harmony => owned(CONVERT_STYLE_PX_FN),
        Platform::ReactNative => {
            if same_text(unit, "px") {
                owned(RN_CONVERT_STYLE_PX_FN)
            } else {
                owned(RN_CONVERT_STYLE_VU_FN)
            }
        },
    }
}

/// Lowers a length with a unit.
pub fn generate_expr_by_length_value(length_value: &LengthValue, platform: Platform) -> (e: Expr)
    ensures
        e@ == length_value_expr(*length_value, platform),
{
    let unit: &str = match length_value.unit {
        LengthUnit::Px => "px",
        LengthUnit::Vw => "vw",
        LengthUnit::Vh => "vh",
        LengthUnit::Other => {
            return Expr::Invalid;
        },
    };
    let mut args: Vec<Expr> = Vec::new();
    args.push(Expr::Num(length_value.value));
    args.push(Expr::Str(owned(unit)));
    let e = Expr::Call(helper_name(platform, unit), args);
    proof {
        assert(exprs_view(args@) =~= seq![
            ExprView::Num(length_value.value.micros as int),
            ExprView::Str(unit_text(length_value.unit)),
        ]);
    }
    e
}

/// A percentage as text.
pub fn percentage_string(p: Number) -> (s: String)
    ensures
        s@ == percentage_text(p),
{
    let mut s = p.scale(100).to_text();
    push_text(&mut s, "%");
    s
}


pub ghost enum LengthView {
    Value(LengthValue),
    Calc(Seq<char>),
}

impl View for Length {
    type V = LengthView;

    open spec fn view(&self) -> LengthView {
        match self {
            Length::Value(v) => LengthView::Value(*v),
            Length::Calc(text) => LengthView::Calc(text@),
        }
    }
}

impl Length {
    /// A copy of the length.
    pub fn duplicate(&self) -> (l: Length)
        ensures
            l@ == self@,
    {
        match self {
            Length::Value(v) => Length::Value(*v),
            Length::Calc(text) => Length::Calc(text.clone()),
        }
    }
}

} // verus!
