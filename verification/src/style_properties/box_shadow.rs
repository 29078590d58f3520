//! The `box-shadow` property.

use vstd::prelude::*;
use crate::style_properties::calc::{generate_expr_by_length, length_expr};
use crate::style_properties::color::{convert_color_keywords_to_hex, hex_of_keyword};
use crate::style_properties::property::{BoxShadowItem, Property};
use crate::style_properties::unit::{
    named_view, props_view, Expr, ExprView, Length, LengthView, Platform, Prop, PropertyTuple,
    PropertyTupleView, PropKey, PropKeyView,
};
use crate::text::{opt_text, owned};

verus! {

/// A `box-shadow` declaration: what the last of its shadows gives. The
/// color is held as CSS text.
#[derive(Debug, PartialEq)]
pub struct BoxShadow {
    pub id: String,
    pub offset_x: Option<Length>,
    pub offset_y: Option<Length>,
    pub blur_radius: Option<Length>,
    pub color: Option<String>,
    pub inset: Option<bool>,
}

pub ghost struct BoxShadowView {
    pub id: Seq<char>,
    pub offset_x: Option<LengthView>,
    pub offset_y: Option<LengthView>,
    pub blur_radius: Option<LengthView>,
    pub color: Option<Seq<char>>,
    pub inset: Option<bool>,
}

/// The view of a length that may be absent.
pub open spec fn opt_length(l: Option<Length>) -> Option<LengthView> {
    match l {
        Some(l) => Some(l@),
        None => None,
    }
}

impl View for BoxShadow {
    type V = BoxShadowView;

    open spec fn view(&self) -> BoxShadowView {
        BoxShadowView {
            id: self.id@,
            offset_x: opt_length(self.offset_x),
            offset_y: opt_length(self.offset_y),
            blur_radius: opt_length(self.blur_radius),
            color: opt_text(self.color),
            inset: self.inset,
        }
    }
}

/// A shadow without any value.
pub open spec fn empty_shadow(id: Seq<char>) -> BoxShadowView {
    BoxShadowView {
        id,
        offset_x: None,
        offset_y: None,
        blur_radius: None,
        color: None,
        inset: None,
    }
}

/// What shadows give: the values of the last of them; no value where
/// there is none.
pub open spec fn shadow_of_items(id: Seq<char>, items: Seq<BoxShadowItem>) -> BoxShadowView {
    if items.len() > 0 {
        let last = items.last();
        BoxShadowView {
            id,
            offset_x: Some(last.x_offset@),
            offset_y: Some(last.y_offset@),
            blur_radius: Some(last.blur@),
            color: Some(last.color@),
            inset: Some(last.inset),
        }
    } else {
        empty_shadow(id)
    }
}

/// What a declaration gives as `box-shadow`: the values of the last
/// shadow of a `box-shadow` declaration; no value for a declaration
/// without a shadow and for a declaration of another property.
pub open spec fn box_shadow_of(id: Seq<char>, property: Property) -> BoxShadowView {
    match property {
        Property::BoxShadow(items) => shadow_of_items(id, items@),
        _ => empty_shadow(id),
    }
}

/// A color as an expression: the string of its text, a keyword replaced
/// by its hexadecimal form.
pub open spec fn color_expr(color: Seq<char>) -> ExprView {
    ExprView::Str(hex_of_keyword(color))
}

/// A color as an expression.
pub fn generate_string_by_css_color(color: &String) -> (e: Expr)
    ensures
        e@ == color_expr(color@),
{
    Expr::Str(convert_color_keywords_to_hex(color.clone()))
}

/// The properties of the Harmony shadow: `offsetX`, `offsetY`, `radius`,
/// `color` and `fill`, each only where the shadow has the value, in this
/// order.
pub open spec fn harmony_props(s: BoxShadowView) -> Seq<(PropKeyView, ExprView)> {
    (match s.offset_x {
        Some(l) => seq![(PropKeyView::Ident("offsetX"@), length_expr(l, Platform::Harmony))],
        None => Seq::empty(),
    }) + (match s.offset_y {
        Some(l) => seq![(PropKeyView::Ident("offsetY"@), length_expr(l, Platform::Harmony))],
        None => Seq::empty(),
    }) + (match s.blur_radius {
        Some(l) => seq![(PropKeyView::Ident("radius"@), length_expr(l, Platform::Harmony))],
        None => Seq::empty(),
    }) + (match s.color {
        Some(c) => seq![(PropKeyView::Ident("color"@), color_expr(c))],
        None => Seq::empty(),
    }) + (match s.inset {
        Some(b) => seq![(PropKeyView::Ident("fill"@), ExprView::Bool(b))],
        None => Seq::empty(),
    })
}

/// The shadow for the Harmony platform: one object named `boxShadow`.
pub open spec fn harmony_shadow(s: BoxShadowView) -> PropertyTupleView {
    PropertyTupleView::One("boxShadow"@, ExprView::Object(harmony_props(s)))
}

/// The shadow for the React Native platform: where it has both offsets,
/// a color and a blur radius, the three fields `BoxShadowOffset`, an
/// object of `width` and `height`, `BoxShadowColor` and
/// `BoxShadowRadius`; the invalid marker where one of them is absent.
pub open spec fn react_native_shadow(s: BoxShadowView) -> PropertyTupleView {
    match (s.offset_x, s.offset_y, s.color, s.blur_radius) {
        (Some(x), Some(y), Some(c), Some(r)) => PropertyTupleView::Array(
            seq![
                (
                    "BoxShadowOffset"@,
                    ExprView::Object(
                        seq![
                            (PropKeyView::Ident("width"@), length_expr(x, Platform::ReactNative)),
                            (PropKeyView::Ident("height"@), length_expr(y, Platform::ReactNative)),
                        ],
                    ),
                ),
                ("BoxShadowColor"@, color_expr(c)),
                ("BoxShadowRadius"@, length_expr(r, Platform::ReactNative)),
            ],
        ),
        _ => PropertyTupleView::One(s.id, ExprView::Invalid),
    }
}

/// A property of an object expression with an identifier as its key.
pub fn generate_prop(key: &str, value: Expr) -> (p: Prop)
    ensures
        p@ == (PropKeyView::Ident(key@), value@),
{
    Prop { key: PropKey::Ident(owned(key)), value }
}

impl BoxShadow {
    /// A shadow without any value.
    pub fn new(id: String) -> (s: BoxShadow)
        ensures
            s@ == empty_shadow(id@),
    {
        BoxShadow {
            id,
            offset_x: None,
            offset_y: None,
            blur_radius: None,
            color: None,
            inset: None,
        }
    }

    pub fn set_offset_x(&mut self, offset_x: Length)
        ensures
            final(self)@ == (BoxShadowView { offset_x: Some(offset_x@), ..old(self)@ }),
    {
        self.offset_x = Some(offset_x);
    }

    pub fn set_offset_y(&mut self, offset_y: Length)
        ensures
            final(self)@ == (BoxShadowView { offset_y: Some(offset_y@), ..old(self)@ }),
    {
        self.offset_y = Some(offset_y);
    }

    pub fn set_blur_radius(&mut self, blur_radius: Length)
        ensures
            final(self)@ == (BoxShadowView { blur_radius: Some(blur_radius@), ..old(self)@ }),
    {
        self.blur_radius = Some(blur_radius);
    }

    pub fn set_color(&mut self, color: String)
        ensures
            final(self)@ == (BoxShadowView { color: Some(color@), ..old(self)@ }),
    {
        self.color = Some(color);
    }

    pub fn set_inset(&mut self, inset: bool)
        ensures
            final(self)@ == (BoxShadowView { inset: Some(inset), ..old(self)@ }),
    {
        self.inset = Some(inset);
    }

    /// The shadow of a declaration, under the name `id`.
    pub fn from(id: String, property: &Property) -> (s: BoxShadow)
        ensures
            s@ == box_shadow_of(id@, *property),
    {
        let mut box_shadow = BoxShadow::new(id);
        match property {
            Property::BoxShadow(value) => {
                let mut i: usize = 0;
                while i < value.len()
                    invariant
                        i <= value.len(),
                        box_shadow@ == shadow_of_items(id@, value@.take(i as int)),
                    decreases value.len() - i,
                {
                    let val = &value[i];
                    box_shadow.set_offset_x(val.x_offset.duplicate());
                    box_shadow.set_offset_y(val.y_offset.duplicate());
                    box_shadow.set_blur_radius(val.blur.duplicate());
                    box_shadow.set_color(val.color.clone());
                    box_shadow.set_inset(val.inset);
                    assert(value@.take(i + 1).last() == value@[i as int]);
                    i += 1;
                }
                assert(value@.take(value@.len() as int) =~= value@);
                box_shadow
            },
            _ => box_shadow,
        }
    }

    /// The value for the Harmony platform.
    pub fn to_expr(&self) -> (t: PropertyTuple)
        ensures
            t@ == harmony_shadow(self@),
    {
        let mut props: Vec<Prop> = Vec::new();
        let ghost views: Seq<(PropKeyView, ExprView)> = Seq::empty();
        assert(props_view(props@) =~= views);
        if let Some(offset_x) = &self.offset_x {
            let value = generate_expr_by_length(offset_x, Platform::Harmony);
            let prop = generate_prop("offsetX", value);
            proof {
                views = views.push(prop@);
            }
            props.push(prop);
            assert(props_view(props@) =~= views);
        }
        if let Some(offset_y) = &self.offset_y {
            let value = generate_expr_by_length(offset_y, Platform::Harmony);
            let prop = generate_prop("offsetY", value);
            proof {
                views = views.push(prop@);
            }
            props.push(prop);
            assert(props_view(props@) =~= views);
        }
        if let Some(blur_radius) = &self.blur_radius {
            let value = generate_expr_by_length(blur_radius, Platform::Harmony);
            let prop = generate_prop("radius", value);
            proof {
                views = views.push(prop@);
            }
            props.push(prop);
            assert(props_view(props@) =~= views);
        }
        if let Some(color) = &self.color {
            let prop = generate_prop("color", generate_string_by_css_color(color));
            proof {
                views = views.push(prop@);
            }
            props.push(prop);
            assert(props_view(props@) =~= views);
        }
        if let Some(inset) = &self.inset {
            let prop = generate_prop("fill", Expr::Bool(*inset));
            proof {
                views = views.push(prop@);
            }
            props.push(prop);
            assert(props_view(props@) =~= views);
        }
        assert(views =~= harmony_props(self@));
        PropertyTuple::One(owned("boxShadow"), Expr::Object(props))
    }

    /// The value for the React Native platform.
    pub fn to_rn_expr(&self) -> (t: PropertyTuple)
        ensures
            t@ == react_native_shadow(self@),
    {
        match (&self.offset_x, &self.offset_y, &self.color, &self.blur_radius) {
            (Some(x), Some(y), Some(c), Some(r)) => {
                let mut offset: Vec<Prop> = Vec::new();
                let width = generate_expr_by_length(x, Platform::ReactNative);
                let height = generate_expr_by_length(y, Platform::ReactNative);
                offset.push(generate_prop("width", width));
                offset.push(generate_prop("height", height));
                let mut fields: Vec<(String, Expr)> = Vec::new();
                fields.push((owned("BoxShadowOffset"), Expr::Object(offset)));
                fields.push((owned("BoxShadowColor"), generate_string_by_css_color(c)));
                fields.push(
                    (owned("BoxShadowRadius"), generate_expr_by_length(r, Platform::ReactNative)),
                );
                proof {
                    assert(props_view(offset@) =~= seq![
                        (PropKeyView::Ident("width"@), length_expr(x@, Platform::ReactNative)),
                        (PropKeyView::Ident("height"@), length_expr(y@, Platform::ReactNative)),
                    ]);
                    assert(named_view(fields@) =~= react_native_shadow(self@)->Array_0);
                }
                PropertyTuple::Array(fields)
            },
            _ => PropertyTuple::One(self.id.clone(), Expr::Invalid),
        }
    }
}

} // verus!
