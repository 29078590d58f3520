//! What holds of lowering for every value.

use vstd::prelude::*;
use crate::style_properties::animation::Animation;
use crate::style_properties::box_shadow::{
    color_expr, harmony_props, harmony_shadow, react_native_shadow, BoxShadowView,
};
use crate::style_properties::calc::length_expr;
use crate::style_properties::display::{display_of, Display};
use crate::style_properties::property::{
    DisplayInside, DisplayKeyword, DisplayOutside, DisplayPair, DisplayValue, Property,
};
use crate::style_properties::style_value_type::{
    animation_fields, lowered, named_keyframes, StyleValueType,
};
use crate::style_properties::unit::{
    length_value_expr, ExprView, LengthUnit, LengthValue, LengthView, Platform, PropertyTupleView,
    PropKeyView,
};

verus! {

/// `display: none` comes to the string `none` on both platforms.
pub proof fn display_none_is_none(d: Display, property: Property, platform: Platform)
    requires
        property == Property::Display(DisplayValue::Keyword(DisplayKeyword::NoneKeyword)),
        d.value == display_of(property),
    ensures
        lowered(StyleValueType::Display(d), platform) == PropertyTupleView::One(
            d.id@,
            ExprView::Str("none"@),
        ),
{
}

/// A `display` whose inside is flex comes to the string `flex` on both
/// platforms, whatever its outside is.
pub proof fn display_flex_is_flex(d: Display, pair: DisplayPair, platform: Platform)
    requires
        pair.inside == DisplayInside::Flex,
        d.value == display_of(Property::Display(DisplayValue::Pair(pair))),
    ensures
        lowered(StyleValueType::Display(d), platform) == PropertyTupleView::One(
            d.id@,
            ExprView::Str("flex"@),
        ),
{
}

/// A `display` whose outside is block and whose inside is not flex comes
/// to the string `block` on both platforms.
pub proof fn display_block_is_block(d: Display, pair: DisplayPair, platform: Platform)
    requires
        pair.outside == DisplayOutside::Block,
        pair.inside != DisplayInside::Flex,
        d.value == display_of(Property::Display(DisplayValue::Pair(pair))),
    ensures
        lowered(StyleValueType::Display(d), platform) == PropertyTupleView::One(
            d.id@,
            ExprView::Str("block"@),
        ),
{
}

/// Every other `display` comes to the invalid marker on both platforms:
/// a keyword other than `none`, and a pair whose outside is not block
/// and whose inside is not flex, such as `inline`.
pub proof fn display_other_is_invalid(d: Display, value: DisplayValue, platform: Platform)
    requires
        d.value == display_of(Property::Display(value)),
        match value {
            DisplayValue::Keyword(k) => k != DisplayKeyword::NoneKeyword,
            DisplayValue::Pair(pair) => pair.outside != DisplayOutside::Block && pair.inside
                != DisplayInside::Flex,
        },
    ensures
        lowered(StyleValueType::Display(d), platform) == PropertyTupleView::One(
            d.id@,
            ExprView::Invalid,
        ),
{
}

/// A length with a unit never lowers to text: it is the call of a helper
/// with the number and the unit, or, for a unit that no helper converts,
/// the invalid marker.
pub proof fn literal_length_is_no_text(v: LengthValue, platform: Platform)
    ensures
        !(length_value_expr(v, platform) is Str),
        !(length_value_expr(v, platform) is Tpl),
        v.unit != LengthUnit::Other ==> length_value_expr(v, platform) is Call
            && length_value_expr(v, platform)->Call_1[0] == ExprView::Num(v.value.micros as int),
{
}

/// Whether one of the fields has the name `name`.
pub open spec fn has_field(fields: Seq<(Seq<char>, ExprView)>, name: Seq<char>) -> bool {
    exists|i: int| 0 <= i < fields.len() && (#[trigger] fields[i]).0 == name
}

/// An animation whose name has no keyframes in the table gives no
/// `animationName`, and still gives its delay, its iteration count and
/// its duration.
pub proof fn unknown_animation_name_gives_no_field(a: Animation)
    requires
        named_keyframes(a) is None,
    ensures
        !has_field(animation_fields(a), "animationName"@),
        a.animation_delay is Some ==> has_field(animation_fields(a), "animationDelay"@),
        a.animation_iteration is Some ==> has_field(
            animation_fields(a),
            "animationIterationCount"@,
        ),
        a.animation_duration is Some ==> has_field(animation_fields(a), "animationDuration"@),
{
    reveal_strlit("animationName");
    reveal_strlit("animationDelay");
    reveal_strlit("animationIterationCount");
    reveal_strlit("animationDuration");
    reveal_strlit("animationTimeingFunction");
    let fields = animation_fields(a);
    let delay: Seq<(Seq<char>, ExprView)> = match a.animation_delay {
        Some(n) => seq![("animationDelay"@, ExprView::Num(n.micros as int))],
        None => Seq::empty(),
    };
    let iteration: Seq<(Seq<char>, ExprView)> = match a.animation_iteration {
        Some(n) => seq![("animationIterationCount"@, ExprView::Num(n.micros as int))],
        None => Seq::empty(),
    };
    let duration: Seq<(Seq<char>, ExprView)> = match a.animation_duration {
        Some(n) => seq![("animationDuration"@, ExprView::Num(n.micros as int))],
        None => Seq::empty(),
    };
    let timing: Seq<(Seq<char>, ExprView)> = match a.animation_timeing_function {
        Some(t) => seq![("animationTimeingFunction"@, ExprView::Str(t@))],
        None => Seq::empty(),
    };
    assert(fields =~= delay + iteration + duration + timing);
    assert("animationName"@.len() == 13);
    assert("animationDelay"@.len() == 14);
    assert("animationIterationCount"@.len() == 23);
    assert("animationDuration"@.len() == 17);
    assert("animationTimeingFunction"@.len() == 24);
    if a.animation_delay is Some {
        assert(fields[0].0 == "animationDelay"@);
    }
    if a.animation_iteration is Some {
        assert(fields[delay.len() as int].0 == "animationIterationCount"@);
    }
    if a.animation_duration is Some {
        assert(fields[(delay.len() + iteration.len()) as int].0 == "animationDuration"@);
    }
    assert forall|i: int| 0 <= i < fields.len() implies (#[trigger] fields[i]).0
        != "animationName"@ by {
        if i < delay.len() {
            assert(fields[i] == delay[i]);
        } else if i < delay.len() + iteration.len() {
            assert(fields[i] == iteration[i - delay.len()]);
        } else if i < delay.len() + iteration.len() + duration.len() {
            assert(fields[i] == duration[i - delay.len() - iteration.len()]);
        } else {
            assert(fields[i] == timing[i - delay.len() - iteration.len() - duration.len()]);
        }
    }
}

/// A shadow with all five values gives, on Harmony, the object
/// `boxShadow` with exactly `offsetX`, `offsetY`, `radius`, `color` and
/// `fill`, and on React Native exactly `BoxShadowOffset`, with `width`
/// and `height`, `BoxShadowColor` and `BoxShadowRadius`.
pub proof fn full_shadow_gives_its_fields(
    s: BoxShadowView,
    x: LengthView,
    y: LengthView,
    blur: LengthView,
    color: Seq<char>,
    inset: bool,
)
    requires
        s.offset_x == Some(x),
        s.offset_y == Some(y),
        s.blur_radius == Some(blur),
        s.color == Some(color),
        s.inset == Some(inset),
    ensures
        harmony_shadow(s) == PropertyTupleView::One(
            "boxShadow"@,
            ExprView::Object(
                seq![
                    (PropKeyView::Ident("offsetX"@), length_expr(x, Platform::Harmony)),
                    (PropKeyView::Ident("offsetY"@), length_expr(y, Platform::Harmony)),
                    (PropKeyView::Ident("radius"@), length_expr(blur, Platform::Harmony)),
                    (PropKeyView::Ident("color"@), color_expr(color)),
                    (PropKeyView::Ident("fill"@), ExprView::Bool(inset)),
                ],
            ),
        ),
        react_native_shadow(s) == PropertyTupleView::Array(
            seq![
                (
                    "BoxShadowOffset"@,
                    ExprView::Object(
                        seq![
                            (PropKeyView::Ident("width"@), length_expr(x, Platform::ReactNative)),
                            (PropKeyView::Ident("height"@), length_expr(y, Platform::ReactNative)),
                        ],
                    ),
                ),
                ("BoxShadowColor"@, color_expr(color)),
                ("BoxShadowRadius"@, length_expr(blur, Platform::ReactNative)),
            ],
        ),
{
    assert(harmony_props(s) =~= seq![
        (PropKeyView::Ident("offsetX"@), length_expr(x, Platform::Harmony)),
        (PropKeyView::Ident("offsetY"@), length_expr(y, Platform::Harmony)),
        (PropKeyView::Ident("radius"@), length_expr(blur, Platform::Harmony)),
        (PropKeyView::Ident("color"@), color_expr(color)),
        (PropKeyView::Ident("fill"@), ExprView::Bool(inset)),
    ]);
}

/// A shadow without a color gives, on Harmony, an object without
/// `color`, and is invalid on React Native, which needs the color.
pub proof fn shadow_without_color(s: BoxShadowView)
    requires
        s.color is None,
    ensures
        forall|i: int|
            0 <= i < harmony_props(s).len() ==> (#[trigger] harmony_props(s)[i]).0
                != PropKeyView::Ident("color"@),
        react_native_shadow(s) == PropertyTupleView::One(s.id, ExprView::Invalid),
{
    reveal_strlit("color");
    reveal_strlit("offsetX");
    reveal_strlit("offsetY");
    reveal_strlit("radius");
    reveal_strlit("fill");
    assert("color"@.len() == 5);
    assert("offsetX"@.len() == 7);
    assert("offsetY"@.len() == 7);
    assert("radius"@.len() == 6);
    assert("fill"@.len() == 4);
    let x: Seq<(PropKeyView, ExprView)> = match s.offset_x {
        Some(l) => seq![(PropKeyView::Ident("offsetX"@), length_expr(l, Platform::Harmony))],
        None => Seq::empty(),
    };
    let y: Seq<(PropKeyView, ExprView)> = match s.offset_y {
        Some(l) => seq![(PropKeyView::Ident("offsetY"@), length_expr(l, Platform::Harmony))],
        None => Seq::empty(),
    };
    let r: Seq<(PropKeyView, ExprView)> = match s.blur_radius {
        Some(l) => seq![(PropKeyView::Ident("radius"@), length_expr(l, Platform::Harmony))],
        None => Seq::empty(),
    };
    let f: Seq<(PropKeyView, ExprView)> = match s.inset {
        Some(b) => seq![(PropKeyView::Ident("fill"@), ExprView::Bool(b))],
        None => Seq::empty(),
    };
    let props = harmony_props(s);
    assert(props =~= x + y + r + f);
    assert forall|i: int| 0 <= i < props.len() implies (#[trigger] props[i]).0
        != PropKeyView::Ident("color"@) by {
        if i < x.len() {
            assert(props[i] == x[i]);
        } else if i < x.len() + y.len() {
            assert(props[i] == y[i - x.len()]);
        } else if i < x.len() + y.len() + r.len() {
            assert(props[i] == r[i - x.len() - y.len()]);
        } else {
            assert(props[i] == f[i - x.len() - y.len() - r.len()]);
        }
    }
}

} // verus!
