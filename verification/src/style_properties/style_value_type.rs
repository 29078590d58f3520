//! The style value of a declaration, whatever its kind.

use vstd::prelude::*;
use crate::style_properties::animation::{
    animation_delay_of, animation_duration_of, animation_iteration_of, animation_name_of,
    animation_timing_of, keyframes_position, Animation, KeyFrameItem, KeyframeTable,
};
use crate::style_properties::box_shadow::{
    box_shadow_of, harmony_shadow, react_native_shadow, BoxShadow,
};
use crate::style_properties::calc::fixed_rgba;
use crate::style_properties::color::{color_of, ColorProperty};
use crate::style_properties::display::{display_expr, display_of, Display};
use crate::style_properties::length_value::{
    length_value_expr_of, length_value_of, LengthValueProperty,
};
use crate::style_properties::normal::{text_of_property, Normal};
use crate::style_properties::number_property::{number_of, NumberProperty};
use crate::style_properties::property::Property;
use crate::style_properties::size::{size_expr_of, size_of, SizeProperty};
use crate::style_properties::unit::{
    exprs_view, named_view, props_view, Expr, ExprView, Platform, Prop, PropertyTuple,
    PropertyTupleView, PropKey, PropKeyView,
};
use crate::text::{opt_text, owned};

verus! {

/// The style value of a declaration: one variant for each kind of
/// property.
#[derive(Debug, PartialEq)]
pub enum StyleValueType<'a> {
    Normal(Normal),
    NumberProperty(NumberProperty),
    ColorProperty(ColorProperty),
    LengthValueProperty(LengthValueProperty),
    SizeProperty(SizeProperty),
    Display(Display),
    BoxShadow(BoxShadow),
    Animation(Animation<'a>),
}


/// The named expressions that are not the invalid marker, in order.
pub open spec fn valid_fields(items: Seq<(Seq<char>, ExprView)>) -> Seq<(PropKeyView, ExprView)>
    decreases items.len(),
{
    if items.len() == 0 {
        Seq::empty()
    } else {
        let before = valid_fields(items.drop_last());
        if items.last().1 is Invalid {
            before
        } else {
            before.push((PropKeyView::Ident(items.last().0), items.last().1))
        }
    }
}

/// The properties that a lowered value gives to an object: one for each
/// of its named expressions that is not the invalid marker.
pub open spec fn tuple_props(t: PropertyTupleView) -> Seq<(PropKeyView, ExprView)> {
    match t {
        PropertyTupleView::One(name, e) => valid_fields(seq![(name, e)]),
        PropertyTupleView::Array(items) => valid_fields(items),
    }
}

/// What a style value is lowered to on a platform.
pub open spec fn lowered(v: StyleValueType, platform: Platform) -> PropertyTupleView
    decreases v, 0nat,
{
    match v {
        StyleValueType::Normal(x) => PropertyTupleView::One(x.id@, ExprView::Str(x.value@)),
        StyleValueType::NumberProperty(x) => PropertyTupleView::One(
            x.id@,
            ExprView::Num(x.value.micros as int),
        ),
        StyleValueType::ColorProperty(x) => PropertyTupleView::One(
            x.id@,
            ExprView::Str(
                match platform {
                    Platform::Harmony => fixed_rgba(x.value@),
                    Platform::ReactNative => x.value@,
                },
            ),
        ),
        StyleValueType::LengthValueProperty(x) => PropertyTupleView::One(
            x.id@,
            length_value_expr_of(x.value@, platform),
        ),
        StyleValueType::SizeProperty(x) => PropertyTupleView::One(
            x.id@,
            size_expr_of(x.value@, platform),
        ),
        StyleValueType::Display(x) => PropertyTupleView::One(x.id@, display_expr(x.value)),
        StyleValueType::BoxShadow(x) => match platform {
            Platform::Harmony => harmony_shadow(x@),
            Platform::ReactNative => react_native_shadow(x@),
        },
        StyleValueType::Animation(a) => animation_lowered(a, platform),
    }
}

/// What an animation is lowered to: on Harmony the fields that it has;
/// on React Native, which has no animations, the invalid marker.
pub open spec fn animation_lowered(a: Animation, platform: Platform) -> PropertyTupleView
    decreases a, 1nat,
{
    match platform {
        Platform::Harmony => PropertyTupleView::Array(animation_fields(a)),
        Platform::ReactNative => PropertyTupleView::One(a.id@, ExprView::Invalid),
    }
}

/// The keyframes that the animation names, where it has a name and the
/// table has keyframes of that name.
pub open spec fn named_keyframes<'a>(a: Animation<'a>) -> Option<Vec<KeyFrameItem<'a>>> {
    match (a.animation_name, a.keyframes) {
        (Some(name), Some(table)) => match keyframes_position(table.entries@, name@, 0) {
            Some(p) => if 0 <= p < table.entries@.len() {
                Some(table.entries@[p].1)
            } else {
                None
            },
            None => None,
        },
        _ => None,
    }
}

/// The fields of an animation on Harmony, each only where the animation
/// has the value, in this order: `animationDelay`,
/// `animationIterationCount`, `animationDuration`,
/// `animationTimeingFunction`, and `animationName`, which holds the
/// keyframes of that name and is left out where there are none.
pub open spec fn animation_fields(a: Animation) -> Seq<(Seq<char>, ExprView)>
    decreases a, 0nat,
{
    (match a.animation_delay {
        Some(n) => seq![("animationDelay"@, ExprView::Num(n.micros as int))],
        None => Seq::empty(),
    }) + (match a.animation_iteration {
        Some(n) => seq![("animationIterationCount"@, ExprView::Num(n.micros as int))],
        None => Seq::empty(),
    }) + (match a.animation_duration {
        Some(n) => seq![("animationDuration"@, ExprView::Num(n.micros as int))],
        None => Seq::empty(),
    }) + (match a.animation_timeing_function {
        Some(t) => seq![("animationTimeingFunction"@, ExprView::Str(t@))],
        None => Seq::empty(),
    }) + (match (a.animation_name, a.keyframes) {
        (Some(name), Some(table)) => match keyframes_position(table.entries@, name@, 0) {
            Some(p) => if 0 <= p < table.entries@.len() {
                seq![("animationName"@, ExprView::Array(frames_exprs(table.entries@[p].1@)))]
            } else {
                Seq::empty()
            },
            None => Seq::empty(),
        },
        _ => Seq::empty(),
    })
}

/// The objects of the keyframes, in order.
pub open spec fn frames_exprs(items: Seq<KeyFrameItem>) -> Seq<ExprView>
    decreases items, 1nat,
{
    Seq::new(
        items.len(),
        |i: int|
            if 0 <= i < items.len() {
                frame_expr(items[i])
            } else {
                ExprView::Invalid
            },
    )
}

/// The object of one keyframe: `percentage`, and `event`, an object of
/// the keyframe's declarations as they are lowered for Harmony.
pub open spec fn frame_expr(item: KeyFrameItem) -> ExprView
    decreases item, 0nat,
{
    ExprView::Object(
        seq![
            (PropKeyView::Str("percentage"@), ExprView::Num(item.percentage.micros as int)),
            (
                PropKeyView::Str("event"@),
                ExprView::Object(
                    style_props(
                        item.declarations@,
                        item.declarations@.len() as int,
                        Platform::Harmony,
                    ),
                ),
            ),
        ],
    )
}

/// The properties that the first `upto` style values give to an object,
/// lowered for the platform.
pub open spec fn style_props(values: Seq<StyleValueType>, upto: int, platform: Platform) -> Seq<
    (PropKeyView, ExprView),
>
    decreases values, upto,
{
    if 0 < upto <= values.len() {
        style_props(values, upto - 1, platform) + tuple_props(lowered(values[upto - 1], platform))
    } else {
        Seq::empty()
    }
}


/// The properties that a lowered value gives to an object.
pub fn tuple_to_props(t: PropertyTuple) -> (props: Vec<Prop>)
    ensures
        props_view(props@) == tuple_props(t@),
{
    let mut props: Vec<Prop> = Vec::new();
    match t {
        PropertyTuple::One(name, e) => {
            proof {
                reveal_with_fuel(valid_fields, 2);
                assert(seq![(name@, e@)].drop_last() =~= Seq::<(Seq<char>, ExprView)>::empty());
            }
            match e {
                Expr::Invalid => {},
                _ => {
                    props.push(Prop { key: PropKey::Ident(name), value: e });
                },
            }
            assert(props_view(props@) =~= tuple_props(t@));
        },
        PropertyTuple::Array(items) => {
            let ghost all = named_view(items@);
            for item in it: items
                invariant
                    all == named_view(it.seq()),
                    props_view(props@) == valid_fields(all.take(it.index() as int)),
            {
                let ghost shown = props_view(props@);
                let ghost k = it.index() as int;
                proof {
                    assert(all.take(k + 1).drop_last() =~= all.take(k));
                    assert(all.take(k + 1).last() == (item.0@, item.1@));
                }
                let (name, e) = item;
                match e {
                    Expr::Invalid => {},
                    _ => {
                        props.push(Prop { key: PropKey::Ident(name), value: e });
                        assert(props_view(props@) =~= shown.push(
                            (PropKeyView::Ident(name@), e@),
                        ));
                    },
                }
            }
            assert(all.take(all.len() as int) =~= all);
        },
    }
    props
}


/// The style values as the properties of an object, lowered for the
/// platform; a value that comes to the invalid marker is left out.
pub fn parse_style_values(values: &Vec<StyleValueType>, platform: Platform) -> (props: Vec<Prop>)
    ensures
        props_view(props@) == style_props(values@, values@.len() as int, platform),
    decreases values@, values@.len(),
{
    let mut props: Vec<Prop> = Vec::new();
    let mut i: usize = 0;
    assert(props_view(props@) =~= style_props(values@, 0, platform));
    while i < values.len()
        invariant
            i <= values.len(),
            props_view(props@) == style_props(values@, i as int, platform),
        decreases values.len() - i,
    {
        let ghost shown = props_view(props@);
        let more = tuple_to_props(values[i].to_expr(platform));
        let ghost added = props_view(more@);
        for prop in it: more
            invariant
                added == props_view(it.seq()),
                props_view(props@) == shown + added.take(it.index() as int),
        {
            let ghost k = it.index() as int;
            let ghost before = props_view(props@);
            props.push(prop);
            assert(props_view(props@) =~= before.push(prop@));
            assert(added.take(k + 1) =~= added.take(k).push(prop@));
        }
        assert(added.take(added.len() as int) =~= added);
        i += 1;
    }
    props
}

impl<'a> Animation<'a> {
    /// The value for the Harmony platform.
    pub fn to_expr(&self) -> (t: PropertyTuple)
        ensures
            t@ == animation_lowered(*self, Platform::Harmony),
        decreases *self, 0nat,
    {
        let mut exprs: Vec<(String, Expr)> = Vec::new();
        let ghost views: Seq<(Seq<char>, ExprView)> = Seq::empty();
        assert(named_view(exprs@) =~= views);
        if let Some(delay) = self.animation_delay {
            let ghost before = views;
            exprs.push((owned("animationDelay"), Expr::Num(delay)));
            proof {
                views = before.push(("animationDelay"@, ExprView::Num(delay.micros as int)));
                assert(named_view(exprs@) =~= views);
            }
        }
        if let Some(iteration) = self.animation_iteration {
            let ghost before = views;
            exprs.push((owned("animationIterationCount"), Expr::Num(iteration)));
            proof {
                views = before.push(
                    ("animationIterationCount"@, ExprView::Num(iteration.micros as int)),
                );
                assert(named_view(exprs@) =~= views);
            }
        }
        if let Some(duration) = self.animation_duration {
            let ghost before = views;
            exprs.push((owned("animationDuration"), Expr::Num(duration)));
            proof {
                views = before.push(("animationDuration"@, ExprView::Num(duration.micros as int)));
                assert(named_view(exprs@) =~= views);
            }
        }
        if let Some(timeing_function) = &self.animation_timeing_function {
            let ghost before = views;
            exprs.push((owned("animationTimeingFunction"), Expr::Str(timeing_function.clone())));
            proof {
                views = before.push(
                    ("animationTimeingFunction"@, ExprView::Str(timeing_function@)),
                );
                assert(named_view(exprs@) =~= views);
            }
        }
        if let Some(name) = &self.animation_name {
            if let Some(keyframes) = self.keyframes {
                if let Some(keyframe_items) = keyframes.get(name.as_str()) {
                    let mut elems: Vec<Expr> = Vec::new();
                    let mut i: usize = 0;
                    assert(exprs_view(elems@) =~= frames_exprs(keyframe_items@).take(0));
                    while i < keyframe_items.len()
                        invariant
                            i <= keyframe_items.len(),
                            decreases_to!(*self => *keyframe_items),
                            exprs_view(elems@) == frames_exprs(keyframe_items@).take(i as int),
                        decreases keyframe_items.len() - i,
                    {
                        let item = &keyframe_items[i];
                        let ghost shown = exprs_view(elems@);
                        let mut props: Vec<Prop> = Vec::new();
                        props.push(
                            Prop {
                                key: PropKey::Str(owned("percentage")),
                                value: Expr::Num(item.percentage),
                            },
                        );
                        props.push(
                            Prop {
                                key: PropKey::Str(owned("event")),
                                value: Expr::Object(
                                    parse_style_values(&item.declarations, Platform::Harmony),
                                ),
                            },
                        );
                        let frame = Expr::Object(props);
                        proof {
                            assert(props_view(props@) =~= frame_expr(*item)->Object_0);
                            assert(frame@ == frame_expr(*item));
                        }
                        elems.push(frame);
                        proof {
                            assert(exprs_view(elems@) =~= shown.push(frame_expr(*item)));
                            assert(frames_exprs(keyframe_items@).take(i + 1) =~= frames_exprs(
                                keyframe_items@,
                            ).take(i as int).push(frame_expr(*item)));
                        }
                        i += 1;
                    }
                    proof {
                        assert(frames_exprs(keyframe_items@).take(keyframe_items@.len() as int)
                            =~= frames_exprs(keyframe_items@));
                    }
                    let ghost before = views;
                    exprs.push((owned("animationName"), Expr::Array(elems)));
                    proof {
                        views = before.push(
                            ("animationName"@, ExprView::Array(frames_exprs(keyframe_items@))),
                        );
                        assert(named_view(exprs@) =~= views);
                    }
                }
            }
        }
        assert(views =~= animation_fields(*self));
        PropertyTuple::Array(exprs)
    }

    /// The value for the React Native platform, which has no animations.
    pub fn to_rn_expr(&self) -> (t: PropertyTuple)
        ensures
            t@ == animation_lowered(*self, Platform::ReactNative),
    {
        PropertyTuple::One(self.id.clone(), Expr::Invalid)
    }
}

impl<'a> StyleValueType<'a> {
    /// The value for a platform.
    pub fn to_expr(&self, platform: Platform) -> (t: PropertyTuple)
        ensures
            t@ == lowered(*self, platform),
        decreases *self, 1nat,
    {
        match self {
            StyleValueType::Normal(value) => match platform {
                Platform::ReactNative => value.to_rn_expr(),
                _ => value.to_expr(),
            },
            StyleValueType::NumberProperty(value) => match platform {
                Platform::ReactNative => value.to_rn_expr(),
                _ => value.to_expr(),
            },
            StyleValueType::ColorProperty(value) => match platform {
                Platform::ReactNative => value.to_rn_expr(),
                _ => value.to_expr(),
            },
            StyleValueType::LengthValueProperty(value) => match platform {
                Platform::ReactNative => value.to_rn_expr(),
                _ => value.to_expr(),
            },
            StyleValueType::SizeProperty(value) => match platform {
                Platform::ReactNative => value.to_rn_expr(),
                _ => value.to_expr(),
            },
            StyleValueType::Display(value) => match platform {
                Platform::ReactNative => value.to_rn_expr(),
                _ => value.to_expr(),
            },
            StyleValueType::BoxShadow(value) => match platform {
                Platform::ReactNative => value.to_rn_expr(),
                _ => value.to_expr(),
            },
            StyleValueType::Animation(value) => match platform {
                Platform::ReactNative => value.to_rn_expr(),
                _ => value.to_expr(),
            },
        }
    }
}


impl<'a> StyleValueType<'a> {
    /// The style value of a declaration, under the name `id`: the variant
    /// for the kind of the declaration, made from the declaration. An
    /// animation gets the keyframes among which its name is looked up.
    pub fn from(id: String, property: &Property, keyframes: Option<&'a KeyframeTable<'a>>) -> (v:
        StyleValueType<'a>)
        ensures
            match *property {
                Property::Display(_) => v matches StyleValueType::Display(d) && d.id == id
                    && d.value == display_of(*property),
                Property::BoxShadow(_) => v matches StyleValueType::BoxShadow(s) && s@
                    == box_shadow_of(id@, *property),
                Property::Color(_) => v matches StyleValueType::ColorProperty(c) && c.id == id
                    && c.value@ == color_of(*property),
                Property::Number(_) => v matches StyleValueType::NumberProperty(n) && n.id == id
                    && n.value == number_of(*property),
                Property::Length(_) => v matches StyleValueType::LengthValueProperty(l) && l.id
                    == id && l.value@ == length_value_of(*property),
                Property::Size(_) => v matches StyleValueType::SizeProperty(s) && s.id == id
                    && s.value@ == size_of(*property),
                Property::Other(_) => v matches StyleValueType::Normal(n) && n.id == id
                    && n.value@ == text_of_property(*property),
                _ => v matches StyleValueType::Animation(a) && a.id == id && a.keyframes
                    == keyframes && opt_text(a.animation_name) == animation_name_of(*property)
                    && a.animation_duration == animation_duration_of(*property)
                    && a.animation_delay == animation_delay_of(*property) && a.animation_iteration
                    == animation_iteration_of(*property) && opt_text(a.animation_timeing_function)
                    == animation_timing_of(*property),
            },
    {
        match property {
            Property::Display(_) => StyleValueType::Display(Display::from(id, property)),
            Property::BoxShadow(_) => StyleValueType::BoxShadow(BoxShadow::from(id, property)),
            Property::Color(_) => StyleValueType::ColorProperty(ColorProperty::from(id, property)),
            Property::Number(_) => StyleValueType::NumberProperty(
                NumberProperty::from(id, property),
            ),
            Property::Length(_) => StyleValueType::LengthValueProperty(
                LengthValueProperty::from(id, property),
            ),
            Property::Size(_) => StyleValueType::SizeProperty(SizeProperty::from(id, property)),
            Property::Other(_) => StyleValueType::Normal(Normal::from(id, property)),
            _ => StyleValueType::Animation(Animation::from(id, property, keyframes)),
        }
    }
}

} // verus!
