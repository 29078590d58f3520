use style_resolve::style_properties::animation::{
    iterations, millis, Animation, KeyFrameItem, KeyframeTable,
};
use style_resolve::style_properties::box_shadow::{generate_string_by_css_color, BoxShadow};
use style_resolve::style_properties::calc::{
    fix_rgba, generate_expr_by_length, generate_expr_by_length_percentage,
    generate_expr_by_length_percentage_or_auto, generate_expr_lit_calc, mend_rgba,
    put_zero_before_point,
    replace_unit_token, rewrite_calc, rewrite_units, splice,
};
use style_resolve::style_properties::color::{convert_color_keywords_to_hex, ColorProperty};
use style_resolve::style_properties::display::{Display, EnumValue};
use style_resolve::style_properties::length_value::LengthValueProperty;
use style_resolve::style_properties::normal::Normal;
use style_resolve::style_properties::number::Number;
use style_resolve::style_properties::number_property::NumberProperty;
use style_resolve::style_properties::property::{
    AnimationItem, AnimationIterationCount, BoxShadowItem, DimensionPercentage, DisplayInside,
    DisplayKeyword, DisplayOutside, DisplayPair, DisplayValue, LengthPercentageOrAuto, Property,
    Size, Time,
};
use style_resolve::style_properties::size::SizeProperty;
use style_resolve::style_properties::style_value_type::{
    parse_style_values, tuple_to_props, StyleValueType,
};
use style_resolve::style_properties::unit::{
    generate_expr_by_length_value, helper_name, percentage_string, Expr, Length, LengthUnit,
    LengthValue, Platform, Prop, PropKey, PropertyTuple, CONVERT_STYLE_PX_FN,
    RN_CONVERT_STYLE_PX_FN, RN_CONVERT_STYLE_VU_FN,
};

fn num(n: i32) -> Number {
    Number::from_integer(n)
}

fn st(s: &str) -> Expr {
    Expr::Str(s.to_string())
}

fn px(n: i32) -> LengthValue {
    LengthValue { value: num(n), unit: LengthUnit::Px }
}

fn call(name: &str, n: i32, unit: &str) -> Expr {
    Expr::Call(name.to_string(), vec![Expr::Num(num(n)), st(unit)])
}

fn ident(key: &str, value: Expr) -> Prop {
    Prop { key: PropKey::Ident(key.to_string()), value }
}

fn one(name: &str, e: Expr) -> PropertyTuple {
    PropertyTuple::One(name.to_string(), e)
}

fn pair(outside: DisplayOutside, inside: DisplayInside) -> Property {
    Property::Display(DisplayValue::Pair(DisplayPair { outside, inside, is_list_item: false }))
}

#[test]
fn numbers_are_written_as_decimals() {
    assert_eq!(num(0).to_text(), "0");
    assert_eq!(num(10).to_text(), "10");
    assert_eq!(num(-3).to_text(), "-3");
    assert_eq!(Number::from_micros(1_500_000).to_text(), "1.5");
    assert_eq!(Number::from_micros(-1_500_000).to_text(), "-1.5");
    assert_eq!(Number::from_micros(1).to_text(), "0.000001");
    assert_eq!(Number::from_micros(100_000).to_text(), "0.1");
    assert_eq!(Number::from_micros(-250_000).to_text(), "-0.25");
    assert_eq!(Number::from_micros(1_000_001).to_text(), "1.000001");
    assert_eq!(Number::from_micros(120_030_400).to_text(), "120.0304");
    assert_eq!(Number::from_micros(i64::MAX).to_text(), "9223372036854.775807");
    assert_eq!(Number::from_micros(i64::MIN).to_text(), "-9223372036854.775808");
    assert_eq!(num(i32::MIN).micros, -2_147_483_648_000_000);
}

#[test]
fn scaling_stops_at_the_bounds() {
    assert_eq!(num(2).scale(1000), num(2000));
    assert_eq!(Number::from_micros(-7).scale(3).micros, -21);
    assert_eq!(Number::from_micros(i64::MAX).scale(2).micros, i64::MAX);
    assert_eq!(Number::from_micros(i64::MAX).scale(-2).micros, i64::MIN);
    assert_eq!(Number::from_micros(i64::MIN).scale(i64::MIN).micros, i64::MAX);
    assert_eq!(Number::from_micros(i64::MIN).scale(1).micros, i64::MIN);
    assert_eq!(Number::from_micros(5).scale(0).micros, 0);
}

#[test]
fn percentages_are_scaled_by_a_hundred() {
    assert_eq!(percentage_string(Number::from_micros(500_000)), "50%");
    assert_eq!(percentage_string(Number::from_micros(333_300)), "33.33%");
    assert_eq!(percentage_string(num(1)), "100%");
    assert_eq!(percentage_string(num(0)), "0%");
    assert_eq!(percentage_string(Number::from_micros(-125_000)), "-12.5%");
}

#[test]
fn helpers_are_chosen_by_platform_and_unit() {
    assert_eq!(CONVERT_STYLE_PX_FN, "convertNumber2VP");
    assert_eq!(RN_CONVERT_STYLE_PX_FN, "scalePx2dp");
    assert_eq!(RN_CONVERT_STYLE_VU_FN, "scaleVu2dp");
    assert_eq!(helper_name(Platform::Harmony, "px"), "convertNumber2VP");
    assert_eq!(helper_name(Platform::Harmony, "vw"), "convertNumber2VP");
    assert_eq!(helper_name(Platform::ReactNative, "px"), "scalePx2dp");
    assert_eq!(helper_name(Platform::ReactNative, "vw"), "scaleVu2dp");
    assert_eq!(helper_name(Platform::ReactNative, "vh"), "scaleVu2dp");
}

#[test]
fn a_literal_length_becomes_a_helper_call() {
    assert_eq!(
        generate_expr_by_length_value(&px(10), Platform::Harmony),
        call("convertNumber2VP", 10, "px")
    );
    assert_eq!(
        generate_expr_by_length_value(&px(10), Platform::ReactNative),
        call("scalePx2dp", 10, "px")
    );
    let vw = LengthValue { value: num(5), unit: LengthUnit::Vw };
    assert_eq!(generate_expr_by_length_value(&vw, Platform::Harmony), call("convertNumber2VP", 5, "vw"));
    assert_eq!(generate_expr_by_length_value(&vw, Platform::ReactNative), call("scaleVu2dp", 5, "vw"));
    let vh = LengthValue { value: num(5), unit: LengthUnit::Vh };
    assert_eq!(generate_expr_by_length_value(&vh, Platform::ReactNative), call("scaleVu2dp", 5, "vh"));
    let em = LengthValue { value: num(2), unit: LengthUnit::Other };
    assert_eq!(generate_expr_by_length_value(&em, Platform::Harmony), Expr::Invalid);
    assert_eq!(generate_expr_by_length_value(&em, Platform::ReactNative), Expr::Invalid);
}

#[test]
fn calc_is_rewritten_and_not_computed() {
    assert_eq!(
        rewrite_calc("calc(10px + 5vw)", Platform::Harmony),
        "calc(${convertNumber2VP(10, 'px')} + ${convertNumber2VP(5, 'vw')})"
    );
    assert_eq!(
        rewrite_calc("calc(10px + 5vw)", Platform::ReactNative),
        "calc(${scalePx2dp(10, 'px')} + ${scaleVu2dp(5, 'vw')})"
    );
    assert_eq!(
        generate_expr_lit_calc("calc(100% - 20vh)", Platform::ReactNative),
        Expr::Tpl("calc(100% - ${scaleVu2dp(20, 'vh')})".to_string())
    );
    match generate_expr_by_length(&Length::Calc("calc(10px + 5vw)".into()), Platform::Harmony) {
        Expr::Tpl(text) => {
            assert_eq!(text.matches("convertNumber2VP(").count(), 2);
            assert!(text.contains(" + "));
            assert!(!text.contains("15"));
        }
        other => panic!("lowered to {:?}", other),
    }
}

#[test]
fn calc_tokens_are_numbers_without_fraction() {
    assert_eq!(rewrite_calc("auto", Platform::Harmony), "auto");
    assert_eq!(rewrite_calc("", Platform::Harmony), "");
    assert_eq!(rewrite_calc("10px", Platform::ReactNative), "${scalePx2dp(10, 'px')}");
    assert_eq!(rewrite_calc("10px10px", Platform::ReactNative), "${scalePx2dp(10, 'px')}${scalePx2dp(10, 'px')}");
    assert_eq!(rewrite_calc("10.5px", Platform::Harmony), "10.${convertNumber2VP(5, 'px')}");
    assert_eq!(rewrite_calc("007px", Platform::Harmony), "${convertNumber2VP(7, 'px')}");
    assert_eq!(rewrite_calc("000vh", Platform::Harmony), "${convertNumber2VP(0, 'vh')}");
    assert_eq!(rewrite_calc("2em + 3rem", Platform::Harmony), "2em + 3rem");
    assert_eq!(
        rewrite_calc("99999999999px", Platform::Harmony),
        "${convertNumber2VP(99999999999, 'px')}"
    );
    assert_eq!(rewrite_calc("größe 1px", Platform::Harmony), "größe ${convertNumber2VP(1, 'px')}");
}

#[test]
fn tokens_and_pieces_are_put_together() {
    let pieces = vec!["a ".to_string(), " b ".to_string(), "".to_string()];
    assert_eq!(
        splice(&pieces, &vec!["X".to_string(), "Y".to_string()]),
        Some("a X b Y".to_string())
    );
    assert_eq!(splice(&vec!["only".to_string()], &vec![]), Some("only".to_string()));
    assert_eq!(splice(&pieces, &vec!["X".to_string()]), None);
    assert_eq!(splice(&vec![], &vec![]), None);
    assert_eq!(
        rewrite_units(&pieces, &vec!["1px".to_string(), "2vw".to_string()], Platform::ReactNative),
        Some("a ${scalePx2dp(1, 'px')} b ${scaleVu2dp(2, 'vw')}".to_string())
    );
    assert_eq!(rewrite_units(&pieces, &vec![], Platform::ReactNative), None);
    assert_eq!(
        mend_rgba(&vec!["".to_string(), "".to_string()], &vec!["rgba(0, 0, 0, .1)".to_string()]),
        Some("rgba(0, 0, 0, 0.1)".to_string())
    );
    assert_eq!(mend_rgba(&vec![], &vec!["x".to_string()]), None);
    assert_eq!(replace_unit_token("12vh", Platform::Harmony), "${convertNumber2VP(12, 'vh')}");
    assert_eq!(replace_unit_token("x", Platform::Harmony), "x");
}

#[test]
fn rgba_alpha_gets_its_zero() {
    assert_eq!(fix_rgba("rgba(255, 0, 0, .5)".to_string()), "rgba(255, 0, 0, 0.5)");
    assert_eq!(fix_rgba("rgba(255,0,0,.25)".to_string()), "rgba(255,0,0,0.25)");
    assert_eq!(fix_rgba("rgba(1, 2, 3, 0.5)".to_string()), "rgba(1, 2, 3, 0.5)");
    assert_eq!(fix_rgba("#ff0000".to_string()), "#ff0000");
    assert_eq!(
        fix_rgba("rgba(1, 2, 3, .5) rgba(4, 5, 6, .75)".to_string()),
        "rgba(1, 2, 3, 0.5) rgba(4, 5, 6, 0.75)"
    );
    assert_eq!(put_zero_before_point("a.b.c"), "a0.b.c");
    assert_eq!(put_zero_before_point("abc"), "abc");
}

#[test]
fn color_keywords_become_hex() {
    assert_eq!(convert_color_keywords_to_hex("red".to_string()), "#ff0000");
    assert_eq!(convert_color_keywords_to_hex("navy".to_string()), "#000080");
    assert_eq!(convert_color_keywords_to_hex("ivory".to_string()), "#fffff0");
    assert_eq!(convert_color_keywords_to_hex("#abc".to_string()), "#abc");
    assert_eq!(convert_color_keywords_to_hex("Red".to_string()), "Red");
    assert_eq!(convert_color_keywords_to_hex("".to_string()), "");
    assert_eq!(generate_string_by_css_color(&"tan".to_string()), st("#d2b48c"));
}

#[test]
fn color_property_lowers_to_a_string() {
    let red = ColorProperty::from("color".to_string(), &Property::Color("red".to_string()));
    assert_eq!(red.value, "#ff0000");
    assert_eq!(red.to_expr(), one("color", st("#ff0000")));
    assert_eq!(red.to_rn_expr(), one("color", st("#ff0000")));
    let faint = ColorProperty::from(
        "backgroundColor".to_string(),
        &Property::Color("rgba(0, 0, 0, .5)".to_string()),
    );
    assert_eq!(faint.to_expr(), one("backgroundColor", st("rgba(0, 0, 0, 0.5)")));
    assert_eq!(faint.to_rn_expr(), one("backgroundColor", st("rgba(0, 0, 0, .5)")));
    let other = ColorProperty::from("color".to_string(), &Property::Number(num(1)));
    assert_eq!(other.value, "");
}

#[test]
fn display_none_is_none_on_both_platforms() {
    let d = Display::from(
        "display".to_string(),
        &Property::Display(DisplayValue::Keyword(DisplayKeyword::NoneKeyword)),
    );
    assert_eq!(d.value, EnumValue::NoneValue);
    assert_eq!(d.to_expr(), one("display", st("none")));
    assert_eq!(d.to_rn_expr(), one("display", st("none")));
}

#[test]
fn display_flex_is_flex_on_both_platforms() {
    for outside in [DisplayOutside::Block, DisplayOutside::Inline, DisplayOutside::RunIn] {
        let d = Display::from("display".to_string(), &pair(outside, DisplayInside::Flex));
        assert_eq!(d.value, EnumValue::Flex);
        assert_eq!(d.to_expr(), one("display", st("flex")));
        assert_eq!(d.to_rn_expr(), one("display", st("flex")));
    }
}

#[test]
fn display_block_is_block_on_both_platforms() {
    for inside in [DisplayInside::Flow, DisplayInside::FlowRoot, DisplayInside::Grid] {
        let d = Display::from("display".to_string(), &pair(DisplayOutside::Block, inside));
        assert_eq!(d.value, EnumValue::Block);
        assert_eq!(d.to_expr(), one("display", st("block")));
        assert_eq!(d.to_rn_expr(), one("display", st("block")));
    }
}

#[test]
fn display_inline_is_invalid_on_both_platforms() {
    let d = Display::from("display".to_string(), &pair(DisplayOutside::Inline, DisplayInside::Flow));
    assert_eq!(d.value, EnumValue::Invalid);
    assert_eq!(d.to_expr(), one("display", Expr::Invalid));
    assert_eq!(d.to_rn_expr(), one("display", Expr::Invalid));
    let k = Display::from(
        "display".to_string(),
        &Property::Display(DisplayValue::Keyword(DisplayKeyword::Contents)),
    );
    assert_eq!(k.value, EnumValue::Invalid);
    let other = Display::from("display".to_string(), &Property::Other("x".into()));
    assert_eq!(other.value, EnumValue::Invalid);
}

#[test]
fn length_properties_lower_by_kind() {
    let dim = |d: DimensionPercentage| Property::Length(LengthPercentageOrAuto::LengthPercentage(d));
    let width = LengthValueProperty::from("width".into(), &dim(DimensionPercentage::Dimension(px(10))));
    assert_eq!(width.to_expr(), one("width", call("convertNumber2VP", 10, "px")));
    assert_eq!(width.to_rn_expr(), one("width", call("scalePx2dp", 10, "px")));
    let half = LengthValueProperty::from(
        "width".into(),
        &dim(DimensionPercentage::Percentage(Number::from_micros(500_000))),
    );
    assert_eq!(half.to_expr(), one("width", st("50%")));
    assert_eq!(half.to_rn_expr(), one("width", st("50%")));
    let calc = LengthValueProperty::from(
        "width".into(),
        &dim(DimensionPercentage::Calc("calc(10px + 5vw)".into())),
    );
    assert_eq!(
        calc.to_rn_expr(),
        one("width", Expr::Tpl("calc(${scalePx2dp(10, 'px')} + ${scaleVu2dp(5, 'vw')})".into()))
    );
    let auto = LengthValueProperty::from("width".into(), &Property::Length(LengthPercentageOrAuto::Auto));
    assert_eq!(auto.to_expr(), one("width", Expr::Invalid));
    assert_eq!(auto.to_rn_expr(), one("width", st("auto")));
    let other = LengthValueProperty::from("width".into(), &Property::Number(num(1)));
    assert_eq!(other.to_expr(), one("width", Expr::Tpl("auto".into())));
    assert_eq!(other.to_rn_expr(), one("width", Expr::Tpl("auto".into())));
}

#[test]
fn size_properties_lower_by_kind() {
    let size = SizeProperty::from(
        "height".into(),
        &Property::Size(Size::LengthPercentage(DimensionPercentage::Dimension(px(3)))),
    );
    assert_eq!(size.to_expr(), one("height", call("convertNumber2VP", 3, "px")));
    assert_eq!(size.to_rn_expr(), one("height", call("scalePx2dp", 3, "px")));
    let pct = SizeProperty::from(
        "height".into(),
        &Property::Size(Size::LengthPercentage(DimensionPercentage::Percentage(num(1)))),
    );
    assert_eq!(pct.to_expr(), one("height", st("100%")));
    let calc = SizeProperty::from(
        "height".into(),
        &Property::Size(Size::LengthPercentage(DimensionPercentage::Calc("calc(1px)".into()))),
    );
    assert_eq!(calc.to_expr(), one("height", Expr::Tpl("calc(${convertNumber2VP(1, 'px')})".into())));
    let keyword = SizeProperty::from("height".into(), &Property::Size(Size::Other));
    assert_eq!(keyword.to_expr(), one("height", Expr::Invalid));
    assert_eq!(keyword.to_rn_expr(), one("height", st("auto")));
    let other = SizeProperty::from("height".into(), &Property::Other("x".into()));
    assert_eq!(other.to_expr(), one("height", Expr::Tpl("auto".into())));
}

#[test]
fn lengths_and_percentages_lower_alike_everywhere() {
    assert_eq!(
        generate_expr_by_length(&Length::Value(px(4)), Platform::ReactNative),
        call("scalePx2dp", 4, "px")
    );
    assert_eq!(
        generate_expr_by_length_percentage(&DimensionPercentage::Percentage(num(2)), Platform::Harmony),
        st("200%")
    );
    assert_eq!(
        generate_expr_by_length_percentage_or_auto(&LengthPercentageOrAuto::Auto, Platform::Harmony),
        st("auto")
    );
    assert_eq!(
        generate_expr_by_length_percentage_or_auto(
            &LengthPercentageOrAuto::LengthPercentage(DimensionPercentage::Dimension(px(1))),
            Platform::Harmony
        ),
        call("convertNumber2VP", 1, "px")
    );
}

#[test]
fn number_and_text_properties_lower_as_they_are() {
    let n = NumberProperty::from("flexGrow".into(), &Property::Number(Number::from_micros(1_500_000)));
    assert_eq!(n.to_expr(), one("flexGrow", Expr::Num(Number::from_micros(1_500_000))));
    assert_eq!(n.to_rn_expr(), one("flexGrow", Expr::Num(Number::from_micros(1_500_000))));
    assert_eq!(NumberProperty::from("flexGrow".into(), &Property::Other("x".into())).value, num(0));
    assert_eq!(NumberProperty::from_value("opacity".into(), num(1)).value, num(1));
    let t = Normal::from("position".into(), &Property::Other("absolute".into()));
    assert_eq!(t.to_expr(), one("position", st("absolute")));
    assert_eq!(t.to_rn_expr(), one("position", st("absolute")));
    assert_eq!(Normal::from("position".into(), &Property::Number(num(1))).value, "");
    assert_eq!(Normal::new("a".into(), "b".into()).to_expr(), one("a", st("b")));
}

fn shadow_item(color: &str, inset: bool) -> BoxShadowItem {
    BoxShadowItem {
        color: color.to_string(),
        x_offset: Length::Value(px(1)),
        y_offset: Length::Value(px(2)),
        blur: Length::Value(px(3)),
        spread: Length::Value(px(4)),
        inset,
    }
}

#[test]
fn full_box_shadow_gives_the_named_fields() {
    let shadow = BoxShadow::from(
        "boxShadow".into(),
        &Property::BoxShadow(vec![shadow_item("blue", true), shadow_item("red", false)]),
    );
    assert_eq!(shadow.color, Some("red".to_string()));
    assert_eq!(shadow.inset, Some(false));
    assert_eq!(
        shadow.to_expr(),
        one(
            "boxShadow",
            Expr::Object(vec![
                ident("offsetX", call("convertNumber2VP", 1, "px")),
                ident("offsetY", call("convertNumber2VP", 2, "px")),
                ident("radius", call("convertNumber2VP", 3, "px")),
                ident("color", st("#ff0000")),
                ident("fill", Expr::Bool(false)),
            ])
        )
    );
    assert_eq!(
        shadow.to_rn_expr(),
        PropertyTuple::Array(vec![
            (
                "BoxShadowOffset".to_string(),
                Expr::Object(vec![
                    ident("width", call("scalePx2dp", 1, "px")),
                    ident("height", call("scalePx2dp", 2, "px")),
                ])
            ),
            ("BoxShadowColor".to_string(), st("#ff0000")),
            ("BoxShadowRadius".to_string(), call("scalePx2dp", 3, "px")),
        ])
    );
}

#[test]
fn box_shadow_without_color_omits_it_or_is_invalid() {
    let mut shadow = BoxShadow::new("boxShadow".into());
    shadow.set_offset_x(Length::Value(px(1)));
    shadow.set_offset_y(Length::Calc("calc(1px + 1vw)".into()));
    shadow.set_blur_radius(Length::Value(px(3)));
    shadow.set_inset(true);
    assert_eq!(
        shadow.to_expr(),
        one(
            "boxShadow",
            Expr::Object(vec![
                ident("offsetX", call("convertNumber2VP", 1, "px")),
                ident(
                    "offsetY",
                    Expr::Tpl("calc(${convertNumber2VP(1, 'px')} + ${convertNumber2VP(1, 'vw')})".into())
                ),
                ident("radius", call("convertNumber2VP", 3, "px")),
                ident("fill", Expr::Bool(true)),
            ])
        )
    );
    assert_eq!(shadow.to_rn_expr(), one("boxShadow", Expr::Invalid));
    shadow.set_color("rgba(0, 0, 0, .5)".into());
    assert!(matches!(shadow.to_rn_expr(), PropertyTuple::Array(fields) if fields.len() == 3
        && fields[1] == ("BoxShadowColor".to_string(), st("rgba(0, 0, 0, .5)"))));
}

#[test]
fn box_shadow_of_nothing_is_empty() {
    let none = BoxShadow::from("boxShadow".into(), &Property::BoxShadow(vec![]));
    assert_eq!(none, BoxShadow::new("boxShadow".into()));
    assert_eq!(none.to_expr(), one("boxShadow", Expr::Object(vec![])));
    assert_eq!(none.to_rn_expr(), one("boxShadow", Expr::Invalid));
    let other = BoxShadow::from("x".into(), &Property::Number(num(1)));
    assert_eq!(other, BoxShadow::new("x".into()));
}

#[test]
fn times_become_milliseconds() {
    assert_eq!(millis(&Time::Seconds(num(2))), num(2000));
    assert_eq!(millis(&Time::Seconds(Number::from_micros(500_000))), num(500));
    assert_eq!(millis(&Time::Milliseconds(num(500))), num(30000));
    assert_eq!(millis(&Time::Seconds(Number::from_micros(i64::MAX))).micros, i64::MAX);
    assert_eq!(iterations(&AnimationIterationCount::Infinite), num(-1));
    assert_eq!(iterations(&AnimationIterationCount::Number(num(3))), num(3));
}

#[test]
fn animation_duration_of_two_seconds_is_two_thousand() {
    let a = Animation::from(
        "animationDuration".into(),
        &Property::AnimationDuration(vec![Time::Seconds(num(2)), Time::Seconds(num(9))]),
        None,
    );
    assert_eq!(a.animation_duration, Some(num(2000)));
    assert_eq!(
        a.to_expr(),
        PropertyTuple::Array(vec![("animationDuration".to_string(), Expr::Num(num(2000)))])
    );
    assert_eq!(a.to_rn_expr(), one("animationDuration", Expr::Invalid));
}

fn shorthand(name: &str) -> Property {
    Property::Animation(vec![
        AnimationItem {
            name: "first".into(),
            duration: Time::Seconds(num(9)),
            delay: Time::Seconds(num(9)),
            iteration_count: AnimationIterationCount::Number(num(9)),
            timing_function: "linear".into(),
        },
        AnimationItem {
            name: name.into(),
            duration: Time::Seconds(num(2)),
            delay: Time::Milliseconds(num(100)),
            iteration_count: AnimationIterationCount::Infinite,
            timing_function: "ease-in-out".into(),
        },
    ])
}

#[test]
fn animation_without_keyframes_of_its_name_has_no_name_field() {
    let mut table = KeyframeTable::new();
    table.insert("other".into(), vec![]);
    for keyframes in [None, Some(&table)] {
        let a = Animation::from("animation".into(), &shorthand("fade"), keyframes);
        assert_eq!(a.animation_name, Some("fade".to_string()));
        assert_eq!(
            a.to_expr(),
            PropertyTuple::Array(vec![
                ("animationDelay".to_string(), Expr::Num(num(6000))),
                ("animationIterationCount".to_string(), Expr::Num(num(-1))),
                ("animationDuration".to_string(), Expr::Num(num(2000))),
                ("animationTimeingFunction".to_string(), st("ease-in-out")),
            ])
        );
        assert_eq!(a.to_rn_expr(), one("animation", Expr::Invalid));
    }
}

#[test]
fn animation_name_gives_its_keyframes() {
    let mut table = KeyframeTable::new();
    table.insert("fade".into(), vec![]);
    table.insert(
        "fade".into(),
        vec![
            KeyFrameItem {
                percentage: num(0),
                declarations: vec![
                    StyleValueType::from("opacity".into(), &Property::Number(num(0)), None),
                    StyleValueType::from(
                        "width".into(),
                        &Property::Length(LengthPercentageOrAuto::Auto),
                        None,
                    ),
                ],
            },
            KeyFrameItem {
                percentage: num(1),
                declarations: vec![
                    StyleValueType::from("opacity".into(), &Property::Number(num(1)), None),
                    StyleValueType::from(
                        "boxShadow".into(),
                        &Property::BoxShadow(vec![shadow_item("red", true)]),
                        None,
                    ),
                ],
            },
        ],
    );
    assert_eq!(table.entries.len(), 1);
    assert_eq!(table.position("fade"), Some(0));
    assert_eq!(table.position("none"), None);
    assert!(table.get("none").is_none());
    assert_eq!(table.get("fade").unwrap().len(), 2);
    let a = Animation::from("animationName".into(), &Property::AnimationName("fade".into()), Some(&table));
    let frame = |p: i32, event: Vec<Prop>| {
        Expr::Object(vec![
            Prop { key: PropKey::Str("percentage".into()), value: Expr::Num(num(p)) },
            Prop { key: PropKey::Str("event".into()), value: Expr::Object(event) },
        ])
    };
    assert_eq!(
        a.to_expr(),
        PropertyTuple::Array(vec![(
            "animationName".to_string(),
            Expr::Array(vec![
                frame(0, vec![ident("opacity", Expr::Num(num(0)))]),
                frame(
                    1,
                    vec![
                        ident("opacity", Expr::Num(num(1))),
                        ident(
                            "boxShadow",
                            Expr::Object(vec![
                                ident("offsetX", call("convertNumber2VP", 1, "px")),
                                ident("offsetY", call("convertNumber2VP", 2, "px")),
                                ident("radius", call("convertNumber2VP", 3, "px")),
                                ident("color", st("#ff0000")),
                                ident("fill", Expr::Bool(true)),
                            ])
                        ),
                    ]
                ),
            ])
        )])
    );
}

#[test]
fn single_animation_properties_take_the_first_value() {
    let delay = Animation::from(
        "animationDelay".into(),
        &Property::AnimationDelay(vec![Time::Milliseconds(num(10)), Time::Seconds(num(1))]),
        None,
    );
    assert_eq!(delay.animation_delay, Some(num(600)));
    assert_eq!(delay.animation_duration, None);
    let count = Animation::from(
        "animationIterationCount".into(),
        &Property::AnimationIterationCount(vec![AnimationIterationCount::Number(num(3))]),
        None,
    );
    assert_eq!(count.animation_iteration, Some(num(3)));
    let timing = Animation::from(
        "animationTimingFunction".into(),
        &Property::AnimationTimingFunction(vec!["ease".into(), "linear".into()]),
        None,
    );
    assert_eq!(timing.animation_timeing_function, Some("ease".to_string()));
    let empty = Animation::from("animationDelay".into(), &Property::AnimationDelay(vec![]), None);
    assert_eq!(empty.animation_delay, None);
    assert_eq!(empty.to_expr(), PropertyTuple::Array(vec![]));
    let nothing = Animation::from("animation".into(), &Property::Animation(vec![]), None);
    assert_eq!(nothing.animation_name, None);
    let other = Animation::from("animation".into(), &Property::Other("x".into()), None);
    assert_eq!(other.to_expr(), PropertyTuple::Array(vec![]));
}

#[test]
fn style_values_pick_their_variant_and_platform() {
    let display = StyleValueType::from(
        "display".into(),
        &pair(DisplayOutside::Block, DisplayInside::Flex),
        None,
    );
    assert!(matches!(display, StyleValueType::Display(_)));
    assert_eq!(display.to_expr(Platform::Harmony), one("display", st("flex")));
    assert_eq!(display.to_expr(Platform::ReactNative), one("display", st("flex")));
    let color = StyleValueType::from("color".into(), &Property::Color("rgba(1, 2, 3, .5)".into()), None);
    assert_eq!(color.to_expr(Platform::Harmony), one("color", st("rgba(1, 2, 3, 0.5)")));
    assert_eq!(color.to_expr(Platform::ReactNative), one("color", st("rgba(1, 2, 3, .5)")));
    let width = StyleValueType::from("width".into(), &Property::Length(LengthPercentageOrAuto::Auto), None);
    assert_eq!(width.to_expr(Platform::Harmony), one("width", Expr::Invalid));
    assert_eq!(width.to_expr(Platform::ReactNative), one("width", st("auto")));
    let size = StyleValueType::from("height".into(), &Property::Size(Size::Other), None);
    assert!(matches!(size, StyleValueType::SizeProperty(_)));
    assert_eq!(size.to_expr(Platform::Harmony), one("height", Expr::Invalid));
    assert_eq!(size.to_expr(Platform::ReactNative), one("height", st("auto")));
    let number = StyleValueType::from("flex".into(), &Property::Number(num(1)), None);
    assert_eq!(number.to_expr(Platform::ReactNative), one("flex", Expr::Num(num(1))));
    let text = StyleValueType::from("position".into(), &Property::Other("fixed".into()), None);
    assert_eq!(text.to_expr(Platform::Harmony), one("position", st("fixed")));
    let shadow = StyleValueType::from("boxShadow".into(), &Property::BoxShadow(vec![]), None);
    assert_eq!(shadow.to_expr(Platform::ReactNative), one("boxShadow", Expr::Invalid));
    assert_eq!(shadow.to_expr(Platform::Harmony), one("boxShadow", Expr::Object(vec![])));
    let animation = StyleValueType::from(
        "animationDuration".into(),
        &Property::AnimationDuration(vec![Time::Seconds(num(2))]),
        None,
    );
    assert_eq!(animation.to_expr(Platform::ReactNative), one("animationDuration", Expr::Invalid));
    assert_eq!(
        animation.to_expr(Platform::Harmony),
        PropertyTuple::Array(vec![("animationDuration".to_string(), Expr::Num(num(2000)))])
    );
}

#[test]
fn invalid_values_give_no_property() {
    assert_eq!(tuple_to_props(one("a", Expr::Invalid)), vec![]);
    assert_eq!(tuple_to_props(one("a", st("b"))), vec![ident("a", st("b"))]);
    assert_eq!(
        tuple_to_props(PropertyTuple::Array(vec![
            ("a".to_string(), st("1")),
            ("b".to_string(), Expr::Invalid),
            ("c".to_string(), Expr::Bool(true)),
        ])),
        vec![ident("a", st("1")), ident("c", Expr::Bool(true))]
    );
    let values = vec![
        StyleValueType::from("width".into(), &Property::Length(LengthPercentageOrAuto::Auto), None),
        StyleValueType::from("flex".into(), &Property::Number(num(1)), None),
        StyleValueType::from(
            "animation".into(),
            &Property::AnimationDuration(vec![Time::Seconds(num(1))]),
            None,
        ),
    ];
    assert_eq!(
        parse_style_values(&values, Platform::Harmony),
        vec![ident("flex", Expr::Num(num(1))), ident("animationDuration", Expr::Num(num(1000)))]
    );
    assert_eq!(
        parse_style_values(&values, Platform::ReactNative),
        vec![ident("width", st("auto")), ident("flex", Expr::Num(num(1)))]
    );
}
