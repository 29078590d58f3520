//! Rewriting tokens of a CSS text: the lengths of a `calc()` expression,
//! and the alpha values of `rgba()` colors.

use vstd::prelude::*;
use crate::style_properties::property::{DimensionPercentage, LengthPercentageOrAuto};
use crate::style_properties::unit::{
    generate_expr_by_length_value, helper_name, helper_text, length_value_expr, percentage_string,
    percentage_text, Expr, ExprView, Length, LengthView, Platform,
};
use crate::text::{chars_of, opt_text, owned, push_char, push_text, slice_text, texts};

verus! {

/// A number without a fraction, followed by `px`, `vw` or `vh`.
pub const UNIT_TOKEN: &'static str = "\\d+(?:px|vw|vh)";

/// An `rgba()` color whose alpha value starts with its point.
pub const RGBA_TOKEN: &'static str = "rgba\\(\\d+,\\s*\\d+,\\s*\\d+,\\s*\\.\\d+\\)";

/// The matches of the pattern in the text, first to last and not
/// overlapping, as `regex::Regex::find_iter` yields them; `None` where
/// `regex::Regex::new` does not take the pattern.
pub uninterp spec fn regex_matches(pattern: Seq<char>, text: Seq<char>) -> Option<Seq<Seq<char>>>;

/// The parts of the text that the matches of the pattern leave, first to
/// last, as `regex::Regex::split` yields them; `None` where
/// `regex::Regex::new` does not take the pattern.
pub uninterp spec fn regex_pieces(pattern: Seq<char>, text: Seq<char>) -> Option<Seq<Seq<char>>>;

/// The texts of strings that may be absent.
pub open spec fn opt_texts(v: Option<Vec<String>>) -> Option<Seq<Seq<char>>> {
    match v {
        Some(v) => Some(texts(v@)),
        None => None,
    }
}

/// `regex::Regex::find_iter` with the pattern compiled by
/// `regex::Regex::new`: the text of every match.
#[verifier::external_body]
fn find_all(pattern: &str, text: &str) -> (r: Option<Vec<String>>)
    ensures
        opt_texts(r) == regex_matches(pattern@, text@),
{
    match regex::Regex::new(pattern) {
        Ok(re) => Some(re.find_iter(text).map(|m| m.as_str().to_owned()).collect()),
        Err(_) => None,
    }
}

/// `regex::Regex::split` with the pattern compiled by `regex::Regex::new`:
/// the text of every part.
#[verifier::external_body]
fn split_all(pattern: &str, text: &str) -> (r: Option<Vec<String>>)
    ensures
        opt_texts(r) == regex_pieces(pattern@, text@),
{
    match regex::Regex::new(pattern) {
        Ok(re) => Some(re.split(text).map(|s| s.to_owned()).collect()),
        Err(_) => None,
    }
}

/// The first `upto` pieces, each followed by the replacement of the same
/// place.
pub open spec fn interleaved(
    pieces: Seq<Seq<char>>,
    replacements: Seq<Seq<char>>,
    upto: int,
) -> Seq<char>
    decreases upto,
{
    if 0 < upto <= pieces.len() && upto <= replacements.len() {
        interleaved(pieces, replacements, upto - 1) + pieces[upto - 1] + replacements[upto - 1]
    } else {
        Seq::empty()
    }
}

/// The text put together again: the pieces in order, with a replacement
/// between each two of them; nothing where there is not exactly one
/// piece more than there are replacements.
pub open spec fn spliced(
    pieces: Seq<Seq<char>>,
    replacements: Seq<Seq<char>>,
) -> Option<Seq<char>> {
    if pieces.len() == replacements.len() + 1 {
        Some(interleaved(pieces, replacements, replacements.len() as int) + pieces.last())
    } else {
        None
    }
}

/// Puts a text together from its pieces and what goes between them.
pub fn splice(pieces: &Vec<String>, replacements: &Vec<String>) -> (s: Option<String>)
    ensures
        opt_text(s) == spliced(texts(pieces@), texts(replacements@)),
{
    if pieces.len() == 0 || pieces.len() - 1 != replacements.len() {
        return None;
    }
    let mut s = String::new();
    let mut i: usize = 0;
    while i < replacements.len()
        invariant
            i <= replacements.len(),
            pieces.len() == replacements.len() + 1,
            s@ == interleaved(texts(pieces@), texts(replacements@), i as int),
        decreases replacements.len() - i,
    {
        push_text(&mut s, pieces[i].as_str());
        push_text(&mut s, replacements[i].as_str());
        i += 1;
    }
    push_text(&mut s, pieces[i].as_str());
    assert(texts(pieces@).last() == pieces@[i as int]@);
    Some(s)
}

/// The digits without the zeros that lead them, the last digit kept.
pub open spec fn without_leading_zeros(digits: Seq<char>) -> Seq<char>
    decreases digits.len(),
{
    if digits.len() > 1 && digits[0] == '0' {
        without_leading_zeros(digits.skip(1))
    } else {
        digits
    }
}

/// What a length token becomes: the call of the helper for its unit,
/// in the braces of an interpolation, with the number, leading zeros
/// dropped, and the name of the unit. The unit is the last two characters
/// of the token.
pub open spec fn unit_call(token: Seq<char>, platform: Platform) -> Seq<char> {
    if token.len() < 2 {
        token
    } else {
        let unit = token.skip(token.len() - 2);
        let digits = token.take(token.len() - 2);
        "${"@ + helper_text(platform, unit) + "("@ + without_leading_zeros(digits) + ", '"@ + unit
            + "')}"@
    }
}

/// What a length token becomes.
pub fn replace_unit_token(token: &str, platform: Platform) -> (s: String)
    ensures
        s@ == unit_call(token@, platform),
{
    let v = chars_of(token);
    if v.len() < 2 {
        return slice_text(&v, 0, v.len());
    }
    let split = v.len() - 2;
    let unit = slice_text(&v, split, v.len());
    let mut start: usize = 0;
    while start + 1 < split && v[start] == '0'
        invariant
            start <= split,
            split == v.len() - 2,
            without_leading_zeros(v@.take(split as int)) == without_leading_zeros(
                v@.subrange(start as int, split as int),
            ),
        decreases split - start,
    {
        assert(v@.subrange(start as int, split as int).skip(1) == v@.subrange(
            start + 1,
            split as int,
        ));
        start += 1;
    }
    let digits = slice_text(&v, start, split);
    let mut s = String::new();
    push_text(&mut s, "${");
    push_text(&mut s, helper_name(platform, unit.as_str()).as_str());
    push_text(&mut s, "(");
    push_text(&mut s, digits.as_str());
    push_text(&mut s, ", '");
    push_text(&mut s, unit.as_str());
    push_text(&mut s, "')}");
    s
}

/// The replacements of length tokens, in order.
pub open spec fn unit_calls(tokens: Seq<Seq<char>>, platform: Platform) -> Seq<Seq<char>> {
    tokens.map_values(|t: Seq<char>| unit_call(t, platform))
}

/// A `calc()` text with its length tokens rewritten, given the tokens and
/// the parts of the text between them; nothing where the two do not fit
/// together.
pub fn rewrite_units(pieces: &Vec<String>, tokens: &Vec<String>, platform: Platform) -> (s: Option<
    String,
>)
    ensures
        opt_text(s) == spliced(texts(pieces@), unit_calls(texts(tokens@), platform)),
{
    let mut replacements: Vec<String> = Vec::new();
    let mut i: usize = 0;
    while i < tokens.len()
        invariant
            i <= tokens.len(),
            replacements.len() == i,
            forall|k: int|
                0 <= k < i ==> (#[trigger] replacements@[k])@ == unit_call(tokens@[k]@, platform),
        decreases tokens.len() - i,
    {
        replacements.push(replace_unit_token(tokens[i].as_str(), platform));
        i += 1;
    }
    assert(texts(replacements@) =~= unit_calls(texts(tokens@), platform));
    splice(pieces, &replacements)
}

/// The text of a `calc()` expression for a platform: every number
/// without a fraction that is followed by `px`, `vw` or `vh` becomes the
/// call of a helper; the rest of the text stays as it is, and nothing is
/// computed. The text stays whole where the tokens and the parts between
/// them do not fit together.
pub open spec fn rewritten_calc(text: Seq<char>, platform: Platform) -> Seq<char> {
    match (regex_pieces(UNIT_TOKEN@, text), regex_matches(UNIT_TOKEN@, text)) {
        (Some(pieces), Some(tokens)) => match spliced(pieces, unit_calls(tokens, platform)) {
            Some(rewritten) => rewritten,
            None => text,
        },
        _ => text,
    }
}

/// Rewrites the length tokens of a `calc()` text.
pub fn rewrite_calc(text: &str, platform: Platform) -> (s: String)
    ensures
        s@ == rewritten_calc(text@, platform),
{
    match (split_all(UNIT_TOKEN, text), find_all(UNIT_TOKEN, text)) {
        (Some(pieces), Some(tokens)) => match rewrite_units(&pieces, &tokens, platform) {
            Some(rewritten) => rewritten,
            None => owned(text),
        },
        _ => owned(text),
    }
}

/// The expression that a `calc()` text is lowered to: a template literal
/// that holds the rewritten text.
pub fn generate_expr_lit_calc(text: &str, platform: Platform) -> (e: Expr)
    ensures
        e@ == ExprView::Tpl(rewritten_calc(text@, platform)),
{
    Expr::Tpl(rewrite_calc(text, platform))
}


/// The place of the first point in the text, from `from` on.
pub open spec fn first_point(t: Seq<char>, from: int) -> Option<int>
    decreases t.len() - from,
{
    if 0 <= from < t.len() {
        if t[from] == '.' {
            Some(from)
        } else {
            first_point(t, from + 1)
        }
    } else {
        None
    }
}

/// The text with a zero put before its first point.
pub open spec fn zero_before_point(t: Seq<char>) -> Seq<char> {
    match first_point(t, 0) {
        Some(p) => t.take(p) + seq!['0'] + t.skip(p),
        None => t,
    }
}

/// Puts a zero before the first point of the text.
pub fn put_zero_before_point(token: &str) -> (s: String)
    ensures
        s@ == zero_before_point(token@),
{
    let v = chars_of(token);
    let mut i: usize = 0;
    while i < v.len()
        invariant
            i <= v.len(),
            v@ == token@,
            first_point(v@, 0) == first_point(v@, i as int),
        decreases v.len() - i,
    {
        if v[i] == '.' {
            let mut s = slice_text(&v, 0, i);
            push_char(&mut s, '0');
            push_text(&mut s, slice_text(&v, i, v.len()).as_str());
            assert(s@ =~= v@.take(i as int) + seq!['0'] + v@.skip(i as int));
            return s;
        }
        i += 1;
    }
    slice_text(&v, 0, v.len())
}

/// The replacements of `rgba()` tokens, in order.
pub open spec fn fixed_tokens(tokens: Seq<Seq<char>>) -> Seq<Seq<char>> {
    tokens.map_values(|t: Seq<char>| zero_before_point(t))
}

/// A color text with its `rgba()` tokens mended, given the tokens and the
/// parts of the text between them; nothing where the two do not fit
/// together.
pub fn mend_rgba(pieces: &Vec<String>, tokens: &Vec<String>) -> (s: Option<String>)
    ensures
        opt_text(s) == spliced(texts(pieces@), fixed_tokens(texts(tokens@))),
{
    let mut replacements: Vec<String> = Vec::new();
    let mut i: usize = 0;
    while i < tokens.len()
        invariant
            i <= tokens.len(),
            replacements.len() == i,
            forall|k: int|
                0 <= k < i ==> (#[trigger] replacements@[k])@ == zero_before_point(tokens@[k]@),
        decreases tokens.len() - i,
    {
        replacements.push(put_zero_before_point(tokens[i].as_str()));
        i += 1;
    }
    assert(texts(replacements@) =~= fixed_tokens(texts(tokens@)));
    splice(pieces, &replacements)
}

/// A color text for a platform that reads no alpha value without a
/// leading zero: in every `rgba()` color whose alpha value starts with its
/// point, a zero is put before the point. The text stays whole where the
/// tokens and the parts between them do not fit together.
pub open spec fn fixed_rgba(text: Seq<char>) -> Seq<char> {
    match (regex_pieces(RGBA_TOKEN@, text), regex_matches(RGBA_TOKEN@, text)) {
        (Some(pieces), Some(tokens)) => match spliced(pieces, fixed_tokens(tokens)) {
            Some(mended) => mended,
            None => text,
        },
        _ => text,
    }
}

/// Mends the `rgba()` colors of a text.
pub fn fix_rgba(input: String) -> (s: String)
    ensures
        s@ == fixed_rgba(input@),
{
    match (split_all(RGBA_TOKEN, input.as_str()), find_all(RGBA_TOKEN, input.as_str())) {
        (Some(pieces), Some(tokens)) => match mend_rgba(&pieces, &tokens) {
            Some(mended) => mended,
            None => input,
        },
        _ => input,
    }
}

/// A length as an expression of the platform: a length with a unit by
/// the helper for the unit, a `calc()` expression as the template literal
/// of its rewritten text.
pub open spec fn length_expr(l: LengthView, platform: Platform) -> ExprView {
    match l {
        LengthView::Value(v) => length_value_expr(v, platform),
        LengthView::Calc(text) => ExprView::Tpl(rewritten_calc(text, platform)),
    }
}

/// Lowers a length.
pub fn generate_expr_by_length(l: &Length, platform: Platform) -> (e: Expr)
    ensures
        e@ == length_expr(l@, platform),
{
    match l {
        Length::Value(v) => generate_expr_by_length_value(v, platform),
        Length::Calc(text) => generate_expr_lit_calc(text.as_str(), platform),
    }
}

/// A length or a percentage as an expression of the platform: a
/// percentage as the string of a hundred times its number and `%`.
pub open spec fn dimension_expr(d: DimensionPercentage, platform: Platform) -> ExprView {
    match d {
        DimensionPercentage::Dimension(v) => length_value_expr(v, platform),
        DimensionPercentage::Percentage(p) => ExprView::Str(percentage_text(p)),
        DimensionPercentage::Calc(text) => ExprView::Tpl(rewritten_calc(text@, platform)),
    }
}

/// Lowers a length or a percentage.
pub fn generate_expr_by_length_percentage(d: &DimensionPercentage, platform: Platform) -> (e: Expr)
    ensures
        e@ == dimension_expr(*d, platform),
{
    match d {
        DimensionPercentage::Dimension(v) => generate_expr_by_length_value(v, platform),
        DimensionPercentage::Percentage(p) => Expr::Str(percentage_string(*p)),
        DimensionPercentage::Calc(text) => generate_expr_lit_calc(text.as_str(), platform),
    }
}

/// A length, a percentage or `auto` as an expression of the platform:
/// `auto` as the string `auto`.
pub open spec fn dimension_or_auto_expr(v: LengthPercentageOrAuto, platform: Platform) -> ExprView {
    match v {
        LengthPercentageOrAuto::LengthPercentage(d) => dimension_expr(d, platform),
        LengthPercentageOrAuto::Auto => ExprView::Str("auto"@),
    }
}

/// Lowers a length, a percentage or `auto`.
pub fn generate_expr_by_length_percentage_or_auto(
    v: &LengthPercentageOrAuto,
    platform: Platform,
) -> (e: Expr)
    ensures
        e@ == dimension_or_auto_expr(*v, platform),
{
    match v {
        LengthPercentageOrAuto::LengthPercentage(d) => generate_expr_by_length_percentage(
            d,
            platform,
        ),
        LengthPercentageOrAuto::Auto => Expr::Str(owned("auto")),
    }
}

} // verus!
