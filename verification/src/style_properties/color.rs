//! Colors, and the properties whose value is a color.

use vstd::prelude::*;
use crate::style_properties::calc::{fix_rgba, fixed_rgba};
use crate::style_properties::property::Property;
use crate::style_properties::unit::{Expr, ExprView, PropertyTuple, PropertyTupleView};
use crate::text::{owned, same_text};

verus! {

/// The color keywords that are shorter than their hexadecimal form, each
/// with that form.
pub open spec fn color_keywords() -> Seq<(Seq<char>, Seq<char>)> {
    seq![
        ("navy"@, "#000080"@),
        ("green"@, "#008000"@),
        ("teal"@, "#008080"@),
        ("indigo"@, "#4b0082"@),
        ("maroon"@, "#800000"@),
        ("purple"@, "#800080"@),
        ("olive"@, "#808000"@),
        ("gray"@, "#808080"@),
        ("sienna"@, "#a0522d"@),
        ("brown"@, "#a52a2a"@),
        ("silver"@, "#c0c0c0"@),
        ("peru"@, "#cd853f"@),
        ("tan"@, "#d2b48c"@),
        ("orchid"@, "#da70d6"@),
        ("plum"@, "#dda0dd"@),
        ("violet"@, "#ee82ee"@),
        ("khaki"@, "#f0e68c"@),
        ("azure"@, "#f0ffff"@),
        ("wheat"@, "#f5deb3"@),
        ("beige"@, "#f5f5dc"@),
        ("salmon"@, "#fa8072"@),
        ("linen"@, "#faf0e6"@),
        ("red"@, "#ff0000"@),
        ("tomato"@, "#ff6347"@),
        ("coral"@, "#ff7f50"@),
        ("orange"@, "#ffa500"@),
        ("pink"@, "#ffc0cb"@),
        ("gold"@, "#ffd700"@),
        ("bisque"@, "#ffe4c4"@),
        ("snow"@, "#fffafa"@),
        ("ivory"@, "#fffff0"@),
    ]
}

/// The hexadecimal form of the first keyword of the table, from `from`
/// on, that is the text `color`.
pub open spec fn keyword_hex(
    table: Seq<(Seq<char>, Seq<char>)>,
    color: Seq<char>,
    from: int,
) -> Option<Seq<char>>
    decreases table.len() - from,
{
    if 0 <= from < table.len() {
        if table[from].0 == color {
            Some(table[from].1)
        } else {
            keyword_hex(table, color, from + 1)
        }
    } else {
        None
    }
}

/// A color text with a keyword replaced by its hexadecimal form; any
/// other text stays as it is.
pub open spec fn hex_of_keyword(color: Seq<char>) -> Seq<char> {
    match keyword_hex(color_keywords(), color, 0) {
        Some(hex) => hex,
        None => color,
    }
}

/// The table of `color_keywords`.
fn keyword_table() -> (table: Vec<(&'static str, &'static str)>)
    ensures
        table@.map_values(|p: (&'static str, &'static str)| (p.0@, p.1@)) == color_keywords(),
{
    let table = vec![
        ("navy", "#000080"),
        ("green", "#008000"),
        ("teal", "#008080"),
        ("indigo", "#4b0082"),
        ("maroon", "#800000"),
        ("purple", "#800080"),
        ("olive", "#808000"),
        ("gray", "#808080"),
        ("sienna", "#a0522d"),
        ("brown", "#a52a2a"),
        ("silver", "#c0c0c0"),
        ("peru", "#cd853f"),
        ("tan", "#d2b48c"),
        ("orchid", "#da70d6"),
        ("plum", "#dda0dd"),
        ("violet", "#ee82ee"),
        ("khaki", "#f0e68c"),
        ("azure", "#f0ffff"),
        ("wheat", "#f5deb3"),
        ("beige", "#f5f5dc"),
        ("salmon", "#fa8072"),
        ("linen", "#faf0e6"),
        ("red", "#ff0000"),
        ("tomato", "#ff6347"),
        ("coral", "#ff7f50"),
        ("orange", "#ffa500"),
        ("pink", "#ffc0cb"),
        ("gold", "#ffd700"),
        ("bisque", "#ffe4c4"),
        ("snow", "#fffafa"),
        ("ivory", "#fffff0"),
    ];
    assert(table@.map_values(|p: (&'static str, &'static str)| (p.0@, p.1@)) =~= color_keywords());
    table
}

/// Replaces a color keyword by its hexadecimal form.
pub fn convert_color_keywords_to_hex(color: String) -> (s: String)
    ensures
        s@ == hex_of_keyword(color@),
{
    let table = keyword_table();
    let ghost views = table@.map_values(|p: (&'static str, &'static str)| (p.0@, p.1@));
    let mut i: usize = 0;
    while i < table.len()
        invariant
            i <= table.len(),
            views == table@.map_values(|p: (&'static str, &'static str)| (p.0@, p.1@)),
            views == color_keywords(),
            keyword_hex(views, color@, 0) == keyword_hex(views, color@, i as int),
        decreases table.len() - i,
    {
        assert(views[i as int] == (table@[i as int].0@, table@[i as int].1@));
        if same_text(table[i].0, color.as_str()) {
            return owned(table[i].1);
        }
        i += 1;
    }
    color
}

/// A property whose value is a color.
#[derive(Debug, PartialEq)]
pub struct ColorProperty {
    pub id: String,
    pub value: String,
}

/// The color of a declaration: that of a color property, with a keyword
/// replaced by its hexadecimal form; nothing for any other declaration.
pub open spec fn color_of(property: Property) -> Seq<char> {
    match property {
        Property::Color(c) => hex_of_keyword(c@),
        _ => Seq::empty(),
    }
}

impl ColorProperty {
    /// The color of a declaration, under the name `id`.
    pub fn from(id: String, property: &Property) -> (p: ColorProperty)
        ensures
            p.id == id,
            p.value@ == color_of(*property),
    {
        ColorProperty {
            id,
            value: match property {
                Property::Color(c) => convert_color_keywords_to_hex(c.clone()),
                _ => String::new(),
            },
        }
    }

    /// The value for the Harmony platform: the color as a string, its
    /// `rgba()` alpha values given a leading zero.
    pub fn to_expr(&self) -> (t: PropertyTuple)
        ensures
            t@ == PropertyTupleView::One(self.id@, ExprView::Str(fixed_rgba(self.value@))),
    {
        PropertyTuple::One(self.id.clone(), Expr::Str(fix_rgba(self.value.clone())))
    }

    /// The value for the React Native platform: the color as a string.
    pub fn to_rn_expr(&self) -> (t: PropertyTuple)
        ensures
            t@ == PropertyTupleView::One(self.id@, ExprView::Str(self.value@)),
    {
        PropertyTuple::One(self.id.clone(), Expr::Str(self.value.clone()))
    }
}

} // verus!
