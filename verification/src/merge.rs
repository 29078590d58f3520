//! Merging the declaration block of an element into its `style`
//! attribute: into the text of a string literal, into the properties of an
//! object literal, or as an attribute of its own.

use vstd::prelude::*;
use crate::record::{declaration_views, Declaration, StyleDeclaration};
use crate::syntax::{
    attr_views, prop_view, Expr, ExprView, JSXAttr, JSXAttrName, JSXAttrNameView, JSXAttrOrSpread,
    JSXAttrOrSpreadView, JSXAttrValue, JSXAttrValueView, JSXAttrView, JSXExpr, JSXExprView,
    KeyValueProp, Lit, LitView, ObjectLit, Prop, PropName, PropNameView, PropOrSpread,
    PropOrSpreadView,
};
use crate::text::{
    owned, push_text, same_text, split, split_first, split_first_spec, split_spec, texts,
};

verus! {

/// A property and its value, both as text.
pub type Pair = (Seq<char>, Seq<char>);

/// The place of the first pair of `m` with the key `k`, from `from` on.
pub open spec fn key_position(m: Seq<Pair>, k: Seq<char>, from: int) -> Option<int>
    decreases m.len() - from,
{
    if 0 <= from < m.len() {
        if m[from].0 == k {
            Some(from)
        } else {
            key_position(m, k, from + 1)
        }
    } else {
        None
    }
}

/// The value that `m` holds for `k`.
pub open spec fn lookup(m: Seq<Pair>, k: Seq<char>) -> Option<Seq<char>> {
    match key_position(m, k, 0) {
        Some(p) => Some(m[p].1),
        None => None,
    }
}

/// `m` with `k` set to `v`: a key that `m` holds keeps its place and gets
/// the new value, a new key goes to the end.
pub open spec fn put(m: Seq<Pair>, k: Seq<char>, v: Seq<char>) -> Seq<Pair> {
    match key_position(m, k, 0) {
        Some(p) => m.update(p, (k, v)),
        None => m.push((k, v)),
    }
}

/// `m` after every pair of `pairs` has been put into it, first to last.
pub open spec fn put_all(m: Seq<Pair>, pairs: Seq<Pair>) -> Seq<Pair>
    decreases pairs.len(),
{
    if pairs.len() == 0 {
        m
    } else {
        put(put_all(m, pairs.drop_last()), pairs.last().0, pairs.last().1)
    }
}

/// The pairs that the pieces of a `style` text give: a piece counts when
/// it has a colon, and gives what stands before its first colon as the
/// property and all that stands behind it as the value.
pub open spec fn piece_pairs(pieces: Seq<Seq<char>>) -> Seq<Pair>
    decreases pieces.len(),
{
    if pieces.len() == 0 {
        Seq::empty()
    } else {
        let before = piece_pairs(pieces.drop_last());
        match split_first_spec(pieces.last(), ':') {
            Some(pair) => before.push(pair),
            None => before,
        }
    }
}

/// The pairs of a `style` text: its pieces between semicolons, read as
/// `property:value`.
pub open spec fn parse_style(text: Seq<char>) -> Seq<Pair> {
    piece_pairs(split_spec(text, ';'))
}

/// The pairs as `style` text: `property:value;` for each, in order.
pub open spec fn render(pairs: Seq<Pair>) -> Seq<char>
    decreases pairs.len(),
{
    if pairs.len() == 0 {
        Seq::empty()
    } else {
        render(pairs.drop_last()) + pairs.last().0 + seq![':'] + pairs.last().1 + seq![';']
    }
}

/// The properties of an element whose `style` is the text `literal` and
/// for which `declarations` were resolved: the declarations first, then
/// the pairs of the text, which win where both name a property.
pub open spec fn merged_pairs(declarations: Seq<Pair>, literal: Seq<char>) -> Seq<Pair> {
    put_all(put_all(Seq::empty(), declarations), parse_style(literal))
}

/// The `style` text that replaces the text `literal`.
pub open spec fn merged_style(declarations: Seq<Pair>, literal: Seq<char>) -> Seq<char> {
    render(merged_pairs(declarations, literal))
}

/// Properties with their values, in the order in which they were first set.
pub struct PropertyMap {
    pub entries: Vec<(String, String)>,
}

impl View for PropertyMap {
    type V = Seq<Pair>;

    open spec fn view(&self) -> Seq<Pair> {
        self.entries@.map_values(|e: (String, String)| (e.0@, e.1@))
    }
}

impl PropertyMap {
    pub fn new() -> (m: PropertyMap)
        ensures
            m@ == Seq::<Pair>::empty(),
    {
        let m = PropertyMap { entries: Vec::new() };
        assert(m@ =~= Seq::<Pair>::empty());
        m
    }

    fn find(&self, key: &String) -> (r: Option<usize>)
        ensures
            match r {
                Some(p) => key_position(self@, key@, 0) == Some(p as int) && p < self.entries.len(),
                None => key_position(self@, key@, 0) is None,
            },
    {
        let mut i: usize = 0;
        while i < self.entries.len()
            invariant
                i <= self.entries.len(),
                key_position(self@, key@, 0) == key_position(self@, key@, i as int),
            decreases self.entries.len() - i,
        {
            if same_text(self.entries[i].0.as_str(), key.as_str()) {
                return Some(i);
            }
            i += 1;
        }
        None
    }

    /// Sets `key` to `value`.
    pub fn insert(&mut self, key: String, value: String)
        ensures
            final(self)@ == put(old(self)@, key@, value@),
    {
        let ghost k = key@;
        let ghost v = value@;
        match self.find(&key) {
            Some(p) => {
                self.entries.set(p, (key, value));
                assert(self@ =~= old(self)@.update(p as int, (k, v)));
            },
            None => {
                self.entries.push((key, value));
                assert(self@ =~= old(self)@.push((k, v)));
            },
        }
    }

    /// The value of `key`, if the map has one.
    pub fn get(&self, key: &String) -> (r: Option<&String>)
        ensures
            match r {
                Some(v) => lookup(self@, key@) == Some(v@),
                None => lookup(self@, key@) is None,
            },
    {
        match self.find(key) {
            Some(p) => Some(&self.entries[p].1),
            None => None,
        }
    }

    /// The map as `style` text.
    pub fn to_style(&self) -> (s: String)
        ensures
            s@ == render(self@),
    {
        let mut s = String::new();
        let mut i: usize = 0;
        while i < self.entries.len()
            invariant
                i <= self.entries.len(),
                s@ == render(self@.take(i as int)),
            decreases self.entries.len() - i,
        {
            proof {
                assert(self@.take(i + 1).drop_last() == self@.take(i as int));
                reveal_strlit(":");
                reveal_strlit(";");
                assert(":"@ == seq![':']);
                assert(";"@ == seq![';']);
            }
            push_text(&mut s, self.entries[i].0.as_str());
            push_text(&mut s, ":");
            push_text(&mut s, self.entries[i].1.as_str());
            push_text(&mut s, ";");
            i += 1;
        }
        assert(self@.take(self.entries.len() as int) == self@);
        s
    }
}

/// The text of a declaration block: `property:value;` for each declaration,
/// in order, repeated properties included.
pub fn style_text(declarations: &Vec<Declaration>) -> (s: String)
    ensures
        s@ == render(declaration_views(declarations@)),
{
    let ghost all = declaration_views(declarations@);
    let mut s = String::new();
    let mut i: usize = 0;
    while i < declarations.len()
        invariant
            i <= declarations.len(),
            all == declaration_views(declarations@),
            s@ == render(all.take(i as int)),
        decreases declarations.len() - i,
    {
        proof {
            assert(all.take(i + 1).drop_last() == all.take(i as int));
            reveal_strlit(":");
            reveal_strlit(";");
            assert(":"@ == seq![':']);
            assert(";"@ == seq![';']);
        }
        push_text(&mut s, declarations[i].property_id.as_str());
        push_text(&mut s, ":");
        push_text(&mut s, declarations[i].value.as_str());
        push_text(&mut s, ";");
        i += 1;
    }
    assert(all.take(declarations.len() as int) == all);
    s
}

/// The `style` text of an element whose `style` was the text `literal`,
/// after the declarations resolved for it have been merged in.
pub fn merge_style_text(declarations: &Vec<Declaration>, literal: &str) -> (s: String)
    ensures
        s@ == merged_style(declaration_views(declarations@), literal@),
{
    let ghost all = declaration_views(declarations@);
    let mut properties = PropertyMap::new();
    let mut i: usize = 0;
    while i < declarations.len()
        invariant
            i <= declarations.len(),
            all == declaration_views(declarations@),
            properties@ == put_all(Seq::empty(), all.take(i as int)),
        decreases declarations.len() - i,
    {
        proof {
            assert(all.take(i + 1).drop_last() == all.take(i as int));
        }
        properties.insert(declarations[i].property_id.clone(), declarations[i].value.clone());
        i += 1;
    }
    assert(all.take(declarations.len() as int) == all);
    let ghost seeded = properties@;
    let pieces = split(literal, ';');
    let ghost piece_texts = texts(pieces@);
    let mut j: usize = 0;
    while j < pieces.len()
        invariant
            j <= pieces.len(),
            piece_texts == texts(pieces@),
            properties@ == put_all(seeded, piece_pairs(piece_texts.take(j as int))),
        decreases pieces.len() - j,
    {
        proof {
            assert(piece_texts.take(j + 1).drop_last() == piece_texts.take(j as int));
        }
        assert(piece_texts.take(j + 1).last() == pieces@[j as int]@);
        match split_first(pieces[j].as_str(), ':') {
            Some((property, value)) => {
                let ghost read = piece_pairs(piece_texts.take(j as int));
                assert(piece_pairs(piece_texts.take(j + 1)) == read.push((property@, value@)));
                assert(read.push((property@, value@)).drop_last() == read);
                properties.insert(property, value);
            },
            None => {},
        }
        j += 1;
    }
    assert(piece_texts.take(pieces.len() as int) == piece_texts);
    properties.to_style()
}


/// Whether the object literal has a property with the key `id`, be the
/// key written as an identifier, a string or a number.
pub open spec fn has_key(props: Seq<PropOrSpreadView>, id: Seq<char>) -> bool {
    exists|i: int| 0 <= i < props.len() && #[trigger] props[i].key_text() == Some(id)
}

/// The declarations that the object literal has no property for, in order.
pub open spec fn missing(props: Seq<PropOrSpreadView>, declarations: Seq<Pair>) -> Seq<Pair>
    decreases declarations.len(),
{
    if declarations.len() == 0 {
        Seq::empty()
    } else {
        let before = missing(props, declarations.drop_last());
        if has_key(props, declarations.last().0) {
            before
        } else {
            before.push(declarations.last())
        }
    }
}

/// The property that a declaration becomes in an object literal: its name
/// as the key, its value as a string literal.
pub open spec fn style_prop(d: Pair) -> PropOrSpreadView {
    PropOrSpreadView::KeyValue(PropNameView::Ident(d.0), ExprView::Lit(LitView::Str(d.1)))
}

/// The properties of an object-literal `style` after the declarations have
/// been merged in: what was there stays as it is, and each declaration
/// whose property the literal did not name follows.
pub open spec fn merged_props(props: Seq<PropOrSpreadView>, declarations: Seq<Pair>) -> Seq<
    PropOrSpreadView,
> {
    props + missing(props, declarations).map_values(|d: Pair| style_prop(d))
}

/// Whether the object literal has a property with the key `id`.
pub fn object_has_key(lit: &ObjectLit, id: &str) -> (r: bool)
    ensures
        r == has_key(lit@, id@),
{
    let mut i: usize = 0;
    while i < lit.props.len()
        invariant
            i <= lit.props.len(),
            forall|k: int| 0 <= k < i ==> #[trigger] lit@[k].key_text() != Some(id@),
        decreases lit.props.len() - i,
    {
        assert(lit@[i as int] == prop_view(lit.props@[i as int]));
        match &lit.props[i] {
            PropOrSpread::Prop(Prop::KeyValue(kv)) => {
                match kv.key.text() {
                    Some(name) => {
                        if same_text(name.as_str(), id) {
                            assert(lit@[i as int].key_text() == Some(id@));
                            return true;
                        }
                    },
                    None => {},
                }
            },
            _ => {},
        }
        i += 1;
    }
    false
}

/// Merges a declaration block into an object-literal `style`.
pub fn merge_object(lit: &mut ObjectLit, declarations: &Vec<Declaration>)
    ensures
        final(lit)@ == merged_props(old(lit)@, declaration_views(declarations@)),
{
    let ghost all = declaration_views(declarations@);
    let ghost props = lit@;
    let mut properties: Vec<usize> = Vec::new();
    let mut i: usize = 0;
    while i < declarations.len()
        invariant
            i <= declarations.len(),
            all == declaration_views(declarations@),
            props == lit@,
            *lit == *old(lit),
            properties@.len() == missing(props, all.take(i as int)).len(),
            forall|k: int|
                0 <= k < properties@.len() ==> (#[trigger] properties@[k]) < i
                    && all[properties@[k] as int] == missing(props, all.take(i as int))[k],
        decreases declarations.len() - i,
    {
        proof {
            assert(all.take(i + 1).drop_last() == all.take(i as int));
        }
        let ghost before = missing(props, all.take(i as int));
        let ghost found = properties@;
        if !object_has_key(lit, declarations[i].property_id.as_str()) {
            properties.push(i);
            assert(missing(props, all.take(i + 1)) == before.push(all[i as int]));
            assert forall|k: int| 0 <= k < properties@.len() implies (#[trigger] properties@[k])
                < i + 1 && all[properties@[k] as int] == missing(props, all.take(i + 1))[k] by {
                if k < found.len() {
                    assert(properties@[k] == found[k]);
                }
            }
        } else {
            assert(missing(props, all.take(i + 1)) == before);
        }
        i += 1;
    }
    assert(all.take(declarations.len() as int) == all);
    let ghost wanted = missing(props, all);
    let mut j: usize = 0;
    while j < properties.len()
        invariant
            j <= properties.len(),
            all == declaration_views(declarations@),
            properties@.len() == wanted.len(),
            forall|k: int|
                0 <= k < properties@.len() ==> (#[trigger] properties@[k]) < declarations.len()
                    && all[properties@[k] as int] == wanted[k],
            lit@ == props + wanted.take(j as int).map_values(|d: Pair| style_prop(d)),
        decreases properties.len() - j,
    {
        let d = &declarations[properties[j]];
        let ghost before = lit@;
        lit.props.push(
            PropOrSpread::Prop(
                Prop::KeyValue(
                    KeyValueProp {
                        key: PropName::Ident(d.property_id.clone()),
                        value: Expr::Lit(Lit::Str(d.value.clone())),
                    },
                ),
            ),
        );
        proof {
            assert(all[properties@[j as int] as int] == wanted[j as int]);
            assert(lit@ =~= before.push(style_prop(wanted[j as int])));
            assert(wanted.take(j + 1) == wanted.take(j as int).push(wanted[j as int]));
            assert(lit@ =~= props + wanted.take(j + 1).map_values(|d: Pair| style_prop(d)));
        }
        j += 1;
    }
    assert(wanted.take(properties.len() as int) == wanted);
}


/// Whether the attribute is named `style`.
pub open spec fn is_style(a: JSXAttrOrSpreadView) -> bool {
    a matches JSXAttrOrSpreadView::JSXAttr(attr) && attr.name == JSXAttrNameView::Ident("style"@)
}

/// Whether the attribute is a `style` without a value, or with empty
/// braces as its value.
pub open spec fn is_empty_style(a: JSXAttrOrSpreadView) -> bool {
    a matches JSXAttrOrSpreadView::JSXAttr(attr) && attr.name == JSXAttrNameView::Ident("style"@)
        && (attr.value is None || attr.value == Some(
        JSXAttrValueView::JSXExprContainer(JSXExprView::JSXEmptyExpr),
    ))
}

/// The attribute with the string literal `text` as its value.
pub open spec fn with_text(a: JSXAttrOrSpreadView, text: Seq<char>) -> JSXAttrOrSpreadView {
    match a {
        JSXAttrOrSpreadView::JSXAttr(attr) => JSXAttrOrSpreadView::JSXAttr(
            JSXAttrView { name: attr.name, value: Some(JSXAttrValueView::Lit(LitView::Str(text))) },
        ),
        JSXAttrOrSpreadView::SpreadElement => a,
    }
}

/// One attribute after the declarations have been merged into it: a
/// `style` that is a string literal or an object literal takes them up,
/// every other attribute stays as it is.
pub open spec fn merged_attr(
    a: JSXAttrOrSpreadView,
    declarations: Seq<Pair>,
) -> JSXAttrOrSpreadView {
    match a {
        JSXAttrOrSpreadView::JSXAttr(attr) => if attr.name == JSXAttrNameView::Ident("style"@) {
            match attr.value {
                Some(JSXAttrValueView::Lit(LitView::Str(s))) => with_text(
                    a,
                    merged_style(declarations, s),
                ),
                Some(
                    JSXAttrValueView::JSXExprContainer(JSXExprView::Expr(ExprView::Object(props))),
                ) => JSXAttrOrSpreadView::JSXAttr(
                    JSXAttrView {
                        name: attr.name,
                        value: Some(
                            JSXAttrValueView::JSXExprContainer(
                                JSXExprView::Expr(
                                    ExprView::Object(merged_props(props, declarations)),
                                ),
                            ),
                        ),
                    },
                ),
                _ => a,
            }
        } else {
            a
        },
        JSXAttrOrSpreadView::SpreadElement => a,
    }
}

/// A `style` attribute with the string literal `text` as its value.
pub open spec fn style_attr(text: Seq<char>) -> JSXAttrOrSpreadView {
    JSXAttrOrSpreadView::JSXAttr(
        JSXAttrView {
            name: JSXAttrNameView::Ident("style"@),
            value: Some(JSXAttrValueView::Lit(LitView::Str(text))),
        },
    )
}

/// One attribute after injection: an empty `style` gets the text of the
/// block as its value, where a block was resolved; a `style` that is a
/// string literal or an object literal has the declarations merged in;
/// every other attribute stays as it is.
pub open spec fn injected_attr(
    a: JSXAttrOrSpreadView,
    block: Option<Seq<Pair>>,
) -> JSXAttrOrSpreadView {
    match block {
        Some(d) => if is_empty_style(a) {
            with_text(a, render(d))
        } else {
            merged_attr(a, d)
        },
        None => merged_attr(a, Seq::empty()),
    }
}

/// Whether one of the attributes is named `style`.
pub open spec fn has_style(attrs: Seq<JSXAttrOrSpreadView>) -> bool {
    exists|i: int| 0 <= i < attrs.len() && is_style(#[trigger] attrs[i])
}

/// The attributes of an element after injection, where `block` is what
/// was resolved for the element's node.
///
/// Each attribute is rewritten on its own. Where a block was resolved and
/// the element has no `style` at all, one is added that holds the block's
/// text.
pub open spec fn injected_attrs(attrs: Seq<JSXAttrOrSpreadView>, block: Option<Seq<Pair>>) -> Seq<
    JSXAttrOrSpreadView,
> {
    let each = attrs.map_values(|a: JSXAttrOrSpreadView| injected_attr(a, block));
    match block {
        Some(d) => if has_style(attrs) {
            each
        } else {
            each.push(style_attr(render(d)))
        },
        None => each,
    }
}

/// Whether the attribute is named `style`.
pub fn attr_is_style(a: &JSXAttrOrSpread) -> (r: bool)
    ensures
        r == is_style(a@),
{
    match a {
        JSXAttrOrSpread::JSXAttr(attr) => match &attr.name {
            JSXAttrName::Ident(name) => same_text(name.as_str(), "style"),
            JSXAttrName::JSXNamespacedName(_) => false,
        },
        JSXAttrOrSpread::SpreadElement => false,
    }
}

/// Merges the declarations into one attribute.
pub fn merge_attr(a: &mut JSXAttrOrSpread, declarations: &Vec<Declaration>)
    ensures
        final(a)@ == merged_attr(old(a)@, declaration_views(declarations@)),
{
    if !attr_is_style(a) {
        return ;
    }
    match a {
        JSXAttrOrSpread::JSXAttr(attr) => {
            match &mut attr.value {
                Some(JSXAttrValue::Lit(Lit::Str(s))) => {
                    let merged = merge_style_text(declarations, s.as_str());
                    *s = merged;
                },
                Some(JSXAttrValue::JSXExprContainer(JSXExpr::Expr(Expr::Object(lit)))) => {
                    merge_object(lit, declarations);
                },
                _ => {},
            }
        },
        JSXAttrOrSpread::SpreadElement => {},
    }
}


/// Whether the attribute is a `style` without a value, or with empty
/// braces as its value.
pub fn attr_is_empty_style(a: &JSXAttrOrSpread) -> (r: bool)
    ensures
        r == is_empty_style(a@),
{
    if !attr_is_style(a) {
        return false;
    }
    match a {
        JSXAttrOrSpread::JSXAttr(attr) => match &attr.value {
            None => true,
            Some(JSXAttrValue::JSXExprContainer(JSXExpr::JSXEmptyExpr)) => true,
            _ => false,
        },
        JSXAttrOrSpread::SpreadElement => false,
    }
}

/// Gives the attribute the string literal `text` as its value.
pub fn set_text(a: &mut JSXAttrOrSpread, text: String)
    ensures
        final(a)@ == with_text(old(a)@, text@),
{
    match a {
        JSXAttrOrSpread::JSXAttr(attr) => {
            attr.value = Some(JSXAttrValue::Lit(Lit::Str(text)));
        },
        JSXAttrOrSpread::SpreadElement => {},
    }
}

/// The view of the block, where there is one.
pub open spec fn block_view(block: Option<&StyleDeclaration>) -> Option<Seq<Pair>> {
    match block {
        Some(b) => Some(b@),
        None => None,
    }
}

/// Rewrites one attribute of an element for which `block` was resolved.
pub fn inject_attr(a: &mut JSXAttrOrSpread, block: Option<&StyleDeclaration>)
    ensures
        final(a)@ == injected_attr(old(a)@, block_view(block)),
{
    match block {
        Some(b) => {
            if attr_is_empty_style(a) {
                set_text(a, style_text(&b.declarations));
            } else {
                merge_attr(a, &b.declarations);
            }
        },
        None => {
            let nothing: Vec<Declaration> = Vec::new();
            assert(declaration_views(nothing@) =~= Seq::<Pair>::empty());
            merge_attr(a, &nothing);
        },
    }
}

/// Rewrites the attributes of an element for which `block` was resolved.
pub fn inject_attrs(attrs: &mut Vec<JSXAttrOrSpread>, block: Option<&StyleDeclaration>)
    ensures
        attr_views(final(attrs)@) == injected_attrs(attr_views(old(attrs)@), block_view(block)),
{
    let ghost before = attr_views(attrs@);
    let ghost resolved = block_view(block);
    let mut found = false;
    let mut i: usize = 0;
    while i < attrs.len()
        invariant
            i <= attrs.len(),
            attrs.len() == before.len(),
            resolved == block_view(block),
            forall|k: int|
                0 <= k < i ==> (#[trigger] attrs@[k])@ == injected_attr(before[k], resolved),
            forall|k: int| i <= k < attrs.len() ==> (#[trigger] attrs@[k])@ == before[k],
            found == exists|k: int| 0 <= k < i && is_style(#[trigger] before[k]),
        decreases attrs.len() - i,
    {
        if attr_is_style(&attrs[i]) {
            assert(is_style(before[i as int]));
            found = true;
        }
        inject_attr(&mut attrs[i], block);
        i += 1;
    }
    let ghost each = before.map_values(|a: JSXAttrOrSpreadView| injected_attr(a, resolved));
    assert(attr_views(attrs@) =~= each);
    assert(found == has_style(before));
    if !found {
        match block {
            Some(b) => {
                let text = style_text(&b.declarations);
                attrs.push(
                    JSXAttrOrSpread::JSXAttr(
                        JSXAttr {
                            name: JSXAttrName::Ident(owned("style")),
                            value: Some(JSXAttrValue::Lit(Lit::Str(text))),
                        },
                    ),
                );
                assert(attr_views(attrs@) =~= each.push(style_attr(render(b@))));
            },
            None => {},
        }
    }
}

} // verus!
