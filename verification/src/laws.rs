//! What holds of building the source tree and of merging styles, for every
//! input.

use vstd::prelude::*;
use crate::merge::{
    has_key, has_style, injected_attr, injected_attrs, is_style, key_position, lookup,
    merged_attr, merged_pairs, merged_props, merged_style, missing, parse_style, piece_pairs, put,
    put_all, render, style_prop, Pair,
};
use crate::rows::{
    child_rows, children_rows, element_node, element_rows, fragment_node, fragment_rows,
    markup_rows, recorded, reference_of, Row,
};
use crate::span::SpanKey;
use crate::text::{
    first_index, lemma_first_index, lemma_split_append, lemma_split_pieces, split_first_spec,
    split_spec,
};
use crate::syntax::{
    ExprView, JSXAttrOrSpreadView, JSXAttrValueView, JSXElement, JSXElementChild, JSXExprView,
    JSXFragment, Markup, Program, PropOrSpreadView,
};

verus! {

/// A declaration that the object literal has no property for is among the
/// missing ones.
proof fn lemma_missing_holds(props: Seq<PropOrSpreadView>, declarations: Seq<Pair>, j: int)
    requires
        0 <= j < declarations.len(),
        !has_key(props, declarations[j].0),
    ensures
        exists|k: int|
            0 <= k < missing(props, declarations).len() && #[trigger] missing(
                props,
                declarations,
            )[k] == declarations[j],
    decreases declarations.len(),
{
    let m = missing(props, declarations);
    if j == declarations.len() - 1 {
        assert(m[m.len() - 1] == declarations[j]);
    } else {
        lemma_missing_holds(props, declarations.drop_last(), j);
        let before = missing(props, declarations.drop_last());
        let k = choose|k: int| 0 <= k < before.len() && #[trigger] before[k] == declarations[j];
        assert(m[k] == declarations[j]);
    }
}

/// After merging, the object literal has a property for every declaration.
proof fn lemma_merged_has_every_key(props: Seq<PropOrSpreadView>, declarations: Seq<Pair>, j: int)
    requires
        0 <= j < declarations.len(),
    ensures
        has_key(merged_props(props, declarations), declarations[j].0),
{
    let merged = merged_props(props, declarations);
    if has_key(props, declarations[j].0) {
        let i = choose|i: int|
            0 <= i < props.len() && #[trigger] props[i].key_text() == Some(declarations[j].0);
        assert(merged[i].key_text() == Some(declarations[j].0));
    } else {
        lemma_missing_holds(props, declarations, j);
        let m = missing(props, declarations);
        let k = choose|k: int| 0 <= k < m.len() && #[trigger] m[k] == declarations[j];
        assert(merged[props.len() + k] == style_prop(m[k]));
        assert(merged[props.len() + k].key_text() == Some(declarations[j].0));
    }
}

/// Where the object literal has a property for every declaration, none is
/// missing.
proof fn lemma_nothing_missing(props: Seq<PropOrSpreadView>, declarations: Seq<Pair>)
    requires
        forall|j: int| 0 <= j < declarations.len() ==> has_key(props, #[trigger] declarations[j].0),
    ensures
        missing(props, declarations).len() == 0,
    decreases declarations.len(),
{
    if declarations.len() > 0 {
        assert(has_key(props, declarations[declarations.len() - 1].0));
        assert forall|j: int| 0 <= j < declarations.drop_last().len() implies has_key(
            props,
            #[trigger] declarations.drop_last()[j].0,
        ) by {
            assert(declarations.drop_last()[j] == declarations[j]);
        }
        lemma_nothing_missing(props, declarations.drop_last());
    }
}

/// The object literal wins: every property that an object-literal `style`
/// had before the merge is there afterwards, in its place and with the
/// value it had.
pub proof fn object_literal_keeps_its_properties(
    props: Seq<PropOrSpreadView>,
    declarations: Seq<Pair>,
    i: int,
)
    requires
        0 <= i < props.len(),
    ensures
        i < merged_props(props, declarations).len(),
        merged_props(props, declarations)[i] == props[i],
{
}

/// Merging the same declarations into an object-literal `style` a second
/// time changes nothing.
pub proof fn object_merge_is_idempotent(props: Seq<PropOrSpreadView>, declarations: Seq<Pair>)
    ensures
        merged_props(merged_props(props, declarations), declarations) == merged_props(
            props,
            declarations,
        ),
{
    let once = merged_props(props, declarations);
    assert forall|j: int| 0 <= j < declarations.len() implies has_key(
        once,
        #[trigger] declarations[j].0,
    ) by {
        lemma_merged_has_every_key(props, declarations, j);
    }
    lemma_nothing_missing(once, declarations);
    assert(merged_props(once, declarations) =~= once);
}

/// Injecting the same declarations into an object-literal `style`
/// attribute a second time changes nothing.
pub proof fn object_style_injection_is_idempotent(a: JSXAttrOrSpreadView, declarations: Seq<Pair>)
    requires
        is_style(a),
        a->JSXAttr_0.value matches Some(
            JSXAttrValueView::JSXExprContainer(JSXExprView::Expr(ExprView::Object(_))),
        ),
    ensures
        merged_attr(merged_attr(a, declarations), declarations) == merged_attr(a, declarations),
{
    let props = a->JSXAttr_0.value->Some_0->JSXExprContainer_0->Expr_0->Object_0;
    object_merge_is_idempotent(props, declarations);
}


/// Whether the attribute is a `style` whose value is an object literal.
pub open spec fn is_object_style(a: JSXAttrOrSpreadView) -> bool {
    is_style(a) && a->JSXAttr_0.value matches Some(
        JSXAttrValueView::JSXExprContainer(JSXExprView::Expr(ExprView::Object(_))),
    )
}

/// Merging changes neither whether an attribute is a `style` nor whether
/// its value is an object literal.
proof fn lemma_merged_attr_kind(a: JSXAttrOrSpreadView, declarations: Seq<Pair>)
    ensures
        is_style(merged_attr(a, declarations)) == is_style(a),
        is_object_style(merged_attr(a, declarations)) == is_object_style(a),
{
}

/// Running the injection a second time with the same block changes
/// nothing, for an element that has a `style` and whose every `style` is
/// an object literal.
pub proof fn object_style_injection_is_idempotent_for_element(
    attrs: Seq<JSXAttrOrSpreadView>,
    block: Option<Seq<Pair>>,
)
    requires
        has_style(attrs),
        forall|i: int| 0 <= i < attrs.len() && is_style(#[trigger] attrs[i]) ==> is_object_style(
            attrs[i],
        ),
    ensures
        injected_attrs(injected_attrs(attrs, block), block) == injected_attrs(attrs, block),
{
    let declarations = match block {
        Some(d) => d,
        None => Seq::empty(),
    };
    let once = attrs.map_values(|a: JSXAttrOrSpreadView| injected_attr(a, block));
    let twice = once.map_values(|a: JSXAttrOrSpreadView| injected_attr(a, block));
    let at = choose|i: int| 0 <= i < attrs.len() && is_style(#[trigger] attrs[i]);
    assert forall|i: int| 0 <= i < attrs.len() implies #[trigger] once[i] == merged_attr(
        attrs[i],
        declarations,
    ) && twice[i] == once[i] by {
        lemma_merged_attr_kind(attrs[i], declarations);
        if is_style(attrs[i]) {
            assert(is_object_style(attrs[i]));
            object_style_injection_is_idempotent(attrs[i], declarations);
        }
    }
    assert(is_style(once[at]));
    assert(has_style(once));
    assert(injected_attrs(attrs, block) == once);
    assert(injected_attrs(once, block) == twice);
    assert(twice =~= once);
}

/// The value that reading `pairs` into a map leaves for `k`: that of the
/// last pair with this key.
pub open spec fn value_of(pairs: Seq<Pair>, k: Seq<char>) -> Option<Seq<char>>
    decreases pairs.len(),
{
    if pairs.len() == 0 {
        None
    } else if pairs.last().0 == k {
        Some(pairs.last().1)
    } else {
        value_of(pairs.drop_last(), k)
    }
}

/// No two pairs have the same key.
pub open spec fn distinct_keys(m: Seq<Pair>) -> bool {
    forall|i: int, j: int| 0 <= i < j < m.len() ==> m[i].0 != m[j].0
}

/// Neither the key nor the value holds `c`.
pub open spec fn free_of(p: Pair, c: char) -> bool {
    !p.0.contains(c) && !p.1.contains(c)
}

/// A pair as `style` text, without the semicolon that ends it.
pub open spec fn entry_text(p: Pair) -> Seq<char> {
    p.0 + seq![':'] + p.1
}

proof fn lemma_key_position(m: Seq<Pair>, k: Seq<char>, from: int)
    requires
        0 <= from,
    ensures
        match key_position(m, k, from) {
            Some(p) => from <= p < m.len() && m[p].0 == k && forall|i: int|
                from <= i < p ==> m[i].0 != k,
            None => forall|i: int| from <= i < m.len() ==> m[i].0 != k,
        },
    decreases m.len() - from,
{
    if from < m.len() && m[from].0 != k {
        lemma_key_position(m, k, from + 1);
    }
}

/// The first place of a key depends on the keys alone.
proof fn lemma_same_keys(a: Seq<Pair>, b: Seq<Pair>, k: Seq<char>, from: int)
    requires
        0 <= from,
        a.len() == b.len(),
        forall|i: int| 0 <= i < a.len() ==> a[i].0 == b[i].0,
    ensures
        key_position(a, k, from) == key_position(b, k, from),
    decreases a.len() - from,
{
    if from < a.len() && a[from].0 != k {
        lemma_same_keys(a, b, k, from + 1);
    }
}

/// The first place of a key after one more pair was put at the end.
proof fn lemma_pushed_key(m: Seq<Pair>, x: Pair, k: Seq<char>, from: int)
    requires
        0 <= from <= m.len(),
    ensures
        key_position(m.push(x), k, from) == match key_position(m, k, from) {
            Some(p) => Some(p),
            None => if x.0 == k {
                Some(m.len() as int)
            } else {
                None
            },
        },
    decreases m.len() - from,
{
    if from < m.len() {
        assert(m.push(x)[from] == m[from]);
        if m[from].0 != k {
            lemma_pushed_key(m, x, k, from + 1);
        }
    } else {
        assert(m.push(x)[from] == x);
        assert(key_position(m.push(x), k, from + 1) is None);
    }
}

/// What `put` does to a map without repeated keys.
proof fn lemma_put(m: Seq<Pair>, k: Seq<char>, v: Seq<char>)
    requires
        distinct_keys(m),
    ensures
        distinct_keys(put(m, k, v)),
        lookup(put(m, k, v), k) == Some(v),
        forall|other: Seq<char>|
            other != k ==> #[trigger] lookup(put(m, k, v), other) == lookup(m, other),
        forall|i: int|
            0 <= i < put(m, k, v).len() ==> #[trigger] put(m, k, v)[i] == (k, v) || m.contains(
                put(m, k, v)[i],
            ),
{
    let after = put(m, k, v);
    lemma_key_position(m, k, 0);
    match key_position(m, k, 0) {
        Some(p) => {
            assert forall|other: Seq<char>| #[trigger]
                key_position(after, other, 0) == key_position(m, other, 0) by {
                lemma_same_keys(after, m, other, 0);
            }
            assert forall|other: Seq<char>| other != k implies #[trigger] lookup(after, other)
                == lookup(m, other) by {
                lemma_key_position(m, other, 0);
            }
        },
        None => {
            assert forall|other: Seq<char>| #[trigger]
                key_position(after, other, 0) == match key_position(m, other, 0) {
                    Some(q) => Some(q),
                    None => if k == other {
                        Some(m.len() as int)
                    } else {
                        None
                    },
                } by {
                lemma_pushed_key(m, (k, v), other, 0);
            }
            assert forall|other: Seq<char>| other != k implies #[trigger] lookup(after, other)
                == lookup(m, other) by {
                lemma_key_position(m, other, 0);
            }
        },
    }
    assert forall|i: int| 0 <= i < after.len() implies #[trigger] after[i] == (k, v) || m.contains(
        after[i],
    ) by {
        if after[i] != (k, v) {
            assert(m[i] == after[i]);
        }
    }
}

/// What `put_all` does to a map without repeated keys.
proof fn lemma_put_all(m: Seq<Pair>, pairs: Seq<Pair>)
    requires
        distinct_keys(m),
    ensures
        distinct_keys(put_all(m, pairs)),
        forall|k: Seq<char>|
            #[trigger] lookup(put_all(m, pairs), k) == match value_of(pairs, k) {
                Some(v) => Some(v),
                None => lookup(m, k),
            },
        forall|i: int|
            0 <= i < put_all(m, pairs).len() ==> m.contains(#[trigger] put_all(m, pairs)[i])
                || pairs.contains(put_all(m, pairs)[i]),
    decreases pairs.len(),
{
    if pairs.len() > 0 {
        let head = pairs.drop_last();
        let last = pairs.last();
        lemma_put_all(m, head);
        let before = put_all(m, head);
        lemma_put(before, last.0, last.1);
        let after = put_all(m, pairs);
        assert forall|i: int| 0 <= i < after.len() implies m.contains(#[trigger] after[i])
            || pairs.contains(after[i]) by {
            if after[i] == (last.0, last.1) {
                assert(pairs[pairs.len() - 1] == after[i]);
            } else {
                let j = choose|j: int| 0 <= j < before.len() && before[j] == after[i];
                if !m.contains(before[j]) {
                    let h = choose|h: int| 0 <= h < head.len() && head[h] == before[j];
                    assert(pairs[h] == after[i]);
                }
            }
        }
    }
}

/// Whether a pair is read back as it stands from the text that renders
/// it: its property holds neither a colon nor a semicolon, its value no
/// semicolon.
pub open spec fn readable(p: Pair) -> bool {
    !p.0.contains(':') && free_of(p, ';')
}

/// The pairs that pieces without a semicolon give are readable.
proof fn lemma_piece_pairs_readable(pieces: Seq<Seq<char>>, i: int)
    requires
        0 <= i < piece_pairs(pieces).len(),
        forall|j: int| 0 <= j < pieces.len() ==> !(#[trigger] pieces[j]).contains(';'),
    ensures
        readable(piece_pairs(pieces)[i]),
    decreases pieces.len(),
{
    if pieces.len() > 0 {
        let head = pieces.drop_last();
        let before = piece_pairs(head);
        let piece = pieces.last();
        assert(!piece.contains(';')) by {
            assert(pieces[pieces.len() - 1] == piece);
        }
        if i < before.len() {
            assert forall|j: int| 0 <= j < head.len() implies !(#[trigger] head[j]).contains(
                ';',
            ) by {
                assert(head[j] == pieces[j]);
            }
            lemma_piece_pairs_readable(head, i);
        } else {
            lemma_first_index(piece, ':', 0);
            let at = first_index(piece, ':', 0)->Some_0;
            let property = piece.take(at);
            let value = piece.skip(at + 1);
            assert forall|c: char| c == ':' || c == ';' implies !property.contains(c) by {
                if property.contains(c) {
                    let k = choose|k: int| 0 <= k < property.len() && property[k] == c;
                    assert(piece[k] == c);
                }
            }
            assert(!value.contains(';')) by {
                if value.contains(';') {
                    let k = choose|k: int| 0 <= k < value.len() && value[k] == ';';
                    assert(piece[at + 1 + k] == ';');
                }
            }
        }
    }
}

/// The pairs of a `style` text are readable.
proof fn lemma_parse_style_readable(text: Seq<char>, i: int)
    requires
        0 <= i < parse_style(text).len(),
    ensures
        readable(parse_style(text)[i]),
{
    let pieces = split_spec(text, ';');
    assert forall|j: int| 0 <= j < pieces.len() implies !(#[trigger] pieces[j]).contains(';') by {
        lemma_split_pieces(text, ';', ';', j);
    }
    lemma_piece_pairs_readable(pieces, i);
}

/// Pairs without a semicolon, rendered and split again at the semicolons,
/// give their own texts and an empty piece at the end.
proof fn lemma_render_split(m: Seq<Pair>)
    requires
        forall|i: int| 0 <= i < m.len() ==> free_of(#[trigger] m[i], ';'),
    ensures
        split_spec(render(m), ';') == m.map_values(|p: Pair| entry_text(p)).push(Seq::empty()),
    decreases m.len(),
{
    let texts = m.map_values(|p: Pair| entry_text(p));
    if m.len() == 0 {
        assert(split_spec(render(m), ';') =~= texts.push(Seq::empty()));
    } else {
        let head = m.drop_last();
        let last = m.last();
        assert forall|i: int| 0 <= i < head.len() implies free_of(#[trigger] head[i], ';') by {
            assert(head[i] == m[i]);
        }
        lemma_render_split(head);
        let head_texts = head.map_values(|p: Pair| entry_text(p));
        assert(free_of(m[m.len() - 1], ';'));
        let entry = entry_text(last);
        assert(!entry.contains(';')) by {
            if entry.contains(';') {
                let j = choose|j: int| 0 <= j < entry.len() && entry[j] == ';';
                if j < last.0.len() {
                    assert(last.0[j] == ';');
                } else if j > last.0.len() {
                    assert(last.1[j - last.0.len() - 1] == ';');
                }
            }
        }
        lemma_split_append(render(head), entry, ';');
        let body = render(head) + entry;
        assert(Seq::<char>::empty() + entry =~= entry);
        assert(split_spec(body, ';') =~= head_texts.push(entry));
        assert(render(m) =~= body.push(';'));
        assert(body.push(';').drop_last() =~= body);
        assert(split_spec(render(m), ';') =~= head_texts.push(entry).push(Seq::empty()));
        assert(texts =~= head_texts.push(entry));
    }
}

/// The text of a pair whose property holds no colon is read back as the
/// pair, whatever colons its value holds.
proof fn lemma_entry_reads_back(p: Pair)
    requires
        !p.0.contains(':'),
    ensures
        split_first_spec(entry_text(p), ':') == Some(p),
{
    let entry = entry_text(p);
    let at = p.0.len() as int;
    lemma_first_index(entry, ':', 0);
    assert(entry[at] == ':');
    assert forall|k: int| 0 <= k < at implies entry[k] != ':' by {
        assert(entry[k] == p.0[k]);
    }
    assert(first_index(entry, ':', 0) == Some(at));
    assert(entry.take(at) =~= p.0);
    assert(entry.skip(at + 1) =~= p.1);
}

/// The texts of pairs whose properties hold no colon are read back as
/// the pairs.
proof fn lemma_entries_read_back(m: Seq<Pair>)
    requires
        forall|i: int| 0 <= i < m.len() ==> !(#[trigger] m[i]).0.contains(':'),
    ensures
        piece_pairs(m.map_values(|p: Pair| entry_text(p))) == m,
    decreases m.len(),
{
    let texts = m.map_values(|p: Pair| entry_text(p));
    if m.len() == 0 {
        assert(piece_pairs(texts) =~= m);
    } else {
        let head = m.drop_last();
        assert forall|i: int| 0 <= i < head.len() implies !(#[trigger] head[i]).0.contains(
            ':',
        ) by {
            assert(head[i] == m[i]);
        }
        lemma_entries_read_back(head);
        assert(texts.drop_last() =~= head.map_values(|p: Pair| entry_text(p)));
        assert(texts.last() == entry_text(m.last()));
        assert(m[m.len() - 1] == m.last());
        lemma_entry_reads_back(m.last());
        assert(head.push(m.last()) =~= m);
    }
}

/// Among pairs without repeated keys, a reading finds for the key of a
/// pair the value of that pair.
proof fn lemma_distinct_value(m: Seq<Pair>, i: int)
    requires
        distinct_keys(m),
        0 <= i < m.len(),
    ensures
        value_of(m, m[i].0) == Some(m[i].1),
    decreases m.len(),
{
    if i < m.len() - 1 {
        assert(m.last() == m[m.len() - 1]);
        assert(m.drop_last()[i] == m[i]);
        lemma_distinct_value(m.drop_last(), i);
    }
}

/// The merged pairs are readable where the declarations are.
proof fn lemma_merged_readable(declarations: Seq<Pair>, literal: Seq<char>)
    requires
        forall|i: int| 0 <= i < declarations.len() ==> readable(#[trigger] declarations[i]),
    ensures
        distinct_keys(merged_pairs(declarations, literal)),
        forall|i: int|
            0 <= i < merged_pairs(declarations, literal).len() ==> readable(
                #[trigger] merged_pairs(declarations, literal)[i],
            ),
{
    let own = parse_style(literal);
    let seeded = put_all(Seq::empty(), declarations);
    let merged = merged_pairs(declarations, literal);
    lemma_put_all(Seq::empty(), declarations);
    lemma_put_all(seeded, own);
    assert forall|i: int| 0 <= i < merged.len() implies readable(#[trigger] merged[i]) by {
        if own.contains(merged[i]) {
            let j = choose|j: int| 0 <= j < own.len() && own[j] == merged[i];
            lemma_parse_style_readable(literal, j);
        } else {
            assert(seeded.contains(merged[i]));
            let j = choose|j: int| 0 <= j < seeded.len() && seeded[j] == merged[i];
            assert(declarations.contains(seeded[j]));
            let h = choose|h: int| 0 <= h < declarations.len() && declarations[h] == seeded[j];
            assert(readable(declarations[h]));
        }
    }
}

/// The merged text, read again as `property:value` pairs between
/// semicolons, each split at its first colon, gives exactly the merged
/// properties: every property of the element's own text and of the
/// declarations, once, with the value that the merge gave it.
///
/// This is stated for declarations that are readable: no semicolon in a
/// name or a value, no colon in a name.
pub proof fn merged_style_reads_back(declarations: Seq<Pair>, literal: Seq<char>)
    requires
        forall|i: int| 0 <= i < declarations.len() ==> readable(#[trigger] declarations[i]),
    ensures
        parse_style(merged_style(declarations, literal)) == merged_pairs(declarations, literal),
        distinct_keys(merged_pairs(declarations, literal)),
{
    let merged = merged_pairs(declarations, literal);
    lemma_merged_readable(declarations, literal);
    assert forall|i: int| 0 <= i < merged.len() implies free_of(#[trigger] merged[i], ';') by {
        assert(readable(merged[i]));
    }
    lemma_render_split(merged);
    let entries = merged.map_values(|p: Pair| entry_text(p));
    let pieces = entries.push(Seq::empty());
    assert(pieces.drop_last() =~= entries);
    assert(split_first_spec(Seq::<char>::empty(), ':') is None);
    assert(piece_pairs(pieces) == piece_pairs(entries));
    assert forall|i: int| 0 <= i < merged.len() implies !(#[trigger] merged[i]).0.contains(
        ':',
    ) by {
        assert(readable(merged[i]));
    }
    lemma_entries_read_back(merged);
}

/// The literal wins: where the `style` text of an element names a
/// property, the merged text, read again as `property:value` pairs
/// between semicolons, each split at its first colon, gives the property
/// the value that the element's own text gave it, colons and all.
///
/// This is stated for declarations that are readable: no semicolon in a
/// name or a value, no colon in a name.
pub proof fn literal_value_survives_merge(
    declarations: Seq<Pair>,
    literal: Seq<char>,
    key: Seq<char>,
)
    requires
        forall|i: int| 0 <= i < declarations.len() ==> readable(#[trigger] declarations[i]),
        value_of(parse_style(literal), key) is Some,
    ensures
        value_of(parse_style(merged_style(declarations, literal)), key) == value_of(
            parse_style(literal),
            key,
        ),
{
    let own = parse_style(literal);
    let value = value_of(own, key)->Some_0;
    let seeded = put_all(Seq::empty(), declarations);
    let merged = merged_pairs(declarations, literal);
    merged_style_reads_back(declarations, literal);
    lemma_put_all(Seq::empty(), declarations);
    lemma_put_all(seeded, own);
    assert(lookup(merged, key) == Some(value));
    lemma_key_position(merged, key, 0);
    let p = key_position(merged, key, 0)->Some_0;
    lemma_distinct_value(merged, p);
}

/// The outline of an element that stands below the node at `parent`, with
/// `base` nodes before it: one row for the element, with its node, its
/// parent and its span, then the outlines of its children.
pub open spec fn element_outline(e: JSXElement, parent: nat, base: nat) -> Seq<Row>
    decreases e, 0nat,
{
    seq![Row { value: element_node(e), parent, key: Some(e.span) }] + children_outline(
        e.children@,
        e.children@.len() as int,
        base,
        base + 1,
    )
}

/// The outline of a fragment.
pub open spec fn fragment_outline(f: JSXFragment, parent: nat, base: nat) -> Seq<Row>
    decreases f, 0nat,
{
    seq![Row { value: fragment_node(), parent, key: Some(f.span) }] + children_outline(
        f.children@,
        f.children@.len() as int,
        base,
        base + 1,
    )
}

/// The outlines of the first `upto` children, one after the other.
pub open spec fn children_outline(
    children: Seq<JSXElementChild>,
    upto: int,
    parent: nat,
    base: nat,
) -> Seq<Row>
    decreases children, upto,
{
    if 0 < upto <= children.len() {
        let before = children_outline(children, upto - 1, parent, base);
        before + match children[upto - 1] {
            JSXElementChild::JSXElement(e) => element_outline(*e, parent, base + before.len()),
            JSXElementChild::JSXFragment(f) => fragment_outline(f, parent, base + before.len()),
            _ => Seq::empty(),
        }
    } else {
        Seq::empty()
    }
}

/// The outline of markup: its elements and fragments in the order of the
/// source, each with the place of the one that holds it.
pub open spec fn markup_outline(m: Markup, parent: nat, base: nat) -> Seq<Row> {
    match m {
        Markup::JSXElement(e) => element_outline(e, parent, base),
        Markup::JSXFragment(f) => fragment_outline(f, parent, base),
    }
}

/// Whether nothing below the element is a reference.
pub open spec fn plain_element(e: JSXElement, components: Seq<Seq<char>>) -> bool
    decreases e, 0nat,
{
    plain_children(e.children@, e.children@.len() as int, components)
}

/// Whether nothing below the fragment is a reference.
pub open spec fn plain_fragment(f: JSXFragment, components: Seq<Seq<char>>) -> bool
    decreases f, 0nat,
{
    plain_children(f.children@, f.children@.len() as int, components)
}

/// Whether none of the first `upto` children is a reference or has one
/// below it.
pub open spec fn plain_children(
    children: Seq<JSXElementChild>,
    upto: int,
    components: Seq<Seq<char>>,
) -> bool
    decreases children, upto,
{
    if 0 < upto <= children.len() {
        &&& plain_children(children, upto - 1, components)
        &&& reference_of(children[upto - 1], components) is None
        &&& match children[upto - 1] {
            JSXElementChild::JSXElement(e) => plain_element(*e, components),
            JSXElementChild::JSXFragment(f) => plain_fragment(f, components),
            _ => true,
        }
    } else {
        true
    }
}

/// Whether the markup holds no reference.
pub open spec fn plain_markup(m: Markup, components: Seq<Seq<char>>) -> bool {
    match m {
        Markup::JSXElement(e) => plain_element(e, components),
        Markup::JSXFragment(f) => plain_fragment(f, components),
    }
}

/// An element without references adds exactly its outline.
pub proof fn plain_element_adds_its_outline(
    program: Program,
    components: Seq<Seq<char>>,
    e: JSXElement,
    parent: nat,
    base: nat,
    fuel: nat,
)
    requires
        plain_element(e, components),
    ensures
        element_rows(program, components, e, parent, base, true, fuel) == element_outline(
            e,
            parent,
            base,
        ),
    decreases e, 0nat,
{
    plain_children_add_their_outline(
        program,
        components,
        e.children@,
        e.children@.len() as int,
        base,
        base + 1,
        fuel,
    );
}

/// A fragment without references adds exactly its outline.
pub proof fn plain_fragment_adds_its_outline(
    program: Program,
    components: Seq<Seq<char>>,
    f: JSXFragment,
    parent: nat,
    base: nat,
    fuel: nat,
)
    requires
        plain_fragment(f, components),
    ensures
        fragment_rows(program, components, f, parent, base, true, fuel) == fragment_outline(
            f,
            parent,
            base,
        ),
    decreases f, 0nat,
{
    plain_children_add_their_outline(
        program,
        components,
        f.children@,
        f.children@.len() as int,
        base,
        base + 1,
        fuel,
    );
}

/// Children without references add exactly their outlines.
pub proof fn plain_children_add_their_outline(
    program: Program,
    components: Seq<Seq<char>>,
    children: Seq<JSXElementChild>,
    upto: int,
    parent: nat,
    base: nat,
    fuel: nat,
)
    requires
        plain_children(children, upto, components),
    ensures
        children_rows(program, components, children, upto, parent, base, true, fuel)
            == children_outline(children, upto, parent, base),
    decreases children, upto,
{
    if 0 < upto <= children.len() {
        plain_children_add_their_outline(
            program,
            components,
            children,
            upto - 1,
            parent,
            base,
            fuel,
        );
        let before = children_outline(children, upto - 1, parent, base);
        let c = children[upto - 1];
        assert(reference_of(c, components) is None);
        let added = child_rows(program, components, c, parent, base + before.len(), true, fuel);
        assert(children_rows(program, components, children, upto, parent, base, true, fuel)
            == before + added);
        match children[upto - 1] {
            JSXElementChild::JSXElement(e) => {
                plain_element_adds_its_outline(
                    program,
                    components,
                    *e,
                    parent,
                    base + before.len(),
                    fuel,
                );
            },
            JSXElementChild::JSXFragment(f) => {
                plain_fragment_adds_its_outline(
                    program,
                    components,
                    f,
                    parent,
                    base + before.len(),
                    fuel,
                );
            },
            _ => {},
        }
    }
}

/// The source tree has the shape of the markup: markup without
/// references adds to the tree exactly its outline, whatever else the
/// unit declares; it adds one node for each of its elements and
/// fragments, in the order of the source, each below the node of the one
/// that holds it and with its tag name and attributes.
pub proof fn plain_markup_adds_its_outline(
    program: Program,
    components: Seq<Seq<char>>,
    m: Markup,
    base: nat,
    fuel: nat,
)
    requires
        plain_markup(m, components),
    ensures
        markup_rows(program, components, m, 0, base, true, fuel) == markup_outline(m, 0, base),
{
    match m {
        Markup::JSXElement(e) => plain_element_adds_its_outline(
            program,
            components,
            e,
            0,
            base,
            fuel,
        ),
        Markup::JSXFragment(f) => plain_fragment_adds_its_outline(
            program,
            components,
            f,
            0,
            base,
            fuel,
        ),
    }
}

/// The span of a row finds the node of that row: after rows have been
/// entered into the record, the first of them as node `base`, the span of
/// row `k` maps to node `base + k`, unless a later row has the same span.
pub proof fn span_finds_its_node(m: Map<SpanKey, nat>, rows: Seq<Row>, base: nat, k: int)
    requires
        0 <= k < rows.len(),
        rows[k].key is Some,
        forall|j: int| k < j < rows.len() ==> (#[trigger] rows[j]).key != rows[k].key,
    ensures
        recorded(m, rows, base).contains_key(rows[k].key->Some_0),
        recorded(m, rows, base)[rows[k].key->Some_0] == base + k,
    decreases rows.len(),
{
    if k < rows.len() - 1 {
        assert(rows.last() == rows[rows.len() - 1]);
        assert(rows.drop_last()[k] == rows[k]);
        assert forall|j: int| k < j < rows.drop_last().len() implies (
        #[trigger] rows.drop_last()[j]).key != rows[k].key by {
            assert(rows.drop_last()[j] == rows[j]);
        }
        span_finds_its_node(m, rows.drop_last(), base, k);
    }
}

/// Every element's span maps to the node built from that element: where
/// markup without references, whose elements and fragments all have
/// different spans, is built into a tree of `base` nodes, the span of the
/// `k`-th of them, in the order of the source, maps to the `k`-th new
/// node, which holds what was made from it.
pub proof fn every_span_maps_to_its_node(
    program: Program,
    components: Seq<Seq<char>>,
    m: Markup,
    record: Map<SpanKey, nat>,
    base: nat,
    fuel: nat,
    k: int,
)
    requires
        plain_markup(m, components),
        0 <= k < markup_outline(m, 0, base).len(),
        forall|i: int, j: int|
            0 <= i < j < markup_outline(m, 0, base).len() ==> (#[trigger] markup_outline(
                m,
                0,
                base,
            )[i]).key != (#[trigger] markup_outline(m, 0, base)[j]).key,
    ensures
        ({
            let rows = markup_rows(program, components, m, 0, base, true, fuel);
            let outline = markup_outline(m, 0, base);
            &&& rows == outline
            &&& outline[k].key is Some
            &&& recorded(record, rows, base).contains_key(outline[k].key->Some_0)
            &&& recorded(record, rows, base)[outline[k].key->Some_0] == base + k
        }),
{
    plain_markup_adds_its_outline(program, components, m, base, fuel);
    let outline = markup_outline(m, 0, base);
    lemma_outline_has_spans(m, base, k);
    span_finds_its_node(record, outline, base, k);
}

/// Every row of an outline has a span.
proof fn lemma_outline_has_spans(m: Markup, base: nat, k: int)
    requires
        0 <= k < markup_outline(m, 0, base).len(),
    ensures
        markup_outline(m, 0, base)[k].key is Some,
{
    match m {
        Markup::JSXElement(e) => lemma_element_outline_spans(e, 0, base),
        Markup::JSXFragment(f) => lemma_fragment_outline_spans(f, 0, base),
    }
}

spec fn with_keys(rows: Seq<Row>) -> bool {
    forall|k: int| 0 <= k < rows.len() ==> (#[trigger] rows[k]).key is Some
}

proof fn lemma_element_outline_spans(e: JSXElement, parent: nat, base: nat)
    ensures
        with_keys(element_outline(e, parent, base)),
    decreases e, 0nat,
{
    lemma_children_outline_spans(e.children@, e.children@.len() as int, base, base + 1);
}

proof fn lemma_fragment_outline_spans(f: JSXFragment, parent: nat, base: nat)
    ensures
        with_keys(fragment_outline(f, parent, base)),
    decreases f, 0nat,
{
    lemma_children_outline_spans(f.children@, f.children@.len() as int, base, base + 1);
}

proof fn lemma_children_outline_spans(
    children: Seq<JSXElementChild>,
    upto: int,
    parent: nat,
    base: nat,
)
    ensures
        with_keys(children_outline(children, upto, parent, base)),
    decreases children, upto,
{
    if 0 < upto <= children.len() {
        lemma_children_outline_spans(children, upto - 1, parent, base);
        let before = children_outline(children, upto - 1, parent, base);
        let added = match children[upto - 1] {
            JSXElementChild::JSXElement(e) => element_outline(*e, parent, base + before.len()),
            JSXElementChild::JSXFragment(f) => fragment_outline(f, parent, base + before.len()),
            _ => Seq::empty(),
        };
        match children[upto - 1] {
            JSXElementChild::JSXElement(e) => {
                lemma_element_outline_spans(*e, parent, base + before.len());
            },
            JSXElementChild::JSXFragment(f) => {
                lemma_fragment_outline_spans(f, parent, base + before.len());
            },
            _ => {},
        }
        let rows = before + added;
        assert forall|k: int| 0 <= k < rows.len() implies (#[trigger] rows[k]).key is Some by {
            if k < before.len() {
                assert(rows[k] == before[k]);
            } else {
                assert(rows[k] == added[k - before.len()]);
            }
        }
    }
}


/// The number of elements and fragments of an element, itself included.
pub open spec fn element_count(e: JSXElement) -> nat
    decreases e, 0nat,
{
    1 + children_count(e.children@, e.children@.len() as int)
}

/// The number of elements and fragments of a fragment, itself included.
pub open spec fn fragment_count(f: JSXFragment) -> nat
    decreases f, 0nat,
{
    1 + children_count(f.children@, f.children@.len() as int)
}

/// The number of elements and fragments among the first `upto` children
/// and below them.
pub open spec fn children_count(children: Seq<JSXElementChild>, upto: int) -> nat
    decreases children, upto,
{
    if 0 < upto <= children.len() {
        children_count(children, upto - 1) + match children[upto - 1] {
            JSXElementChild::JSXElement(e) => element_count(*e),
            JSXElementChild::JSXFragment(f) => fragment_count(f),
            _ => 0nat,
        }
    } else {
        0
    }
}

/// The outline of an element has one row for each of its elements and
/// fragments.
pub proof fn element_outline_counts_nodes(e: JSXElement, parent: nat, base: nat)
    ensures
        element_outline(e, parent, base).len() == element_count(e),
    decreases e, 0nat,
{
    children_outline_counts_nodes(e.children@, e.children@.len() as int, base, base + 1);
}

/// The outline of a fragment has one row for each of its elements and
/// fragments.
pub proof fn fragment_outline_counts_nodes(f: JSXFragment, parent: nat, base: nat)
    ensures
        fragment_outline(f, parent, base).len() == fragment_count(f),
    decreases f, 0nat,
{
    children_outline_counts_nodes(f.children@, f.children@.len() as int, base, base + 1);
}

/// The outline of children has one row for each element and fragment
/// among them and below them.
pub proof fn children_outline_counts_nodes(
    children: Seq<JSXElementChild>,
    upto: int,
    parent: nat,
    base: nat,
)
    ensures
        children_outline(children, upto, parent, base).len() == children_count(children, upto),
    decreases children, upto,
{
    if 0 < upto <= children.len() {
        children_outline_counts_nodes(children, upto - 1, parent, base);
        let before = children_outline(children, upto - 1, parent, base);
        match children[upto - 1] {
            JSXElementChild::JSXElement(e) => {
                element_outline_counts_nodes(*e, parent, base + before.len());
            },
            JSXElementChild::JSXFragment(f) => {
                fragment_outline_counts_nodes(f, parent, base + before.len());
            },
            _ => {},
        }
    }
}

} // verus!
