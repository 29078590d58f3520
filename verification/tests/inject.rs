use style_resolve::merge::{
    attr_is_empty_style, attr_is_style, inject_attr, inject_attrs, merge_attr, merge_object,
    merge_style_text, object_has_key, style_text, PropertyMap,
};
use style_resolve::node::{Element, Node};
use style_resolve::record::{Declaration, JSXRecord, StyleDeclaration, StyleRecord};
use style_resolve::span::SpanKey;
use style_resolve::syntax::{
    Callee, Expr, JSXAttr, JSXAttrName, JSXAttrOrSpread, JSXAttrValue, JSXElement,
    JSXElementChild, JSXElementName, JSXExpr, JSXFragment, JSXNamespacedName, KeyValueProp, Lit,
    ObjectLit, Prop, PropName, PropOrSpread,
};
use style_resolve::text::{split, split_first};
use style_resolve::tree::SourceTree;
use style_resolve::visitor::AstMutVisitor;

fn decl(id: &str, value: &str) -> Declaration {
    Declaration::new(id.to_string(), value.to_string())
}

fn block(pairs: &[(&str, &str)]) -> StyleDeclaration {
    StyleDeclaration { declarations: pairs.iter().map(|(k, v)| decl(k, v)).collect() }
}

fn attr(name: &str, value: Option<JSXAttrValue>) -> JSXAttrOrSpread {
    JSXAttrOrSpread::JSXAttr(JSXAttr { name: JSXAttrName::Ident(name.to_string()), value })
}

fn style_literal(text: &str) -> JSXAttrOrSpread {
    attr("style", Some(JSXAttrValue::Lit(Lit::Str(text.to_string()))))
}

fn key_value(key: &str, value: Expr) -> PropOrSpread {
    PropOrSpread::Prop(Prop::KeyValue(KeyValueProp { key: PropName::Ident(key.to_string()), value }))
}

fn style_object(props: Vec<PropOrSpread>) -> JSXAttrOrSpread {
    attr(
        "style",
        Some(JSXAttrValue::JSXExprContainer(JSXExpr::Expr(Expr::Object(ObjectLit { props })))),
    )
}

fn literal_of(a: &JSXAttrOrSpread) -> String {
    match a {
        JSXAttrOrSpread::JSXAttr(JSXAttr { value: Some(JSXAttrValue::Lit(Lit::Str(s))), .. }) => {
            s.clone()
        }
        other => panic!("not a string literal: {:?}", other),
    }
}

fn props_of(a: &JSXAttrOrSpread) -> &Vec<PropOrSpread> {
    match a {
        JSXAttrOrSpread::JSXAttr(JSXAttr {
            value: Some(JSXAttrValue::JSXExprContainer(JSXExpr::Expr(Expr::Object(o)))),
            ..
        }) => &o.props,
        other => panic!("not an object literal: {:?}", other),
    }
}

fn name_of(a: &JSXAttrOrSpread) -> String {
    match a {
        JSXAttrOrSpread::JSXAttr(JSXAttr { name: JSXAttrName::Ident(n), .. }) => n.clone(),
        _ => String::new(),
    }
}

fn pair_of(p: &PropOrSpread) -> (String, String) {
    match p {
        PropOrSpread::Prop(Prop::KeyValue(KeyValueProp {
            key: PropName::Ident(k),
            value: Expr::Lit(Lit::Str(v)),
        })) => (k.clone(), v.clone()),
        other => panic!("not a string property: {:?}", other),
    }
}

fn reparse(style: &str) -> Vec<(String, String)> {
    let mut pairs: Vec<(String, String)> = vec![];
    for piece in split(style, ';') {
        if let Some((key, value)) = split_first(&piece, ':') {
            pairs.retain(|(k, _)| *k != key);
            pairs.push((key, value));
        }
    }
    pairs
}

#[test]
fn style_text_joins_declarations_in_order() {
    assert_eq!(
        style_text(&vec![decl("color", "red"), decl("width", "10px")]),
        "color:red;width:10px;"
    );
    assert_eq!(style_text(&vec![]), "");
    assert_eq!(
        style_text(&vec![decl("color", "red"), decl("color", "blue")]),
        "color:red;color:blue;"
    );
}

#[test]
fn literal_wins_over_declarations() {
    let merged = merge_style_text(
        &vec![decl("color", "red"), decl("width", "10px")],
        "color:blue;height:5px",
    );
    assert_eq!(merged, "color:blue;width:10px;height:5px;");
}

#[test]
fn literal_pieces_are_split_at_their_first_colon() {
    let merged = merge_style_text(&vec![], "a:b:c;justtext;;x:y;:z");
    assert_eq!(merged, "a:b:c;x:y;:z;");
}

#[test]
fn a_literal_value_with_a_colon_wins_over_the_declaration() {
    let merged = merge_style_text(
        &vec![decl("background", "red"), decl("color", "red")],
        "background:url(http://a/b.png)",
    );
    assert_eq!(merged, "background:url(http://a/b.png);color:red;");
    assert_eq!(
        reparse(&merged),
        vec![
            ("background".to_string(), "url(http://a/b.png)".to_string()),
            ("color".to_string(), "red".to_string()),
        ]
    );
}

#[test]
fn literal_text_is_not_trimmed() {
    let merged = merge_style_text(&vec![decl("color", "red")], "color: blue; width: 1px");
    assert_eq!(merged, "color: blue; width: 1px;");
}

#[test]
fn later_declaration_of_a_property_replaces_the_earlier_one() {
    let merged = merge_style_text(&vec![decl("color", "red"), decl("color", "green")], "");
    assert_eq!(merged, "color:green;");
}

#[test]
fn reparsing_merged_text_gives_back_every_literal_value() {
    let literal = "color:blue;margin:0 auto;color:navy;font:x;mask:url(a:b)";
    let declarations =
        vec![decl("color", "red"), decl("font", "serif"), decl("background", "url(http://a)")];
    let merged = merge_style_text(&declarations, literal);
    let again = reparse(&merged);
    for (key, value) in reparse(literal) {
        let found = again.iter().find(|(k, _)| *k == key).map(|(_, v)| v.clone());
        assert_eq!(found, Some(value), "for {}", key);
    }
    // read back, the text gives every merged property once
    let keys: Vec<&str> = again.iter().map(|(k, _)| k.as_str()).collect();
    assert_eq!(keys, vec!["color", "font", "background", "margin", "mask"]);
    assert!(again.contains(&("background".to_string(), "url(http://a)".to_string())));
}

#[test]
fn property_map_keeps_the_place_of_a_key() {
    let mut map = PropertyMap::new();
    map.insert("a".into(), "1".into());
    map.insert("b".into(), "2".into());
    map.insert("a".into(), "3".into());
    assert_eq!(map.get(&"a".to_string()), Some(&"3".to_string()));
    assert_eq!(map.get(&"c".to_string()), None);
    assert_eq!(map.to_style(), "a:3;b:2;");
}

#[test]
fn object_literal_gets_only_the_missing_declarations() {
    let mut lit = ObjectLit {
        props: vec![
            key_value("color", Expr::Other(SpanKey::new(10, 20))),
            PropOrSpread::Spread,
            PropOrSpread::Prop(Prop::Other),
        ],
    };
    assert!(object_has_key(&lit, "color"));
    assert!(!object_has_key(&lit, "width"));
    merge_object(&mut lit, &vec![decl("color", "red"), decl("width", "10px"), decl("height", "1px")]);
    assert_eq!(lit.props.len(), 5);
    assert!(matches!(&lit.props[0], PropOrSpread::Prop(Prop::KeyValue(KeyValueProp {
        key: PropName::Ident(k),
        value: Expr::Other(span),
    })) if k == "color" && *span == SpanKey::new(10, 20)));
    assert!(matches!(lit.props[1], PropOrSpread::Spread));
    assert!(matches!(lit.props[2], PropOrSpread::Prop(Prop::Other)));
    assert_eq!(pair_of(&lit.props[3]), ("width".to_string(), "10px".to_string()));
    assert_eq!(pair_of(&lit.props[4]), ("height".to_string(), "1px".to_string()));
}

#[test]
fn merging_into_an_object_literal_twice_changes_nothing_more() {
    let declarations = vec![decl("color", "red"), decl("width", "10px"), decl("width", "20px")];
    let mut lit = ObjectLit { props: vec![key_value("color", Expr::Lit(Lit::Str("blue".into())))] };
    merge_object(&mut lit, &declarations);
    let once: Vec<(String, String)> = lit.props.iter().map(pair_of).collect();
    assert_eq!(
        once,
        vec![
            ("color".to_string(), "blue".to_string()),
            ("width".to_string(), "10px".to_string()),
            ("width".to_string(), "20px".to_string()),
        ]
    );
    merge_object(&mut lit, &declarations);
    let twice: Vec<(String, String)> = lit.props.iter().map(pair_of).collect();
    assert_eq!(once, twice);
}

#[test]
fn an_element_without_style_gets_one() {
    let mut attrs = vec![attr("class", Some(JSXAttrValue::Lit(Lit::Str("a".into()))))];
    inject_attrs(&mut attrs, Some(&block(&[("color", "red"), ("width", "10px")])));
    assert_eq!(attrs.len(), 2);
    assert_eq!(name_of(&attrs[0]), "class");
    assert_eq!(name_of(&attrs[1]), "style");
    assert_eq!(literal_of(&attrs[1]), "color:red;width:10px;");
}

#[test]
fn an_element_without_style_and_without_a_block_stays() {
    let mut attrs = vec![attr("class", None), JSXAttrOrSpread::SpreadElement];
    inject_attrs(&mut attrs, None);
    assert_eq!(attrs.len(), 2);
    assert_eq!(name_of(&attrs[0]), "class");
    assert!(matches!(attrs[1], JSXAttrOrSpread::SpreadElement));
}

#[test]
fn an_empty_style_is_replaced_by_the_block() {
    let mut attrs =
        vec![attr("style", Some(JSXAttrValue::JSXExprContainer(JSXExpr::JSXEmptyExpr)))];
    inject_attrs(&mut attrs, Some(&block(&[("color", "red")])));
    assert_eq!(attrs.len(), 1);
    assert_eq!(literal_of(&attrs[0]), "color:red;");

    let mut bare = vec![attr("style", None)];
    inject_attrs(&mut bare, Some(&block(&[("color", "red")])));
    assert_eq!(bare.len(), 1);
    assert_eq!(literal_of(&bare[0]), "color:red;");
}

#[test]
fn an_empty_style_without_a_block_stays_empty() {
    let mut attrs = vec![attr("style", None)];
    inject_attrs(&mut attrs, None);
    assert_eq!(attrs.len(), 1);
    assert!(matches!(&attrs[0], JSXAttrOrSpread::JSXAttr(JSXAttr { value: None, .. })));
    assert!(attr_is_style(&attrs[0]));
    assert!(attr_is_empty_style(&attrs[0]));
}

#[test]
fn a_string_style_is_merged_with_the_block() {
    let mut attrs = vec![style_literal("color:blue")];
    inject_attrs(&mut attrs, Some(&block(&[("color", "red"), ("width", "10px")])));
    assert_eq!(attrs.len(), 1);
    assert_eq!(literal_of(&attrs[0]), "color:blue;width:10px;");
}

#[test]
fn a_string_style_without_a_block_is_written_anew() {
    let mut attrs = vec![style_literal("color:blue;;bad")];
    inject_attrs(&mut attrs, None);
    assert_eq!(literal_of(&attrs[0]), "color:blue;");
}

#[test]
fn an_object_style_is_merged_with_the_block() {
    let mut attrs = vec![style_object(vec![key_value("color", Expr::Other(SpanKey::new(1, 2)))])];
    inject_attrs(&mut attrs, Some(&block(&[("color", "red"), ("width", "10px")])));
    assert_eq!(attrs.len(), 1);
    let props = props_of(&attrs[0]);
    assert_eq!(props.len(), 2);
    assert_eq!(pair_of(&props[1]), ("width".to_string(), "10px".to_string()));
}

#[test]
fn other_shapes_of_style_are_left_alone() {
    let mut attrs = vec![
        attr("style", Some(JSXAttrValue::JSXElement)),
        attr("style", Some(JSXAttrValue::JSXExprContainer(JSXExpr::Expr(Expr::Call(Callee::Other))))),
        attr("style", Some(JSXAttrValue::Lit(Lit::Bool(true)))),
    ];
    inject_attrs(&mut attrs, Some(&block(&[("color", "red")])));
    assert_eq!(attrs.len(), 3);
    assert!(matches!(
        &attrs[0],
        JSXAttrOrSpread::JSXAttr(JSXAttr { value: Some(JSXAttrValue::JSXElement), .. })
    ));
    assert!(matches!(
        &attrs[1],
        JSXAttrOrSpread::JSXAttr(JSXAttr {
            value: Some(JSXAttrValue::JSXExprContainer(JSXExpr::Expr(Expr::Call(Callee::Other)))),
            ..
        })
    ));
    assert!(matches!(
        &attrs[2],
        JSXAttrOrSpread::JSXAttr(JSXAttr { value: Some(JSXAttrValue::Lit(Lit::Bool(true))), .. })
    ));
}

#[test]
fn each_style_is_rewritten_on_its_own() {
    let mut attrs = vec![
        style_literal("color:blue"),
        attr("id", None),
        style_object(vec![key_value("color", Expr::Other(SpanKey::new(1, 2)))]),
        attr("style", None),
    ];
    inject_attrs(&mut attrs, Some(&block(&[("color", "red"), ("width", "1px")])));
    assert_eq!(attrs.len(), 4);
    // the literal wins in the string, the object keeps its own property
    assert_eq!(literal_of(&attrs[0]), "color:blue;width:1px;");
    assert!(matches!(&attrs[1], JSXAttrOrSpread::JSXAttr(JSXAttr { value: None, .. })));
    let props = props_of(&attrs[2]);
    assert_eq!(props.len(), 2);
    assert!(matches!(&props[0], PropOrSpread::Prop(Prop::KeyValue(KeyValueProp {
        value: Expr::Other(span),
        ..
    })) if *span == SpanKey::new(1, 2)));
    assert_eq!(pair_of(&props[1]), ("width".to_string(), "1px".to_string()));
    // only the empty one gets the text of the block
    assert_eq!(literal_of(&attrs[3]), "color:red;width:1px;");
}

#[test]
fn every_kind_of_key_counts_in_an_object_literal() {
    let keyed = |key: PropName| {
        PropOrSpread::Prop(Prop::KeyValue(KeyValueProp {
            key,
            value: Expr::Other(SpanKey::new(1, 2)),
        }))
    };
    let mut lit = ObjectLit {
        props: vec![
            keyed(PropName::Str("width".into())),
            keyed(PropName::Num("1".into())),
            keyed(PropName::BigInt("2".into())),
            keyed(PropName::Computed),
            keyed(PropName::Ident("color".into())),
        ],
    };
    assert!(object_has_key(&lit, "width"));
    assert!(object_has_key(&lit, "1"));
    assert!(object_has_key(&lit, "2"));
    assert!(object_has_key(&lit, "color"));
    assert!(!object_has_key(&lit, "height"));
    assert!(!object_has_key(&lit, ""));
    merge_object(&mut lit, &vec![decl("width", "10px"), decl("height", "1px"), decl("color", "red")]);
    assert_eq!(lit.props.len(), 6);
    assert_eq!(pair_of(&lit.props[5]), ("height".to_string(), "1px".to_string()));
    assert_eq!(PropName::Str("a".into()).text(), Some(&"a".to_string()));
    assert_eq!(PropName::Computed.text(), None);
}

#[test]
fn inject_attr_rewrites_one_attribute() {
    let mut empty = attr("style", Some(JSXAttrValue::JSXExprContainer(JSXExpr::JSXEmptyExpr)));
    inject_attr(&mut empty, Some(&block(&[("color", "red")])));
    assert_eq!(literal_of(&empty), "color:red;");
    let mut text = style_literal("a:b");
    inject_attr(&mut text, None);
    assert_eq!(literal_of(&text), "a:b;");
    let mut other = attr("class", Some(JSXAttrValue::Lit(Lit::Str("a:b".into()))));
    inject_attr(&mut other, Some(&block(&[("color", "red")])));
    assert_eq!(literal_of(&other), "a:b");
}

#[test]
fn a_namespaced_style_is_no_style() {
    let mut a = JSXAttrOrSpread::JSXAttr(JSXAttr {
        name: JSXAttrName::JSXNamespacedName(JSXNamespacedName {
            ns: "x".into(),
            name: "style".into(),
        }),
        value: Some(JSXAttrValue::Lit(Lit::Str("color:blue".into()))),
    });
    assert!(!attr_is_style(&a));
    merge_attr(&mut a, &vec![decl("color", "red")]);
    assert_eq!(literal_of(&a), "color:blue");
}

fn plain_element(lo: u32, hi: u32, attrs: Vec<JSXAttrOrSpread>, children: Vec<JSXElementChild>) -> JSXElement {
    JSXElement { span: SpanKey::new(lo, hi), name: JSXElementName::Ident("view".into()), attrs, children }
}

#[test]
fn visitor_rewrites_recorded_elements_at_every_depth() {
    let mut tree = SourceTree::new(Node::Element(Element::new("root".into(), vec![])));
    let root = tree.root();
    let outer = tree.append(root, Node::Element(Element::new("view".into(), vec![]))).unwrap();
    let inner = tree.append(outer, Node::Element(Element::new("view".into(), vec![]))).unwrap();
    let deep = tree.append(inner, Node::Element(Element::new("view".into(), vec![]))).unwrap();
    let mut jsx_record = JSXRecord::new();
    jsx_record.insert(SpanKey::new(0, 100), outer);
    jsx_record.insert(SpanKey::new(10, 50), inner);
    jsx_record.insert(SpanKey::new(20, 30), deep);
    let mut style_record = StyleRecord::new();
    style_record.insert(outer, block(&[("color", "red")]));
    style_record.insert(deep, block(&[("width", "1px")]));
    let visitor = AstMutVisitor::new(jsx_record, style_record);

    let mut markup = plain_element(
        0,
        100,
        vec![],
        vec![
            JSXElementChild::JSXText,
            JSXElementChild::JSXElement(Box::new(plain_element(
                10,
                50,
                vec![style_literal("a:b")],
                vec![JSXElementChild::JSXFragment(JSXFragment {
                    span: SpanKey::new(15, 40),
                    children: vec![JSXElementChild::JSXElement(Box::new(plain_element(
                        20,
                        30,
                        vec![],
                        vec![],
                    )))],
                })],
            ))),
            JSXElementChild::JSXElement(Box::new(plain_element(60, 70, vec![], vec![]))),
        ],
    );
    visitor.visit_mut_jsx_element(&mut markup);

    assert_eq!(markup.attrs.len(), 1);
    assert_eq!(literal_of(&markup.attrs[0]), "color:red;");
    let JSXElementChild::JSXElement(inner) = &markup.children[1] else { panic!("an element") };
    assert_eq!(literal_of(&inner.attrs[0]), "a:b;");
    let JSXElementChild::JSXFragment(fragment) = &inner.children[0] else { panic!("a fragment") };
    let JSXElementChild::JSXElement(deep) = &fragment.children[0] else { panic!("an element") };
    assert_eq!(literal_of(&deep.attrs[0]), "width:1px;");
    let JSXElementChild::JSXElement(unknown) = &markup.children[2] else { panic!("an element") };
    assert!(unknown.attrs.is_empty());
}

#[test]
fn inject_leaves_the_children_alone() {
    let mut tree = SourceTree::new(Node::Element(Element::new("root".into(), vec![])));
    let root = tree.root();
    let outer = tree.append(root, Node::Element(Element::new("view".into(), vec![]))).unwrap();
    let mut jsx_record = JSXRecord::new();
    jsx_record.insert(SpanKey::new(0, 100), outer);
    jsx_record.insert(SpanKey::new(10, 50), outer);
    let mut style_record = StyleRecord::new();
    style_record.insert(outer, block(&[("color", "red")]));
    let visitor = AstMutVisitor::new(jsx_record, style_record);
    let mut markup = plain_element(
        0,
        100,
        vec![],
        vec![JSXElementChild::JSXElement(Box::new(plain_element(10, 50, vec![], vec![])))],
    );
    visitor.inject(&mut markup);
    assert_eq!(literal_of(&markup.attrs[0]), "color:red;");
    let JSXElementChild::JSXElement(child) = &markup.children[0] else { panic!("an element") };
    assert!(child.attrs.is_empty());
}

#[test]
fn visitor_lets_a_literal_with_a_colon_win() {
    let mut tree = SourceTree::new(Node::Element(Element::new("root".into(), vec![])));
    let root = tree.root();
    let id = tree.append(root, Node::Element(Element::new("div".into(), vec![]))).unwrap();
    let mut jsx_record = JSXRecord::new();
    jsx_record.insert(SpanKey::new(0, 50), id);
    let mut style_record = StyleRecord::new();
    style_record.insert(id, block(&[("background", "red")]));
    let visitor = AstMutVisitor::new(jsx_record, style_record);
    let mut n = plain_element(0, 50, vec![style_literal("background:url(http://a/b.png)")], vec![]);
    visitor.visit_mut_jsx_element(&mut n);
    let text = literal_of(&n.attrs[0]);
    assert_eq!(text, "background:url(http://a/b.png);");
    assert_eq!(
        reparse(&text),
        vec![("background".to_string(), "url(http://a/b.png)".to_string())]
    );
}
