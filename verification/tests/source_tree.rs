use style_resolve::node::{Fragment, Node};
use style_resolve::record::JSXRecord;
use style_resolve::rows::{
    attr_value, child_reference, create_element, create_fragment, is_component, lit_value,
    namespaced_name, recursion_jsx_member, SearchType,
};
use style_resolve::span::SpanKey;
use style_resolve::syntax::{
    Callee, Class, ClassDecl, ClassMember, ClassMethod, DefaultDecl, ExportDefaultDecl,
    ExportDefaultExpr, Expr, FnDecl, Function, ImportDecl, ImportSpecifier, JSXAttr, JSXAttrName,
    JSXAttrOrSpread, JSXAttrValue, JSXElement, JSXElementChild, JSXElementName, JSXExpr,
    JSXFragment, JSXMemberExpr, JSXNamespacedName, JSXObject, Lit, Markup, ModuleItem,
    ObjectLit, Program, PropName, ReturnStmt, Stmt,
};
use style_resolve::tree::SourceTree;
use style_resolve::visitor::{
    count_reference_depth, returned_markup, AstVisitor, CollectVisitor, JSXFragmentVisitor,
    JSXVisitor,
};

fn el(name: &str, lo: u32, hi: u32, children: Vec<JSXElementChild>) -> JSXElement {
    JSXElement {
        span: SpanKey::new(lo, hi),
        name: JSXElementName::Ident(name.to_string()),
        attrs: vec![],
        children,
    }
}

fn child(e: JSXElement) -> JSXElementChild {
    JSXElementChild::JSXElement(Box::new(e))
}

fn call(name: &str) -> JSXElementChild {
    JSXElementChild::JSXExprContainer(JSXExpr::Expr(Expr::Call(Callee::Ident(name.to_string()))))
}

fn this_call(name: &str) -> JSXElementChild {
    JSXElementChild::JSXExprContainer(JSXExpr::Expr(Expr::Call(Callee::ThisMember(
        name.to_string(),
    ))))
}

fn returning(markup: Option<Markup>) -> Function {
    Function { body: Some(vec![Stmt::Other, Stmt::Return(ReturnStmt { arg: markup })]) }
}

fn function(name: &str, e: JSXElement) -> ModuleItem {
    ModuleItem::FnDecl(FnDecl {
        ident: name.to_string(),
        function: returning(Some(Markup::JSXElement(e))),
    })
}

fn method(name: &str, e: JSXElement) -> ClassMember {
    ClassMember::Method(ClassMethod {
        key: PropName::Ident(name.to_string()),
        function: returning(Some(Markup::JSXElement(e))),
    })
}

fn new_tree() -> SourceTree {
    SourceTree::new(Node::Fragment(Fragment::new(None)))
}

fn label(node: &Node) -> String {
    match node {
        Node::Element(e) => e.name.clone(),
        Node::Fragment(f) => format!("#{}", f.name.clone().unwrap_or_default()),
    }
}

/// The tree as text: each node with its children in brackets.
fn shape(tree: &SourceTree, id: ego_tree::NodeId) -> String {
    let mut s = label(tree.value(id).unwrap());
    let children = tree.child_ids(id);
    if !children.is_empty() {
        let inner: Vec<String> = children.iter().map(|c| shape(tree, *c)).collect();
        s.push_str(&format!("[{}]", inner.join(",")));
    }
    s
}

fn build(program: &Program, components: &Vec<String>, e: &JSXElement) -> (SourceTree, JSXRecord) {
    let mut tree = new_tree();
    let mut record = JSXRecord::new();
    let mut visitor = JSXVisitor::new(program, components);
    visitor.visit_jsx_element(&mut tree, &mut record, e);
    (tree, record)
}

#[test]
fn plain_markup_keeps_its_shape() {
    let program = Program { body: vec![] };
    let components = vec![];
    let markup = el(
        "view",
        0,
        100,
        vec![
            child(el("text", 10, 20, vec![])),
            JSXElementChild::JSXText,
            JSXElementChild::JSXFragment(JSXFragment {
                span: SpanKey::new(20, 60),
                children: vec![child(el("image", 30, 40, vec![child(el("a", 31, 39, vec![]))]))],
            }),
            JSXElementChild::JSXSpreadChild,
            JSXElementChild::JSXExprContainer(JSXExpr::JSXEmptyExpr),
            child(el("button", 60, 90, vec![])),
        ],
    );
    let (tree, record) = build(&program, &components, &markup);
    assert_eq!(tree.len(), 7);
    assert_eq!(shape(&tree, tree.root()), "#[view[text,#__Fragment__[image[a]],button]]");
    let ids = tree.node_ids();
    assert_eq!(record.get(&SpanKey::new(0, 100)), Some(ids[1]));
    assert_eq!(record.get(&SpanKey::new(10, 20)), Some(ids[2]));
    assert_eq!(record.get(&SpanKey::new(20, 60)), Some(ids[3]));
    assert_eq!(record.get(&SpanKey::new(30, 40)), Some(ids[4]));
    assert_eq!(record.get(&SpanKey::new(31, 39)), Some(ids[5]));
    assert_eq!(record.get(&SpanKey::new(60, 90)), Some(ids[6]));
    assert_eq!(label(tree.value(ids[4]).unwrap()), "image");
    assert_eq!(tree.parent(ids[4]), Some(ids[3]));
    assert_eq!(record.get(&SpanKey::new(0, 99)), None);
}

#[test]
fn the_first_markup_sets_root_and_current_node() {
    let program = Program { body: vec![] };
    let components = vec![];
    let mut tree = new_tree();
    let mut record = JSXRecord::new();
    let mut visitor = JSXVisitor::new(&program, &components);
    assert!(visitor.root_node.is_none());
    assert!(visitor.current_node.is_none());
    visitor.visit_jsx_element(&mut tree, &mut record, &el("view", 0, 10, vec![]));
    let ids = tree.node_ids();
    assert_eq!(visitor.root_node, Some(ids[0]));
    assert_eq!(visitor.current_node, Some(ids[1]));
    // with a root, an element only gives its children to the current node
    visitor.visit_jsx_element(
        &mut tree,
        &mut record,
        &el("ignored", 20, 30, vec![child(el("text", 21, 29, vec![]))]),
    );
    assert_eq!(shape(&tree, tree.root()), "#[view[text]]");
    assert_eq!(record.get(&SpanKey::new(20, 30)), None);
    assert_eq!(visitor.current_node, Some(ids[1]));
}

#[test]
fn children_without_a_current_node_add_nothing() {
    let program = Program { body: vec![] };
    let components = vec![];
    let mut tree = new_tree();
    let mut record = JSXRecord::new();
    let mut visitor = JSXVisitor::new(&program, &components);
    visitor.visit_jsx_element_children(&mut tree, &mut record, &vec![child(el("a", 0, 1, vec![]))]);
    assert_eq!(tree.len(), 1);
    assert_eq!(record.get(&SpanKey::new(0, 1)), None);
}

#[test]
fn a_fragment_as_first_markup_becomes_a_fragment_node() {
    let program = Program { body: vec![] };
    let components = vec![];
    let mut tree = new_tree();
    let mut record = JSXRecord::new();
    let mut visitor = JSXVisitor::new(&program, &components);
    visitor.visit_jsx_fragment(
        &mut tree,
        &mut record,
        &JSXFragment { span: SpanKey::new(0, 9), children: vec![child(el("a", 1, 8, vec![]))] },
    );
    assert_eq!(shape(&tree, tree.root()), "#[#__Fragment__[a]]");
    assert_eq!(record.get(&SpanKey::new(0, 9)), Some(tree.node_ids()[1]));
}

#[test]
fn a_component_reference_is_replaced_by_what_it_returns() {
    let program = Program {
        body: vec![
            function("Card", el("view", 200, 300, vec![child(el("text", 210, 220, vec![]))])),
            function("Card", el("never", 400, 500, vec![])),
        ],
    };
    let components = vec!["View".to_string()];
    let markup = el(
        "page",
        0,
        100,
        vec![
            child(el("Card", 10, 20, vec![child(el("lost", 11, 19, vec![]))])),
            child(el("View", 20, 30, vec![])),
            child(el("Missing", 30, 40, vec![])),
            child(el("footer", 40, 50, vec![])),
        ],
    );
    let (tree, record) = build(&program, &components, &markup);
    assert_eq!(shape(&tree, tree.root()), "#[page[view[text],View,footer]]");
    // what was put in for the reference is not recorded
    assert_eq!(record.get(&SpanKey::new(200, 300)), None);
    assert_eq!(record.get(&SpanKey::new(210, 220)), None);
    assert_eq!(record.get(&SpanKey::new(10, 20)), None);
    assert_eq!(record.get(&SpanKey::new(20, 30)), Some(tree.node_ids()[4]));
    assert_eq!(record.get(&SpanKey::new(40, 50)), Some(tree.node_ids()[5]));
}

#[test]
fn calls_are_references_too() {
    let program = Program {
        body: vec![
            function("renderHead", el("head", 200, 210, vec![])),
            ModuleItem::ClassDecl(ClassDecl {
                ident: "Page".into(),
                class: Class {
                    body: vec![
                        ClassMember::Other,
                        method("renderHead", el("classhead", 300, 310, vec![])),
                        method("renderFoot", el("foot", 320, 330, vec![])),
                    ],
                },
            }),
        ],
    };
    let components = vec![];
    let markup = el(
        "page",
        0,
        100,
        vec![
            call("renderHead"),
            this_call("renderHead"),
            this_call("renderFoot"),
            call("renderFoot"),
            JSXElementChild::JSXExprContainer(JSXExpr::Expr(Expr::Call(Callee::Other))),
            JSXElementChild::JSXExprContainer(JSXExpr::Expr(Expr::Other(SpanKey::new(1, 2)))),
        ],
    );
    let (tree, _) = build(&program, &components, &markup);
    assert_eq!(shape(&tree, tree.root()), "#[page[head,classhead,foot]]");
}

#[test]
fn references_inside_references_are_followed() {
    let program = Program {
        body: vec![
            function("Outer", el("outer", 200, 300, vec![child(el("Inner", 210, 220, vec![]))])),
            function("Inner", el("inner", 400, 500, vec![])),
        ],
    };
    let components = vec![];
    let markup = el("page", 0, 100, vec![child(el("Outer", 10, 20, vec![]))]);
    let (tree, _) = build(&program, &components, &markup);
    assert_eq!(shape(&tree, tree.root()), "#[page[outer[inner]]]");
}

#[test]
fn a_reference_to_itself_ends() {
    let program = Program {
        body: vec![function("Loop", el("loop", 200, 300, vec![child(el("Loop", 210, 220, vec![]))]))],
    };
    let components = vec![];
    assert_eq!(count_reference_depth(&program), 1);
    let markup = el("page", 0, 100, vec![child(el("Loop", 10, 20, vec![]))]);
    let (tree, _) = build(&program, &components, &markup);
    assert_eq!(shape(&tree, tree.root()), "#[page[loop]]");
}

#[test]
fn the_first_declaration_decides_even_without_markup() {
    let program = Program {
        body: vec![
            ModuleItem::FnDecl(FnDecl { ident: "Card".into(), function: returning(None) }),
            function("Card", el("late", 400, 500, vec![])),
        ],
    };
    let components = vec![];
    let markup = el("page", 0, 100, vec![child(el("Card", 10, 20, vec![]))]);
    let (tree, _) = build(&program, &components, &markup);
    assert_eq!(shape(&tree, tree.root()), "#[page]");
}

#[test]
fn fragment_visitor_finds_functions_and_methods() {
    let program = Program {
        body: vec![
            ModuleItem::ExportDefaultDecl(ExportDefaultDecl {
                decl: DefaultDecl::Class(Class {
                    body: vec![method("head", el("from-default", 1, 2, vec![]))],
                }),
            }),
            function("head", el("from-function", 3, 4, vec![])),
        ],
    };
    let components = vec![];
    let finder = JSXFragmentVisitor::new(&program, &components, "head", SearchType::Normal);
    match finder.visit_program() {
        Some(Markup::JSXElement(e)) => assert_eq!(e.span, SpanKey::new(3, 4)),
        other => panic!("found {:?}", other),
    }
    let finder = JSXFragmentVisitor::new(&program, &components, "head", SearchType::Class);
    match finder.visit_program() {
        Some(Markup::JSXElement(e)) => assert_eq!(e.span, SpanKey::new(1, 2)),
        other => panic!("found {:?}", other),
    }
    let finder = JSXFragmentVisitor::new(&program, &components, "tail", SearchType::Class);
    assert!(finder.visit_program().is_none());
}

#[test]
fn returned_markup_is_that_of_the_first_return() {
    let f = Function {
        body: Some(vec![
            Stmt::Other,
            Stmt::Return(ReturnStmt { arg: None }),
            Stmt::Return(ReturnStmt { arg: Some(Markup::JSXElement(el("late", 0, 1, vec![]))) }),
        ]),
    };
    assert!(returned_markup(&f).is_none());
    assert!(returned_markup(&Function { body: None }).is_none());
    let g = returning(Some(Markup::JSXFragment(JSXFragment {
        span: SpanKey::new(5, 6),
        children: vec![],
    })));
    assert!(matches!(returned_markup(&g), Some(Markup::JSXFragment(f)) if f.span == SpanKey::new(5, 6)));
}

#[test]
fn create_element_reads_names_and_attribute_values() {
    let attr = |name: JSXAttrName, value: Option<JSXAttrValue>| {
        JSXAttrOrSpread::JSXAttr(JSXAttr { name, value })
    };
    let ident = |s: &str| JSXAttrName::Ident(s.to_string());
    let lit = |l: Lit| Some(JSXAttrValue::Lit(l));
    let braces = |e: Expr| Some(JSXAttrValue::JSXExprContainer(JSXExpr::Expr(e)));
    let e = JSXElement {
        span: SpanKey::new(0, 1),
        name: JSXElementName::JSXMemberExpr(JSXMemberExpr {
            obj: JSXObject::JSXMemberExpr(Box::new(JSXMemberExpr {
                obj: JSXObject::Ident("a".into()),
                prop: "b".into(),
            })),
            prop: "c".into(),
        }),
        attrs: vec![
            attr(ident("s"), lit(Lit::Str("text".into()))),
            attr(ident("n"), lit(Lit::Num("1.5".into()))),
            attr(ident("t"), lit(Lit::Bool(true))),
            attr(ident("f"), lit(Lit::Bool(false))),
            attr(ident("z"), lit(Lit::Null)),
            attr(ident("big"), lit(Lit::BigInt("123".into()))),
            attr(ident("re"), lit(Lit::Regex("a+".into()))),
            attr(ident("jt"), lit(Lit::JSXText("jsx".into()))),
            JSXAttrOrSpread::SpreadElement,
            attr(ident("empty"), Some(JSXAttrValue::JSXExprContainer(JSXExpr::JSXEmptyExpr))),
            attr(ident("inl"), braces(Expr::Lit(Lit::Num("2".into())))),
            attr(ident("obj"), braces(Expr::Object(ObjectLit { props: vec![] }))),
            attr(ident("other"), braces(Expr::Other(SpanKey::new(1, 2)))),
            attr(ident("el"), Some(JSXAttrValue::JSXElement)),
            attr(ident("fr"), Some(JSXAttrValue::JSXFragment)),
            attr(ident("bare"), None),
            attr(
                JSXAttrName::JSXNamespacedName(JSXNamespacedName {
                    ns: "xlink".into(),
                    name: "href".into(),
                }),
                lit(Lit::Str("#".into())),
            ),
        ],
        children: vec![],
    };
    let Node::Element(node) = create_element(&e) else { panic!("an element") };
    assert_eq!(node.name, "a.b.c");
    let got: Vec<(String, String)> =
        node.attrs.iter().map(|a| (a.name.clone(), a.value.clone())).collect();
    let expected: Vec<(String, String)> = [
        ("s", "text"),
        ("n", "1.5"),
        ("t", "true"),
        ("f", "false"),
        ("z", "null"),
        ("big", "123"),
        ("re", "a+"),
        ("jt", "jsx"),
        ("empty", ""),
        ("inl", "2"),
        ("obj", ""),
        ("other", ""),
        ("el", ""),
        ("fr", ""),
        ("bare", ""),
        ("xlink:href", "#"),
    ]
    .iter()
    .map(|(k, v)| (k.to_string(), v.to_string()))
    .collect();
    assert_eq!(got, expected);
}

#[test]
fn names_are_joined_with_their_separators() {
    assert_eq!(
        recursion_jsx_member(&JSXMemberExpr { obj: JSXObject::Ident("a".into()), prop: "b".into() }),
        "a.b"
    );
    assert_eq!(
        namespaced_name(&JSXNamespacedName { ns: "svg".into(), name: "rect".into() }),
        "svg:rect"
    );
    let e = JSXElement {
        span: SpanKey::new(0, 1),
        name: JSXElementName::JSXNamespacedName(JSXNamespacedName {
            ns: "svg".into(),
            name: "rect".into(),
        }),
        attrs: vec![],
        children: vec![],
    };
    assert!(matches!(create_element(&e), Node::Element(n) if n.name == "svg:rect"));
    assert!(matches!(create_fragment(), Node::Fragment(f) if f.name == Some("__Fragment__".to_string())));
    assert_eq!(lit_value(&Lit::Null), "null");
    assert_eq!(attr_value(&None), "");
}

#[test]
fn only_unknown_uppercase_names_are_references() {
    let components = vec!["View".to_string(), "Text".to_string()];
    assert!(is_component(&components, "Text"));
    assert!(!is_component(&components, "text"));
    assert_eq!(
        child_reference(&child(el("Card", 0, 1, vec![])), &components),
        Some(("Card", SearchType::Normal))
    );
    assert_eq!(child_reference(&child(el("View", 0, 1, vec![])), &components), None);
    assert_eq!(child_reference(&child(el("view", 0, 1, vec![])), &components), None);
    assert_eq!(child_reference(&call("f"), &components), Some(("f", SearchType::Normal)));
    assert_eq!(child_reference(&this_call("m"), &components), Some(("m", SearchType::Class)));
    assert_eq!(child_reference(&JSXElementChild::JSXText, &components), None);
    let member = JSXElement {
        span: SpanKey::new(0, 1),
        name: JSXElementName::JSXMemberExpr(JSXMemberExpr {
            obj: JSXObject::Ident("A".into()),
            prop: "B".into(),
        }),
        attrs: vec![],
        children: vec![],
    };
    assert_eq!(child_reference(&child(member), &components), None);
}

#[test]
fn collect_visitor_notes_default_export_and_components() {
    let mut v = CollectVisitor::new();
    assert!(v.export_default_name.is_none());
    assert!(v.taro_components.is_empty());
    v.visit_export_default_expr(&ExportDefaultExpr { ident: None });
    assert!(v.export_default_name.is_none());
    v.visit_export_default_expr(&ExportDefaultExpr { ident: Some("Index".into()) });
    v.visit_export_default_expr(&ExportDefaultExpr { ident: Some("Other".into()) });
    assert_eq!(v.export_default_name, Some("Index".to_string()));
    v.visit_import_decl(&ImportDecl {
        src: "react".into(),
        specifiers: vec![ImportSpecifier::Named("useState".into())],
    });
    assert!(v.taro_components.is_empty());
    v.visit_import_decl(&ImportDecl {
        src: "@tarojs/components".into(),
        specifiers: vec![
            ImportSpecifier::Named("View".into()),
            ImportSpecifier::Other,
            ImportSpecifier::Named("Text".into()),
        ],
    });
    v.visit_module_item(&ModuleItem::ImportDecl(ImportDecl {
        src: "@tarojs/components-rn".into(),
        specifiers: vec![ImportSpecifier::Named("Image".into())],
    }));
    v.visit_module_item(&ModuleItem::ExportDefaultExpr(ExportDefaultExpr {
        ident: Some("Late".into()),
    }));
    v.visit_module_item(&function("f", el("a", 0, 1, vec![])));
    assert_eq!(v.taro_components, vec!["View", "Text", "Image"]);
    assert_eq!(v.export_default_name, Some("Index".to_string()));

    let mut whole = CollectVisitor::new();
    whole.visit_program(&Program {
        body: vec![
            function("f", el("a", 0, 1, vec![])),
            ModuleItem::ImportDecl(ImportDecl {
                src: "@tarojs/components".into(),
                specifiers: vec![ImportSpecifier::Named("View".into())],
            }),
            ModuleItem::ExportDefaultExpr(ExportDefaultExpr { ident: Some("Page".into()) }),
        ],
    });
    assert_eq!(whole.taro_components, vec!["View"]);
    assert_eq!(whole.export_default_name, Some("Page".to_string()));
}

#[test]
fn ast_visitor_builds_from_the_default_export() {
    let program = Program {
        body: vec![
            ModuleItem::ImportDecl(ImportDecl { src: "x".into(), specifiers: vec![] }),
            function("Helper", el("helper", 200, 300, vec![])),
            ModuleItem::FnDecl(FnDecl {
                ident: "Index".into(),
                function: Function {
                    body: Some(vec![
                        Stmt::Return(ReturnStmt {
                            arg: Some(Markup::JSXElement(el(
                                "page",
                                0,
                                100,
                                vec![child(el("Helper", 10, 20, vec![]))],
                            ))),
                        }),
                        Stmt::Other,
                        Stmt::Return(ReturnStmt { arg: None }),
                        Stmt::Return(ReturnStmt {
                            arg: Some(Markup::JSXFragment(JSXFragment {
                                span: SpanKey::new(110, 120),
                                children: vec![],
                            })),
                        }),
                    ]),
                },
            }),
            ModuleItem::ExportDefaultExpr(ExportDefaultExpr { ident: Some("Index".into()) }),
            ModuleItem::ClassDecl(ClassDecl {
                ident: "Index".into(),
                class: Class {
                    body: vec![
                        method("other", el("no", 500, 510, vec![])),
                        method("render", el("rendered", 520, 530, vec![])),
                    ],
                },
            }),
            ModuleItem::ClassDecl(ClassDecl {
                ident: "Else".into(),
                class: Class { body: vec![method("render", el("no", 600, 610, vec![]))] },
            }),
            ModuleItem::ExportDefaultDecl(ExportDefaultDecl {
                decl: DefaultDecl::Fn(returning(Some(Markup::JSXElement(el(
                    "inline",
                    700,
                    710,
                    vec![],
                ))))),
            }),
            ModuleItem::ExportDefaultDecl(ExportDefaultDecl {
                decl: DefaultDecl::Class(Class {
                    body: vec![method("render", el("inline-class", 800, 810, vec![]))],
                }),
            }),
            ModuleItem::ExportDefaultDecl(ExportDefaultDecl { decl: DefaultDecl::Other }),
        ],
    };
    let name = Some("Index".to_string());
    let components = vec![];
    let mut visitor = AstVisitor::new(&program, new_tree(), JSXRecord::new(), &name, &components);
    visitor.visit_program();
    assert_eq!(
        shape(&visitor.tree, visitor.tree.root()),
        "#[page[helper],#__Fragment__,rendered,inline,inline-class]"
    );
    let ids = visitor.tree.node_ids();
    assert_eq!(visitor.jsx_record.get(&SpanKey::new(0, 100)), Some(ids[1]));
    assert_eq!(visitor.jsx_record.get(&SpanKey::new(110, 120)), Some(ids[3]));
    assert_eq!(visitor.jsx_record.get(&SpanKey::new(520, 530)), Some(ids[4]));
    assert_eq!(visitor.jsx_record.get(&SpanKey::new(200, 300)), None);
    assert_eq!(visitor.jsx_record.get(&SpanKey::new(600, 610)), None);
}

#[test]
fn ast_visitor_without_a_default_name_takes_only_inline_exports() {
    let program = Program {
        body: vec![
            function("Index", el("page", 0, 100, vec![])),
            ModuleItem::ExportDefaultDecl(ExportDefaultDecl {
                decl: DefaultDecl::Fn(returning(Some(Markup::JSXElement(el(
                    "inline",
                    700,
                    710,
                    vec![],
                ))))),
            }),
        ],
    };
    let name = None;
    let components = vec![];
    let mut visitor = AstVisitor::new(&program, new_tree(), JSXRecord::new(), &name, &components);
    visitor.visit_program();
    assert_eq!(shape(&visitor.tree, visitor.tree.root()), "#[inline]");
}

#[test]
fn reference_depth_counts_functions_and_methods() {
    let program = Program {
        body: vec![
            function("a", el("a", 0, 1, vec![])),
            ModuleItem::ClassDecl(ClassDecl {
                ident: "C".into(),
                class: Class {
                    body: vec![method("m", el("m", 0, 1, vec![])), ClassMember::Other],
                },
            }),
            ModuleItem::ExportDefaultDecl(ExportDefaultDecl {
                decl: DefaultDecl::Class(Class { body: vec![method("n", el("n", 0, 1, vec![]))] }),
            }),
            ModuleItem::ExportDefaultDecl(ExportDefaultDecl { decl: DefaultDecl::Other }),
            ModuleItem::ExportDefaultExpr(ExportDefaultExpr { ident: None }),
        ],
    };
    assert_eq!(count_reference_depth(&program), 4);
    assert_eq!(count_reference_depth(&Program { body: vec![] }), 0);
}

#[test]
fn depth_and_recording_can_be_set() {
    let program = Program { body: vec![function("Card", el("card", 200, 300, vec![]))] };
    let components = vec![];
    let markup = el("page", 0, 100, vec![child(el("Card", 10, 20, vec![])), child(el("a", 20, 30, vec![]))]);
    let mut tree = new_tree();
    let mut record = JSXRecord::new();
    let mut visitor = JSXVisitor::new(&program, &components);
    assert_eq!(visitor.depth, 1);
    assert!(visitor.recording);
    visitor.depth = 0;
    visitor.recording = false;
    visitor.visit_jsx_element(&mut tree, &mut record, &markup);
    assert_eq!(shape(&tree, tree.root()), "#[page[a]]");
    assert_eq!(record.get(&SpanKey::new(0, 100)), None);
    assert_eq!(record.get(&SpanKey::new(20, 30)), None);
}

#[test]
fn class_search_is_for_methods_only() {
    let program = Program { body: vec![] };
    let components = vec![];
    let class = Class { body: vec![method("head", el("h", 1, 2, vec![]))] };
    let finder = JSXFragmentVisitor::new(&program, &components, "head", SearchType::Normal);
    assert!(finder.visit_class(&class).is_none());
    let finder = JSXFragmentVisitor::new(&program, &components, "head", SearchType::Class);
    assert!(finder.visit_class(&class).is_some());
    let decl = FnDecl { ident: "head".into(), function: returning(None) };
    assert!(finder.visit_fn_decl(&decl).is_none());
    let finder = JSXFragmentVisitor::new(&program, &components, "head", SearchType::Normal);
    assert!(finder.visit_fn_decl(&decl).is_some());
    let ClassMember::Method(m) = &class.body[0] else { panic!("a method") };
    assert!(finder.visit_class_method(m).is_none());
}
