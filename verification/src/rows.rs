//! What markup adds to a source tree, stated as rows of the node table.

use vstd::prelude::*;
use crate::node::{
    Attribute, AttributeView, Element, ElementView, Fragment, FragmentView, Node, NodeView,
};
use crate::span::SpanKey;
use crate::syntax::{
    Callee, ClassMember, DefaultDecl, Expr, Function, ImportSpecifier, JSXAttrName, JSXAttrOrSpread,
    JSXAttrValue, JSXElement, JSXElementChild, JSXElementName, JSXExpr, JSXFragment, JSXMemberExpr,
    JSXNamespacedName, JSXObject, Lit, Markup, ModuleItem, Program, PropNameView, ReturnStmt, Stmt,
};
use crate::text::{
    is_starts_with_uppercase, owned, push_text, same_text, starts_with_uppercase, texts,
};
use crate::tree::TreeRow;

verus! {

/// How a reference names what it stands for.
#[derive(Clone, Copy, Debug, PartialEq, Eq, Structural)]
pub enum SearchType {
    /// By the name of a function declaration.
    Normal,
    /// By the name of a class method, as in `this.name()`.
    Class,
}

/// One row that markup adds: the value of the new node, the position of
/// its parent, and the span under which the node is recorded, if it is.
pub ghost struct Row {
    pub value: NodeView,
    pub parent: nat,
    pub key: Option<SpanKey>,
}

/// The rows as they stand in the node table.
pub open spec fn tree_rows(rows: Seq<Row>) -> Seq<TreeRow> {
    rows.map_values(|r: Row| TreeRow { value: r.value, parent: Some(r.parent) })
}

/// A member name as text: its parts with dots between them.
pub open spec fn member_text(m: JSXMemberExpr) -> Seq<char>
    decreases m,
{
    match m.obj {
        JSXObject::Ident(s) => s@ + "."@ + m.prop@,
        JSXObject::JSXMemberExpr(inner) => member_text(*inner) + "."@ + m.prop@,
    }
}

/// A name with a namespace as text: `ns:name`.
pub open spec fn namespaced_text(n: JSXNamespacedName) -> Seq<char> {
    n.ns@ + ":"@ + n.name@
}

/// The tag name of an element as text.
pub open spec fn element_name_text(n: JSXElementName) -> Seq<char> {
    match n {
        JSXElementName::Ident(s) => s@,
        JSXElementName::JSXMemberExpr(m) => member_text(m),
        JSXElementName::JSXNamespacedName(n) => namespaced_text(n),
    }
}

/// The name of an attribute as text.
pub open spec fn attr_name_text(n: JSXAttrName) -> Seq<char> {
    match n {
        JSXAttrName::Ident(s) => s@,
        JSXAttrName::JSXNamespacedName(n) => namespaced_text(n),
    }
}

/// A literal as the text of an attribute value.
pub open spec fn lit_text(l: Lit) -> Seq<char> {
    match l {
        Lit::Str(s) => s@,
        Lit::Bool(b) => if b {
            "true"@
        } else {
            "false"@
        },
        Lit::Null => "null"@,
        Lit::Num(s) => s@,
        Lit::BigInt(s) => s@,
        Lit::Regex(s) => s@,
        Lit::JSXText(s) => s@,
    }
}

/// The value of an attribute as text: that of a literal, bare or in
/// braces; nothing for anything else, empty braces among it.
pub open spec fn attr_value_text(v: Option<JSXAttrValue>) -> Seq<char> {
    match v {
        Some(JSXAttrValue::Lit(l)) => lit_text(l),
        Some(JSXAttrValue::JSXExprContainer(JSXExpr::Expr(Expr::Lit(l)))) => lit_text(l),
        _ => Seq::empty(),
    }
}

/// The attributes that a node gets from those of an element: one for
/// each attribute that is not a spread, in order.
pub open spec fn element_attrs(attrs: Seq<JSXAttrOrSpread>) -> Seq<AttributeView>
    decreases attrs.len(),
{
    if attrs.len() == 0 {
        Seq::empty()
    } else {
        let before = element_attrs(attrs.drop_last());
        match attrs.last() {
            JSXAttrOrSpread::JSXAttr(a) => before.push(
                AttributeView { name: attr_name_text(a.name), value: attr_value_text(a.value) },
            ),
            JSXAttrOrSpread::SpreadElement => before,
        }
    }
}

/// The node that an element becomes.
pub open spec fn element_node(e: JSXElement) -> NodeView {
    NodeView::Element(
        ElementView { name: element_name_text(e.name), attrs: element_attrs(e.attrs@) },
    )
}

/// The node that a fragment becomes.
pub open spec fn fragment_node() -> NodeView {
    NodeView::Fragment(FragmentView { name: Some("__Fragment__"@) })
}

/// The first `return` statement among the statements, from `from` on.
pub open spec fn first_return(stmts: Seq<Stmt>, from: int) -> Option<ReturnStmt>
    decreases stmts.len() - from,
{
    if 0 <= from < stmts.len() {
        match stmts[from] {
            Stmt::Return(r) => Some(r),
            Stmt::Other => first_return(stmts, from + 1),
        }
    } else {
        None
    }
}

/// The markup that a function hands back: that of its first `return`
/// statement.
pub open spec fn function_markup(f: Function) -> Option<Markup> {
    match f.body {
        Some(stmts) => match first_return(stmts@, 0) {
            Some(r) => r.arg,
            None => None,
        },
        None => None,
    }
}

/// The first method named `name` among the members, from `from` on.
pub open spec fn find_method(members: Seq<ClassMember>, name: Seq<char>, from: int) -> Option<
    Function,
>
    decreases members.len() - from,
{
    if 0 <= from < members.len() {
        match members[from] {
            ClassMember::Method(m) => if m.key@ == PropNameView::Ident(name) {
                Some(m.function)
            } else {
                find_method(members, name, from + 1)
            },
            ClassMember::Other => find_method(members, name, from + 1),
        }
    } else {
        None
    }
}

/// The function that the declaration offers for a reference to `name`.
pub open spec fn item_function(item: ModuleItem, name: Seq<char>, kind: SearchType) -> Option<
    Function,
> {
    match kind {
        SearchType::Normal => match item {
            ModuleItem::FnDecl(d) => if d.ident@ == name {
                Some(d.function)
            } else {
                None
            },
            _ => None,
        },
        SearchType::Class => match item {
            ModuleItem::ClassDecl(d) => find_method(d.class.body@, name, 0),
            ModuleItem::ExportDefaultDecl(d) => match d.decl {
                DefaultDecl::Class(c) => find_method(c.body@, name, 0),
                _ => None,
            },
            _ => None,
        },
    }
}

/// The function of the first declaration, from `from` on, that offers one
/// for a reference to `name`.
pub open spec fn find_declaration(
    items: Seq<ModuleItem>,
    name: Seq<char>,
    kind: SearchType,
    from: int,
) -> Option<Function>
    decreases items.len() - from,
{
    if 0 <= from < items.len() {
        match item_function(items[from], name, kind) {
            Some(f) => Some(f),
            None => find_declaration(items, name, kind, from + 1),
        }
    } else {
        None
    }
}

/// The markup that a reference to `name` stands for: what the first
/// declaration of that name in the unit hands back from its first `return`
/// statement.
pub open spec fn resolve(program: Program, name: Seq<char>, kind: SearchType) -> Option<Markup> {
    match find_declaration(program.body@, name, kind, 0) {
        Some(f) => function_markup(f),
        None => None,
    }
}

/// Whether a child element with this tag name is a reference to markup
/// declared elsewhere: a plain name that starts with an uppercase letter
/// and is not one of the primitive components.
pub open spec fn is_reference(name: JSXElementName, components: Seq<Seq<char>>) -> bool {
    match name {
        JSXElementName::Ident(s) => is_starts_with_uppercase(s@) && !components.contains(s@),
        _ => false,
    }
}

/// The rows that an element adds when it is put below the node at
/// `parent`, with `base` nodes in the table before it: one for the element
/// itself, then those of its children.
pub open spec fn element_rows(
    program: Program,
    components: Seq<Seq<char>>,
    e: JSXElement,
    parent: nat,
    base: nat,
    record: bool,
    fuel: nat,
) -> Seq<Row>
    decreases fuel, e, 0nat,
{
    seq![
        Row {
            value: element_node(e),
            parent,
            key: if record {
                Some(e.span)
            } else {
                None
            },
        },
    ] + children_rows(
        program,
        components,
        e.children@,
        e.children@.len() as int,
        base,
        base + 1,
        record,
        fuel,
    )
}

/// The rows that a fragment adds when it is put below the node at
/// `parent`.
pub open spec fn fragment_rows(
    program: Program,
    components: Seq<Seq<char>>,
    f: JSXFragment,
    parent: nat,
    base: nat,
    record: bool,
    fuel: nat,
) -> Seq<Row>
    decreases fuel, f, 0nat,
{
    seq![
        Row {
            value: fragment_node(),
            parent,
            key: if record {
                Some(f.span)
            } else {
                None
            },
        },
    ] + children_rows(
        program,
        components,
        f.children@,
        f.children@.len() as int,
        base,
        base + 1,
        record,
        fuel,
    )
}

/// The rows that the markup of a `return` statement adds below `parent`.
pub open spec fn markup_rows(
    program: Program,
    components: Seq<Seq<char>>,
    m: Markup,
    parent: nat,
    base: nat,
    record: bool,
    fuel: nat,
) -> Seq<Row> {
    match m {
        Markup::JSXElement(e) => element_rows(program, components, e, parent, base, record, fuel),
        Markup::JSXFragment(f) => fragment_rows(program, components, f, parent, base, record, fuel),
    }
}

/// The rows that the first `upto` of the children add below `parent`,
/// each child after what those before it added.
pub open spec fn children_rows(
    program: Program,
    components: Seq<Seq<char>>,
    children: Seq<JSXElementChild>,
    upto: int,
    parent: nat,
    base: nat,
    record: bool,
    fuel: nat,
) -> Seq<Row>
    decreases fuel, children, upto,
{
    if 0 < upto <= children.len() {
        let before = children_rows(
            program,
            components,
            children,
            upto - 1,
            parent,
            base,
            record,
            fuel,
        );
        before + child_rows(
            program,
            components,
            children[upto - 1],
            parent,
            base + before.len(),
            record,
            fuel,
        )
    } else {
        Seq::empty()
    }
}

/// What a reference is resolved by: the name and the kind of search, where
/// the child is a reference at all.
pub open spec fn reference_of(c: JSXElementChild, components: Seq<Seq<char>>) -> Option<
    (Seq<char>, SearchType),
> {
    match c {
        JSXElementChild::JSXElement(e) => match e.name {
            JSXElementName::Ident(s) => if is_reference(e.name, components) {
                Some((s@, SearchType::Normal))
            } else {
                None
            },
            _ => None,
        },
        JSXElementChild::JSXExprContainer(JSXExpr::Expr(Expr::Call(Callee::Ident(s)))) => Some(
            (s@, SearchType::Normal),
        ),
        JSXElementChild::JSXExprContainer(JSXExpr::Expr(Expr::Call(Callee::ThisMember(s)))) => Some(
            (s@, SearchType::Class),
        ),
        _ => None,
    }
}

/// The rows that one child adds below `parent`.
///
/// A reference adds the rows of the markup that it stands for, none of
/// them recorded; it adds nothing where nothing is declared under its name
/// or where `fuel` references have been followed into each other already.
/// An element or a fragment adds its own rows. Any other child adds
/// nothing.
pub open spec fn child_rows(
    program: Program,
    components: Seq<Seq<char>>,
    c: JSXElementChild,
    parent: nat,
    base: nat,
    record: bool,
    fuel: nat,
) -> Seq<Row>
    decreases fuel, c, 0nat,
{
    match reference_of(c, components) {
        Some((name, kind)) => if fuel > 0 {
            match resolve(program, name, kind) {
                Some(Markup::JSXElement(e)) => element_rows(
                    program,
                    components,
                    e,
                    parent,
                    base,
                    false,
                    (fuel - 1) as nat,
                ),
                Some(Markup::JSXFragment(f)) => fragment_rows(
                    program,
                    components,
                    f,
                    parent,
                    base,
                    false,
                    (fuel - 1) as nat,
                ),
                None => Seq::empty(),
            }
        } else {
            Seq::empty()
        },
        None => match c {
            JSXElementChild::JSXElement(e) => element_rows(
                program,
                components,
                *e,
                parent,
                base,
                record,
                fuel,
            ),
            JSXElementChild::JSXFragment(f) => fragment_rows(
                program,
                components,
                f,
                parent,
                base,
                record,
                fuel,
            ),
            _ => Seq::empty(),
        },
    }
}

/// The record after the rows have been entered, the first of them as node
/// `base`: a later row under the same span replaces an earlier one.
pub open spec fn recorded(m: Map<SpanKey, nat>, rows: Seq<Row>, base: nat) -> Map<SpanKey, nat>
    decreases rows.len(),
{
    if rows.len() == 0 {
        m
    } else {
        let before = recorded(m, rows.drop_last(), base);
        match rows.last().key {
            Some(k) => before.insert(k, (base + rows.len() - 1) as nat),
            None => before,
        }
    }
}


/// A member name as text: its parts with dots between them.
pub fn recursion_jsx_member(expr: &JSXMemberExpr) -> (s: String)
    ensures
        s@ == member_text(*expr),
    decreases expr,
{
    let mut s = match &expr.obj {
        JSXObject::Ident(ident) => ident.clone(),
        JSXObject::JSXMemberExpr(inner) => recursion_jsx_member(inner),
    };
    push_text(&mut s, ".");
    push_text(&mut s, expr.prop.as_str());
    s
}

/// A name with a namespace as text: `ns:name`.
pub fn namespaced_name(n: &JSXNamespacedName) -> (s: String)
    ensures
        s@ == namespaced_text(*n),
{
    let mut s = n.ns.clone();
    push_text(&mut s, ":");
    push_text(&mut s, n.name.as_str());
    s
}

/// A literal as the text of an attribute value.
pub fn lit_value(l: &Lit) -> (s: String)
    ensures
        s@ == lit_text(*l),
{
    match l {
        Lit::Str(s) => s.clone(),
        Lit::Bool(b) => if *b {
            owned("true")
        } else {
            owned("false")
        },
        Lit::Null => owned("null"),
        Lit::Num(s) => s.clone(),
        Lit::BigInt(s) => s.clone(),
        Lit::Regex(s) => s.clone(),
        Lit::JSXText(s) => s.clone(),
    }
}

/// The value of an attribute as text.
pub fn attr_value(v: &Option<JSXAttrValue>) -> (s: String)
    ensures
        s@ == attr_value_text(*v),
{
    match v {
        Some(JSXAttrValue::Lit(l)) => lit_value(l),
        Some(JSXAttrValue::JSXExprContainer(JSXExpr::Expr(Expr::Lit(l)))) => lit_value(l),
        _ => String::new(),
    }
}

/// The node that an element becomes: its tag name as text, and one
/// attribute for each of its attributes that is not a spread.
pub fn create_element(jsx_element: &JSXElement) -> (n: Node)
    ensures
        n@ == element_node(*jsx_element),
{
    let name = match &jsx_element.name {
        JSXElementName::Ident(ident) => ident.clone(),
        JSXElementName::JSXMemberExpr(expr) => recursion_jsx_member(expr),
        JSXElementName::JSXNamespacedName(namespaced) => namespaced_name(namespaced),
    };
    let mut attributes: Vec<Attribute> = Vec::new();
    let ghost views: Seq<AttributeView> = Seq::empty();
    let mut i: usize = 0;
    while i < jsx_element.attrs.len()
        invariant
            i <= jsx_element.attrs.len(),
            views == element_attrs(jsx_element.attrs@.take(i as int)),
            views == attributes@.map_values(|a: Attribute| a@),
        decreases jsx_element.attrs.len() - i,
    {
        proof {
            assert(jsx_element.attrs@.take(i + 1).drop_last() == jsx_element.attrs@.take(i as int));
        }
        match &jsx_element.attrs[i] {
            JSXAttrOrSpread::JSXAttr(attr) => {
                let name = match &attr.name {
                    JSXAttrName::Ident(ident) => ident.clone(),
                    JSXAttrName::JSXNamespacedName(namespaced) => namespaced_name(namespaced),
                };
                let value = attr_value(&attr.value);
                let attribute = Attribute::new(name, value);
                proof {
                    views = views.push(attribute@);
                }
                attributes.push(attribute);
                assert(views =~= attributes@.map_values(|a: Attribute| a@));
            },
            JSXAttrOrSpread::SpreadElement => {},
        }
        i += 1;
    }
    assert(jsx_element.attrs@.take(jsx_element.attrs.len() as int) == jsx_element.attrs@);
    Node::Element(Element::new(name, attributes))
}

/// The node that a fragment becomes.
pub fn create_fragment() -> (n: Node)
    ensures
        n@ == fragment_node(),
{
    Node::Fragment(Fragment::new(Some(owned("__Fragment__"))))
}

/// Whether one of the primitive components has this name.
pub fn is_component(components: &Vec<String>, name: &str) -> (r: bool)
    ensures
        r == texts(components@).contains(name@),
{
    let mut i: usize = 0;
    while i < components.len()
        invariant
            i <= components.len(),
            forall|k: int| 0 <= k < i ==> texts(components@)[k] != name@,
        decreases components.len() - i,
    {
        if same_text(components[i].as_str(), name) {
            assert(texts(components@)[i as int] == name@);
            return true;
        }
        i += 1;
    }
    false
}

/// Rows entered one part after the other are entered as a whole.
pub proof fn lemma_recorded_concat(m: Map<SpanKey, nat>, a: Seq<Row>, b: Seq<Row>, base: nat)
    ensures
        recorded(m, a + b, base) == recorded(recorded(m, a, base), b, base + a.len()),
    decreases b.len(),
{
    if b.len() == 0 {
        assert(a + b =~= a);
    } else {
        lemma_recorded_concat(m, a, b.drop_last(), base);
        assert((a + b).drop_last() =~= a + b.drop_last());
        assert((a + b).last() == b.last());
    }
}


/// What a reference is resolved by, where the child is a reference.
pub fn child_reference<'a>(c: &'a JSXElementChild, components: &Vec<String>) -> (r: Option<
    (&'a str, SearchType),
>)
    ensures
        match r {
            Some((name, kind)) => reference_of(*c, texts(components@)) == Some((name@, kind)),
            None => reference_of(*c, texts(components@)) is None,
        },
{
    match c {
        JSXElementChild::JSXElement(element) => match &element.name {
            JSXElementName::Ident(ident) => {
                if starts_with_uppercase(ident.as_str()) && !is_component(
                    components,
                    ident.as_str(),
                ) {
                    Some((ident.as_str(), SearchType::Normal))
                } else {
                    None
                }
            },
            _ => None,
        },
        JSXElementChild::JSXExprContainer(JSXExpr::Expr(Expr::Call(Callee::Ident(name)))) => Some(
            (name.as_str(), SearchType::Normal),
        ),
        JSXElementChild::JSXExprContainer(
            JSXExpr::Expr(Expr::Call(Callee::ThisMember(name))),
        ) => Some((name.as_str(), SearchType::Class)),
        _ => None,
    }
}

/// Rows without a span leave the record as it is.
pub proof fn lemma_recorded_without_keys(m: Map<SpanKey, nat>, rows: Seq<Row>, base: nat)
    requires
        forall|k: int| 0 <= k < rows.len() ==> (#[trigger] rows[k]).key is None,
    ensures
        recorded(m, rows, base) == m,
    decreases rows.len(),
{
    if rows.len() > 0 {
        assert(rows.last() == rows[rows.len() - 1]);
        let head = rows.drop_last();
        assert forall|k: int| 0 <= k < head.len() implies (#[trigger] head[k]).key is None by {
            assert(head[k] == rows[k]);
        }
        lemma_recorded_without_keys(m, head, base);
    }
}

/// Whether none of the rows has a span.
pub open spec fn without_keys(rows: Seq<Row>) -> bool {
    forall|k: int| 0 <= k < rows.len() ==> (#[trigger] rows[k]).key is None
}

/// An element that is not recorded adds rows without spans.
pub proof fn lemma_unrecorded_element(
    program: Program,
    components: Seq<Seq<char>>,
    e: JSXElement,
    parent: nat,
    base: nat,
    fuel: nat,
)
    ensures
        without_keys(element_rows(program, components, e, parent, base, false, fuel)),
    decreases fuel, e, 0nat,
{
    lemma_unrecorded_children(
        program,
        components,
        e.children@,
        e.children@.len() as int,
        base,
        base + 1,
        fuel,
    );
}

/// A fragment that is not recorded adds rows without spans.
pub proof fn lemma_unrecorded_fragment(
    program: Program,
    components: Seq<Seq<char>>,
    f: JSXFragment,
    parent: nat,
    base: nat,
    fuel: nat,
)
    ensures
        without_keys(fragment_rows(program, components, f, parent, base, false, fuel)),
    decreases fuel, f, 0nat,
{
    lemma_unrecorded_children(
        program,
        components,
        f.children@,
        f.children@.len() as int,
        base,
        base + 1,
        fuel,
    );
}

/// Children that are not recorded add rows without spans.
pub proof fn lemma_unrecorded_children(
    program: Program,
    components: Seq<Seq<char>>,
    children: Seq<JSXElementChild>,
    upto: int,
    parent: nat,
    base: nat,
    fuel: nat,
)
    ensures
        without_keys(children_rows(program, components, children, upto, parent, base, false, fuel)),
    decreases fuel, children, upto,
{
    if 0 < upto <= children.len() {
        lemma_unrecorded_children(program, components, children, upto - 1, parent, base, fuel);
        let before = children_rows(
            program,
            components,
            children,
            upto - 1,
            parent,
            base,
            false,
            fuel,
        );
        let c = children[upto - 1];
        if reference_of(c, components) is Some {
            let at = base + before.len();
            lemma_rows_of_references(program, components, c, parent, at, false, fuel);
        } else {
            match c {
                JSXElementChild::JSXElement(e) => {
                    let at = base + before.len();
                    lemma_unrecorded_element(program, components, *e, parent, at, fuel);
                },
                JSXElementChild::JSXFragment(f) => {
                    let at = base + before.len();
                    lemma_unrecorded_fragment(program, components, f, parent, at, fuel);
                },
                _ => {},
            }
        }
        let added = child_rows(program, components, c, parent, base + before.len(), false, fuel);
        assert(without_keys(added));
        let rows = before + added;
        assert forall|k: int| 0 <= k < rows.len() implies (#[trigger] rows[k]).key is None by {
            if k < before.len() {
                assert(rows[k] == before[k]);
            } else {
                assert(rows[k] == added[k - before.len()]);
            }
        }
    }
}

/// What a reference adds has no spans, whether or not the place of the
/// reference is recorded.
pub proof fn lemma_rows_of_references(
    program: Program,
    components: Seq<Seq<char>>,
    c: JSXElementChild,
    parent: nat,
    base: nat,
    record: bool,
    fuel: nat,
)
    requires
        reference_of(c, components) is Some,
    ensures
        without_keys(child_rows(program, components, c, parent, base, record, fuel)),
    decreases fuel, c, 0nat,
{
    let (name, kind) = reference_of(c, components)->Some_0;
    if fuel > 0 {
        match resolve(program, name, kind) {
            Some(Markup::JSXElement(e)) => {
                lemma_unrecorded_element(program, components, e, parent, base, (fuel - 1) as nat);
            },
            Some(Markup::JSXFragment(f)) => {
                lemma_unrecorded_fragment(program, components, f, parent, base, (fuel - 1) as nat);
            },
            None => {},
        }
    }
}


/// The rows that the markup of a `return` statement adds to the tree: it
/// goes below the root, and is recorded.
pub open spec fn return_rows(
    program: Program,
    components: Seq<Seq<char>>,
    r: ReturnStmt,
    base: nat,
    fuel: nat,
) -> Seq<Row> {
    match r.arg {
        Some(m) => markup_rows(program, components, m, 0, base, true, fuel),
        None => Seq::empty(),
    }
}

/// The rows that the first `upto` statements of a function body add: those
/// of each `return` statement among them, in order.
pub open spec fn statements_rows(
    program: Program,
    components: Seq<Seq<char>>,
    stmts: Seq<Stmt>,
    upto: int,
    base: nat,
    fuel: nat,
) -> Seq<Row>
    decreases upto,
{
    if 0 < upto <= stmts.len() {
        let before = statements_rows(program, components, stmts, upto - 1, base, fuel);
        match stmts[upto - 1] {
            Stmt::Return(r) => before + return_rows(
                program,
                components,
                r,
                base + before.len(),
                fuel,
            ),
            Stmt::Other => before,
        }
    } else {
        Seq::empty()
    }
}

/// The rows that a function adds: those of the `return` statements of its
/// body.
pub open spec fn function_rows(
    program: Program,
    components: Seq<Seq<char>>,
    f: Function,
    base: nat,
    fuel: nat,
) -> Seq<Row> {
    match f.body {
        Some(stmts) => statements_rows(
            program,
            components,
            stmts@,
            stmts@.len() as int,
            base,
            fuel,
        ),
        None => Seq::empty(),
    }
}

/// Whether the member is a method named `render`.
pub open spec fn is_render(m: ClassMember) -> bool {
    m matches ClassMember::Method(method) && method.key@ == PropNameView::Ident("render"@)
}

/// The rows that the first `upto` members of a class add: those of each
/// method named `render` among them.
pub open spec fn class_rows(
    program: Program,
    components: Seq<Seq<char>>,
    members: Seq<ClassMember>,
    upto: int,
    base: nat,
    fuel: nat,
) -> Seq<Row>
    decreases upto,
{
    if 0 < upto <= members.len() {
        let before = class_rows(program, components, members, upto - 1, base, fuel);
        match members[upto - 1] {
            ClassMember::Method(method) => if is_render(members[upto - 1]) {
                before + function_rows(
                    program,
                    components,
                    method.function,
                    base + before.len(),
                    fuel,
                )
            } else {
                before
            },
            ClassMember::Other => before,
        }
    } else {
        Seq::empty()
    }
}

/// The rows that one declaration of the unit adds, where `default_name`
/// is the name that the unit exports by default: those of the function or
/// the class of that name, and those of a function or class that is
/// declared as the default export.
pub open spec fn item_rows(
    program: Program,
    components: Seq<Seq<char>>,
    default_name: Option<Seq<char>>,
    item: ModuleItem,
    base: nat,
    fuel: nat,
) -> Seq<Row> {
    match item {
        ModuleItem::FnDecl(d) => if default_name == Some(d.ident@) {
            function_rows(program, components, d.function, base, fuel)
        } else {
            Seq::empty()
        },
        ModuleItem::ClassDecl(d) => if default_name == Some(d.ident@) {
            class_rows(program, components, d.class.body@, d.class.body@.len() as int, base, fuel)
        } else {
            Seq::empty()
        },
        ModuleItem::ExportDefaultDecl(d) => match d.decl {
            DefaultDecl::Fn(f) => function_rows(program, components, f, base, fuel),
            DefaultDecl::Class(c) => class_rows(
                program,
                components,
                c.body@,
                c.body@.len() as int,
                base,
                fuel,
            ),
            DefaultDecl::Other => Seq::empty(),
        },
        _ => Seq::empty(),
    }
}

/// The rows that the first `upto` declarations of the unit add.
pub open spec fn program_rows(
    program: Program,
    components: Seq<Seq<char>>,
    default_name: Option<Seq<char>>,
    upto: int,
    base: nat,
    fuel: nat,
) -> Seq<Row>
    decreases upto,
{
    if 0 < upto <= program.body@.len() {
        let before = program_rows(program, components, default_name, upto - 1, base, fuel);
        before + item_rows(
            program,
            components,
            default_name,
            program.body@[upto - 1],
            base + before.len(),
            fuel,
        )
    } else {
        Seq::empty()
    }
}

/// The local names of the named imports among the specifiers, in order.
pub open spec fn named_locals(specifiers: Seq<ImportSpecifier>) -> Seq<Seq<char>>
    decreases specifiers.len(),
{
    if specifiers.len() == 0 {
        Seq::empty()
    } else {
        let before = named_locals(specifiers.drop_last());
        match specifiers.last() {
            ImportSpecifier::Named(local) => before.push(local@),
            ImportSpecifier::Other => before,
        }
    }
}

} // verus!
