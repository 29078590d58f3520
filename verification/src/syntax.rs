//! The markup-in-script syntax tree, reduced to what style resolution reads
//! and rewrites.

use vstd::prelude::*;
use crate::span::SpanKey;

verus! {

/// A literal. Numbers and big integers are held as their decimal text.
#[derive(Debug, PartialEq)]
pub enum Lit {
    Str(String),
    Bool(bool),
    Null,
    Num(String),
    BigInt(String),
    Regex(String),
    JSXText(String),
}

pub ghost enum LitView {
    Str(Seq<char>),
    Bool(bool),
    Null,
    Num(Seq<char>),
    BigInt(Seq<char>),
    Regex(Seq<char>),
    JSXText(Seq<char>),
}

impl View for Lit {
    type V = LitView;

    open spec fn view(&self) -> LitView {
        match self {
            Lit::Str(s) => LitView::Str(s@),
            Lit::Bool(b) => LitView::Bool(*b),
            Lit::Null => LitView::Null,
            Lit::Num(s) => LitView::Num(s@),
            Lit::BigInt(s) => LitView::BigInt(s@),
            Lit::Regex(s) => LitView::Regex(s@),
            Lit::JSXText(s) => LitView::JSXText(s@),
        }
    }
}

/// The key of an object property or the name of a class method: an
/// identifier, a string, a number or a big integer, each with its text, or
/// a key that is computed when the unit runs.
#[derive(Debug, PartialEq)]
pub enum PropName {
    Ident(String),
    Str(String),
    Num(String),
    BigInt(String),
    Computed,
}

pub ghost enum PropNameView {
    Ident(Seq<char>),
    Str(Seq<char>),
    Num(Seq<char>),
    BigInt(Seq<char>),
    Computed,
}

impl View for PropName {
    type V = PropNameView;

    open spec fn view(&self) -> PropNameView {
        match self {
            PropName::Ident(s) => PropNameView::Ident(s@),
            PropName::Str(s) => PropNameView::Str(s@),
            PropName::Num(s) => PropNameView::Num(s@),
            PropName::BigInt(s) => PropNameView::BigInt(s@),
            PropName::Computed => PropNameView::Computed,
        }
    }
}

impl PropNameView {
    /// The key as text; none for a key that is computed.
    pub open spec fn text(self) -> Option<Seq<char>> {
        match self {
            PropNameView::Ident(s) => Some(s),
            PropNameView::Str(s) => Some(s),
            PropNameView::Num(s) => Some(s),
            PropNameView::BigInt(s) => Some(s),
            PropNameView::Computed => None,
        }
    }
}

impl PropName {
    /// The key as text; none for a key that is computed.
    pub fn text(&self) -> (r: Option<&String>)
        ensures
            match r {
                Some(s) => self@.text() == Some(s@),
                None => self@.text() is None,
            },
    {
        match self {
            PropName::Ident(s) => Some(s),
            PropName::Str(s) => Some(s),
            PropName::Num(s) => Some(s),
            PropName::BigInt(s) => Some(s),
            PropName::Computed => None,
        }
    }
}

/// What a call expression calls, as far as references are resolved by it.
#[derive(Debug, PartialEq)]
pub enum Callee {
    /// A plain identifier: `name(..)`.
    Ident(String),
    /// A member of `this`: `this.name(..)`.
    ThisMember(String),
    Other,
}

pub ghost enum CalleeView {
    Ident(Seq<char>),
    ThisMember(Seq<char>),
    Other,
}

impl View for Callee {
    type V = CalleeView;

    open spec fn view(&self) -> CalleeView {
        match self {
            Callee::Ident(s) => CalleeView::Ident(s@),
            Callee::ThisMember(s) => CalleeView::ThisMember(s@),
            Callee::Other => CalleeView::Other,
        }
    }
}

/// An expression. One that is neither a literal, an object literal nor a
/// call is known by its span only.
#[derive(Debug, PartialEq)]
pub enum Expr {
    Lit(Lit),
    Object(ObjectLit),
    Call(Callee),
    Other(SpanKey),
}

#[derive(Debug, PartialEq)]
pub struct KeyValueProp {
    pub key: PropName,
    pub value: Expr,
}

#[derive(Debug, PartialEq)]
pub enum Prop {
    KeyValue(KeyValueProp),
    Other,
}

#[derive(Debug, PartialEq)]
pub enum PropOrSpread {
    Spread,
    Prop(Prop),
}

#[derive(Debug, PartialEq)]
pub struct ObjectLit {
    pub props: Vec<PropOrSpread>,
}

pub ghost enum ExprView {
    Lit(LitView),
    Object(Seq<PropOrSpreadView>),
    Call(CalleeView),
    Other(SpanKey),
}

pub ghost enum PropOrSpreadView {
    Spread,
    KeyValue(PropNameView, ExprView),
    Other,
}

/// The view of an expression.
pub open spec fn expr_view(e: Expr) -> ExprView
    decreases e, 0nat,
{
    match e {
        Expr::Lit(l) => ExprView::Lit(l@),
        Expr::Object(o) => ExprView::Object(props_view(o.props@)),
        Expr::Call(c) => ExprView::Call(c@),
        Expr::Other(span) => ExprView::Other(span),
    }
}

/// The views of the properties of an object literal.
pub open spec fn props_view(props: Seq<PropOrSpread>) -> Seq<PropOrSpreadView>
    decreases props, 1nat,
{
    Seq::new(
        props.len(),
        |i: int|
            if 0 <= i < props.len() {
                prop_view(props[i])
            } else {
                PropOrSpreadView::Other
            },
    )
}

/// The view of one property of an object literal.
pub open spec fn prop_view(p: PropOrSpread) -> PropOrSpreadView
    decreases p, 0nat,
{
    match p {
        PropOrSpread::Spread => PropOrSpreadView::Spread,
        PropOrSpread::Prop(Prop::KeyValue(kv)) => PropOrSpreadView::KeyValue(
            kv.key@,
            expr_view(kv.value),
        ),
        PropOrSpread::Prop(Prop::Other) => PropOrSpreadView::Other,
    }
}

impl View for Expr {
    type V = ExprView;

    open spec fn view(&self) -> ExprView {
        expr_view(*self)
    }
}

impl PropOrSpreadView {
    /// The key of the property as text, where it is a key-value property
    /// whose key is not computed.
    pub open spec fn key_text(self) -> Option<Seq<char>> {
        match self {
            PropOrSpreadView::KeyValue(name, _) => name.text(),
            _ => None,
        }
    }
}

impl View for PropOrSpread {
    type V = PropOrSpreadView;

    open spec fn view(&self) -> PropOrSpreadView {
        prop_view(*self)
    }
}

impl View for ObjectLit {
    type V = Seq<PropOrSpreadView>;

    open spec fn view(&self) -> Seq<PropOrSpreadView> {
        props_view(self.props@)
    }
}

/// What stands between the braces of an expression container.
#[derive(Debug, PartialEq)]
pub enum JSXExpr {
    JSXEmptyExpr,
    Expr(Expr),
}

pub ghost enum JSXExprView {
    JSXEmptyExpr,
    Expr(ExprView),
}

impl View for JSXExpr {
    type V = JSXExprView;

    open spec fn view(&self) -> JSXExprView {
        match self {
            JSXExpr::JSXEmptyExpr => JSXExprView::JSXEmptyExpr,
            JSXExpr::Expr(e) => JSXExprView::Expr(e@),
        }
    }
}

/// The value of an attribute. An element or a fragment in that place is
/// noted, not held.
#[derive(Debug, PartialEq)]
pub enum JSXAttrValue {
    Lit(Lit),
    JSXExprContainer(JSXExpr),
    JSXElement,
    JSXFragment,
}

pub ghost enum JSXAttrValueView {
    Lit(LitView),
    JSXExprContainer(JSXExprView),
    JSXElement,
    JSXFragment,
}

impl View for JSXAttrValue {
    type V = JSXAttrValueView;

    open spec fn view(&self) -> JSXAttrValueView {
        match self {
            JSXAttrValue::Lit(l) => JSXAttrValueView::Lit(l@),
            JSXAttrValue::JSXExprContainer(e) => JSXAttrValueView::JSXExprContainer(e@),
            JSXAttrValue::JSXElement => JSXAttrValueView::JSXElement,
            JSXAttrValue::JSXFragment => JSXAttrValueView::JSXFragment,
        }
    }
}

/// A name with a namespace: `ns:name`.
#[derive(Debug, PartialEq)]
pub struct JSXNamespacedName {
    pub ns: String,
    pub name: String,
}

#[derive(Debug, PartialEq)]
pub enum JSXAttrName {
    Ident(String),
    JSXNamespacedName(JSXNamespacedName),
}

pub ghost enum JSXAttrNameView {
    Ident(Seq<char>),
    JSXNamespacedName(Seq<char>, Seq<char>),
}

impl View for JSXAttrName {
    type V = JSXAttrNameView;

    open spec fn view(&self) -> JSXAttrNameView {
        match self {
            JSXAttrName::Ident(s) => JSXAttrNameView::Ident(s@),
            JSXAttrName::JSXNamespacedName(n) => JSXAttrNameView::JSXNamespacedName(n.ns@, n.name@),
        }
    }
}

#[derive(Debug, PartialEq)]
pub struct JSXAttr {
    pub name: JSXAttrName,
    pub value: Option<JSXAttrValue>,
}

pub ghost struct JSXAttrView {
    pub name: JSXAttrNameView,
    pub value: Option<JSXAttrValueView>,
}

impl View for JSXAttr {
    type V = JSXAttrView;

    open spec fn view(&self) -> JSXAttrView {
        JSXAttrView {
            name: self.name@,
            value: match self.value {
                Some(v) => Some(v@),
                None => None,
            },
        }
    }
}

#[derive(Debug, PartialEq)]
pub enum JSXAttrOrSpread {
    JSXAttr(JSXAttr),
    SpreadElement,
}

pub ghost enum JSXAttrOrSpreadView {
    JSXAttr(JSXAttrView),
    SpreadElement,
}

impl View for JSXAttrOrSpread {
    type V = JSXAttrOrSpreadView;

    open spec fn view(&self) -> JSXAttrOrSpreadView {
        match self {
            JSXAttrOrSpread::JSXAttr(a) => JSXAttrOrSpreadView::JSXAttr(a@),
            JSXAttrOrSpread::SpreadElement => JSXAttrOrSpreadView::SpreadElement,
        }
    }
}

/// The views of a list of attributes.
pub open spec fn attr_views(attrs: Seq<JSXAttrOrSpread>) -> Seq<JSXAttrOrSpreadView> {
    attrs.map_values(|a: JSXAttrOrSpread| a@)
}

/// The object of a member name: an identifier or another member name.
#[derive(Debug, PartialEq)]
pub enum JSXObject {
    Ident(String),
    JSXMemberExpr(Box<JSXMemberExpr>),
}

/// A member name: `obj.prop`.
#[derive(Debug, PartialEq)]
pub struct JSXMemberExpr {
    pub obj: JSXObject,
    pub prop: String,
}

#[derive(Debug, PartialEq)]
pub enum JSXElementName {
    Ident(String),
    JSXMemberExpr(JSXMemberExpr),
    JSXNamespacedName(JSXNamespacedName),
}

/// An element: its span, its tag name, its attributes and its children.
#[derive(Debug, PartialEq)]
pub struct JSXElement {
    pub span: SpanKey,
    pub name: JSXElementName,
    pub attrs: Vec<JSXAttrOrSpread>,
    pub children: Vec<JSXElementChild>,
}

/// A fragment: a wrapper without a tag.
#[derive(Debug, PartialEq)]
pub struct JSXFragment {
    pub span: SpanKey,
    pub children: Vec<JSXElementChild>,
}

/// One child of an element or a fragment.
#[derive(Debug, PartialEq)]
pub enum JSXElementChild {
    JSXText,
    JSXExprContainer(JSXExpr),
    JSXSpreadChild,
    JSXElement(Box<JSXElement>),
    JSXFragment(JSXFragment),
}

pub ghost enum JSXObjectView {
    Ident(Seq<char>),
    JSXMemberExpr(Box<JSXMemberExprView>),
}

pub ghost struct JSXMemberExprView {
    pub obj: JSXObjectView,
    pub prop: Seq<char>,
}

pub ghost enum JSXElementNameView {
    Ident(Seq<char>),
    JSXMemberExpr(JSXMemberExprView),
    JSXNamespacedName(Seq<char>, Seq<char>),
}

/// The view of a member name.
pub open spec fn member_view(m: JSXMemberExpr) -> JSXMemberExprView
    decreases m,
{
    JSXMemberExprView {
        obj: match m.obj {
            JSXObject::Ident(s) => JSXObjectView::Ident(s@),
            JSXObject::JSXMemberExpr(inner) => JSXObjectView::JSXMemberExpr(
                Box::new(member_view(*inner)),
            ),
        },
        prop: m.prop@,
    }
}

impl View for JSXMemberExpr {
    type V = JSXMemberExprView;

    open spec fn view(&self) -> JSXMemberExprView {
        member_view(*self)
    }
}

impl View for JSXElementName {
    type V = JSXElementNameView;

    open spec fn view(&self) -> JSXElementNameView {
        match self {
            JSXElementName::Ident(s) => JSXElementNameView::Ident(s@),
            JSXElementName::JSXMemberExpr(m) => JSXElementNameView::JSXMemberExpr(m@),
            JSXElementName::JSXNamespacedName(n) => JSXElementNameView::JSXNamespacedName(
                n.ns@,
                n.name@,
            ),
        }
    }
}

pub ghost struct JSXElementView {
    pub span: SpanKey,
    pub name: JSXElementNameView,
    pub attrs: Seq<JSXAttrOrSpreadView>,
    pub children: Seq<JSXElementChildView>,
}

pub ghost struct JSXFragmentView {
    pub span: SpanKey,
    pub children: Seq<JSXElementChildView>,
}

pub ghost enum JSXElementChildView {
    JSXText,
    JSXExprContainer(JSXExprView),
    JSXSpreadChild,
    JSXElement(JSXElementView),
    JSXFragment(JSXFragmentView),
}

/// The view of an element.
pub open spec fn element_view(e: JSXElement) -> JSXElementView
    decreases e, 0nat,
{
    JSXElementView {
        span: e.span,
        name: e.name@,
        attrs: attr_views(e.attrs@),
        children: children_view(e.children@),
    }
}

/// The views of the children of an element or a fragment.
pub open spec fn children_view(children: Seq<JSXElementChild>) -> Seq<JSXElementChildView>
    decreases children, 1nat,
{
    Seq::new(
        children.len(),
        |i: int|
            if 0 <= i < children.len() {
                child_view(children[i])
            } else {
                JSXElementChildView::JSXText
            },
    )
}

/// The view of one child.
pub open spec fn child_view(c: JSXElementChild) -> JSXElementChildView
    decreases c, 0nat,
{
    match c {
        JSXElementChild::JSXText => JSXElementChildView::JSXText,
        JSXElementChild::JSXExprContainer(e) => JSXElementChildView::JSXExprContainer(e@),
        JSXElementChild::JSXSpreadChild => JSXElementChildView::JSXSpreadChild,
        JSXElementChild::JSXElement(e) => JSXElementChildView::JSXElement(element_view(*e)),
        JSXElementChild::JSXFragment(f) => JSXElementChildView::JSXFragment(
            JSXFragmentView { span: f.span, children: children_view(f.children@) },
        ),
    }
}

impl View for JSXElement {
    type V = JSXElementView;

    open spec fn view(&self) -> JSXElementView {
        element_view(*self)
    }
}

impl View for JSXFragment {
    type V = JSXFragmentView;

    open spec fn view(&self) -> JSXFragmentView {
        JSXFragmentView { span: self.span, children: children_view(self.children@) }
    }
}

impl View for JSXElementChild {
    type V = JSXElementChildView;

    open spec fn view(&self) -> JSXElementChildView {
        child_view(*self)
    }
}

/// The markup that a `return` statement hands back.
#[derive(Debug, PartialEq)]
pub enum Markup {
    JSXElement(JSXElement),
    JSXFragment(JSXFragment),
}

/// A `return` statement with the first markup node of its argument, if any.
#[derive(Debug, PartialEq)]
pub struct ReturnStmt {
    pub arg: Option<Markup>,
}

#[derive(Debug, PartialEq)]
pub enum Stmt {
    Return(ReturnStmt),
    Other,
}

/// A function: the statements of its body, where it has one.
#[derive(Debug, PartialEq)]
pub struct Function {
    pub body: Option<Vec<Stmt>>,
}

#[derive(Debug, PartialEq)]
pub struct FnDecl {
    pub ident: String,
    pub function: Function,
}

#[derive(Debug, PartialEq)]
pub struct ClassMethod {
    pub key: PropName,
    pub function: Function,
}

#[derive(Debug, PartialEq)]
pub enum ClassMember {
    Method(ClassMethod),
    Other,
}

#[derive(Debug, PartialEq)]
pub struct Class {
    pub body: Vec<ClassMember>,
}

#[derive(Debug, PartialEq)]
pub struct ClassDecl {
    pub ident: String,
    pub class: Class,
}

#[derive(Debug, PartialEq)]
pub enum DefaultDecl {
    Class(Class),
    Fn(Function),
    Other,
}

#[derive(Debug, PartialEq)]
pub struct ExportDefaultDecl {
    pub decl: DefaultDecl,
}

/// `export default <expr>`, with the identifier where the expression is one.
#[derive(Debug, PartialEq)]
pub struct ExportDefaultExpr {
    pub ident: Option<String>,
}

#[derive(Debug, PartialEq)]
pub enum ImportSpecifier {
    /// A named import, with its local name.
    Named(String),
    Other,
}

#[derive(Debug, PartialEq)]
pub struct ImportDecl {
    pub src: String,
    pub specifiers: Vec<ImportSpecifier>,
}

/// One declaration of a source unit that style resolution looks at.
#[derive(Debug, PartialEq)]
pub enum ModuleItem {
    ImportDecl(ImportDecl),
    ExportDefaultExpr(ExportDefaultExpr),
    ExportDefaultDecl(ExportDefaultDecl),
    FnDecl(FnDecl),
    ClassDecl(ClassDecl),
}

/// A source unit: its declarations in the order in which a scan from the
/// top meets them.
#[derive(Debug, PartialEq)]
pub struct Program {
    pub body: Vec<ModuleItem>,
}

} // verus!
