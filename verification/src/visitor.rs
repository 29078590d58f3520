//! The passes over a source unit: collecting what it imports and exports,
//! building the source tree, and writing resolved styles back into it.

use vstd::prelude::*;
use crate::merge::{inject_attrs, injected_attrs};
use crate::record::{JSXRecord, StyleRecord};
use crate::span::SpanKey;
use crate::node::Node;
use crate::rows::{
    child_reference, child_rows, children_rows, class_rows, create_element, create_fragment,
    element_node, element_rows, find_declaration, find_method, first_return, fragment_node,
    fragment_rows, function_markup, function_rows, item_function, item_rows, lemma_recorded_concat,
    lemma_recorded_without_keys, lemma_rows_of_references, named_locals, program_rows, recorded,
    resolve, return_rows, statements_rows, tree_rows, Row, SearchType,
};
use crate::syntax::{
    attr_views, children_view, Class, ClassDecl, ClassMember, ClassMethod, DefaultDecl,
    ExportDefaultDecl, ExportDefaultExpr, FnDecl, Function, ImportDecl, ImportSpecifier,
    JSXAttrOrSpreadView, JSXElement, JSXElementChild, JSXElementChildView, JSXElementView,
    JSXFragment, JSXFragmentView, Markup, ModuleItem, Program, PropName, PropNameView, ReturnStmt,
    Stmt,
};
use crate::text::{opt_text, same_text, starts_with, texts};
use crate::tree::{node_index, SourceTree, TreeRow};

verus! {

/// The attributes of an element after injection: where the record knows
/// the element's span, the block of the node recorded for it is merged in;
/// where it does not, they stay as they are.
pub open spec fn injected_element_attrs(
    e: JSXElementView,
    jsx_record: Map<SpanKey, ego_tree::NodeId>,
    style_record: StyleRecord,
) -> Seq<JSXAttrOrSpreadView> {
    if jsx_record.contains_key(e.span) {
        let index = node_index(jsx_record[e.span]);
        injected_attrs(
            e.attrs,
            if style_record.contains(index) {
                Some(style_record.block(index))
            } else {
                None
            },
        )
    } else {
        e.attrs
    }
}

/// An element after injection: its own attributes rewritten, and every
/// element below it likewise.
pub open spec fn injected_element(
    e: JSXElementView,
    jsx_record: Map<SpanKey, ego_tree::NodeId>,
    style_record: StyleRecord,
) -> JSXElementView
    decreases e, 0nat,
{
    JSXElementView {
        span: e.span,
        name: e.name,
        attrs: injected_element_attrs(e, jsx_record, style_record),
        children: injected_children(e.children, jsx_record, style_record),
    }
}

/// The children of an element or a fragment after injection.
pub open spec fn injected_children(
    children: Seq<JSXElementChildView>,
    jsx_record: Map<SpanKey, ego_tree::NodeId>,
    style_record: StyleRecord,
) -> Seq<JSXElementChildView>
    decreases children, 1nat,
{
    Seq::new(
        children.len(),
        |i: int|
            if 0 <= i < children.len() {
                injected_child(children[i], jsx_record, style_record)
            } else {
                JSXElementChildView::JSXText
            },
    )
}

/// One child after injection: an element or a fragment is rewritten, any
/// other child stays as it is.
pub open spec fn injected_child(
    c: JSXElementChildView,
    jsx_record: Map<SpanKey, ego_tree::NodeId>,
    style_record: StyleRecord,
) -> JSXElementChildView
    decreases c, 0nat,
{
    match c {
        JSXElementChildView::JSXElement(e) => JSXElementChildView::JSXElement(
            injected_element(e, jsx_record, style_record),
        ),
        JSXElementChildView::JSXFragment(f) => JSXElementChildView::JSXFragment(
            JSXFragmentView {
                span: f.span,
                children: injected_children(f.children, jsx_record, style_record),
            },
        ),
        _ => c,
    }
}

/// Writes the resolved styles into the `style` attributes of the markup.
pub struct AstMutVisitor {
    pub jsx_record: JSXRecord,
    pub style_record: StyleRecord,
}

impl AstMutVisitor {
    pub fn new(jsx_record: JSXRecord, style_record: StyleRecord) -> (v: AstMutVisitor)
        ensures
            v.jsx_record == jsx_record,
            v.style_record == style_record,
    {
        AstMutVisitor { jsx_record, style_record }
    }

    /// Rewrites the attributes of one element, its children left alone.
    pub fn inject(&self, n: &mut JSXElement)
        ensures
            final(n).span == old(n).span,
            final(n).name == old(n).name,
            final(n).children == old(n).children,
            attr_views(final(n).attrs@) == injected_element_attrs(
                old(n)@,
                self.jsx_record@,
                self.style_record,
            ),
    {
        match self.jsx_record.get(&n.span) {
            Some(node_id) => {
                let block = self.style_record.get(node_id);
                inject_attrs(&mut n.attrs, block);
            },
            None => {},
        }
    }

    /// Rewrites the element and every element below it.
    pub fn visit_mut_jsx_element(&self, n: &mut JSXElement)
        ensures
            final(n)@ == injected_element(old(n)@, self.jsx_record@, self.style_record),
        decreases *old(n), 0nat,
    {
        self.inject(n);
        self.visit_mut_jsx_element_children(&mut n.children);
    }

    /// Rewrites every element among the children and below them.
    pub fn visit_mut_jsx_element_children(&self, children: &mut Vec<JSXElementChild>)
        ensures
            children_view(final(children)@) == injected_children(
                children_view(old(children)@),
                self.jsx_record@,
                self.style_record,
            ),
        decreases *old(children), 1nat,
    {
        let ghost before = children@;
        let mut i: usize = 0;
        while i < children.len()
            invariant
                i <= children.len(),
                children.len() == before.len(),
                before == old(children)@,
                forall|k: int|
                    0 <= k < i ==> (#[trigger] children@[k])@ == injected_child(
                        before[k]@,
                        self.jsx_record@,
                        self.style_record,
                    ),
                forall|k: int| i <= k < children.len() ==> #[trigger] children@[k] == before[k],
            decreases children.len() - i,
        {
            assert(children@[i as int] == before[i as int]);
            match &mut children[i] {
                JSXElementChild::JSXElement(e) => {
                    self.visit_mut_jsx_element(e);
                },
                JSXElementChild::JSXFragment(f) => {
                    self.visit_mut_jsx_element_children(&mut f.children);
                },
                _ => {},
            }
            i += 1;
        }
        assert(children_view(children@) =~= injected_children(
            children_view(before),
            self.jsx_record@,
            self.style_record,
        ));
    }
}


/// Finds the markup that a reference stands for.
pub struct JSXFragmentVisitor<'a> {
    pub module: &'a Program,
    pub taro_components: &'a Vec<String>,
    pub search_fn: &'a str,
    pub search_type: SearchType,
}

impl<'a> JSXFragmentVisitor<'a> {
    pub fn new(
        module: &'a Program,
        taro_components: &'a Vec<String>,
        search_fn: &'a str,
        search_type: SearchType,
    ) -> (v: JSXFragmentVisitor<'a>)
        ensures
            v.module == module,
            v.taro_components == taro_components,
            v.search_fn == search_fn,
            v.search_type == search_type,
    {
        JSXFragmentVisitor { module, taro_components, search_fn, search_type }
    }

    /// The function of the declaration, where the search is for a function
    /// of its name.
    pub fn visit_fn_decl(&self, n: &'a FnDecl) -> (r: Option<&'a Function>)
        ensures
            r == if self.search_type == SearchType::Normal && n.ident@ == self.search_fn@ {
                Some(&n.function)
            } else {
                None
            },
    {
        if same_text(n.ident.as_str(), self.search_fn) && self.search_type == SearchType::Normal {
            Some(&n.function)
        } else {
            None
        }
    }

    /// The function of the method, where the search is for a method of its
    /// name.
    pub fn visit_class_method(&self, n: &'a ClassMethod) -> (r: Option<&'a Function>)
        ensures
            r == if self.search_type == SearchType::Class && n.key@ == PropNameView::Ident(
                self.search_fn@,
            ) {
                Some(&n.function)
            } else {
                None
            },
    {
        if self.search_type == SearchType::Class {
            match &n.key {
                PropName::Ident(ident) => {
                    if same_text(ident.as_str(), self.search_fn) {
                        return Some(&n.function);
                    }
                },
                _ => {},
            }
        }
        None
    }

    /// The function of the first method of the class that the search is
    /// for; none where the search is not for a method.
    pub fn visit_class(&self, class: &'a Class) -> (r: Option<&'a Function>)
        ensures
            r == if self.search_type == SearchType::Class {
                match find_method(class.body@, self.search_fn@, 0) {
                    Some(f) => Some(&f),
                    None => None,
                }
            } else {
                None
            },
    {
        if self.search_type != SearchType::Class {
            return None;
        }
        let mut i: usize = 0;
        while i < class.body.len()
            invariant
                i <= class.body.len(),
                self.search_type == SearchType::Class,
                find_method(class.body@, self.search_fn@, 0) == find_method(
                    class.body@,
                    self.search_fn@,
                    i as int,
                ),
            decreases class.body.len() - i,
        {
            match &class.body[i] {
                ClassMember::Method(method) => {
                    match self.visit_class_method(method) {
                        Some(f) => {
                            return Some(f);
                        },
                        None => {},
                    }
                },
                ClassMember::Other => {},
            }
            i += 1;
        }
        None
    }

    /// The function that one declaration offers to the search.
    pub fn visit_module_item(&self, item: &'a ModuleItem) -> (r: Option<&'a Function>)
        ensures
            r == match item_function(*item, self.search_fn@, self.search_type) {
                Some(f) => Some(&f),
                None => None,
            },
    {
        match self.search_type {
            SearchType::Normal => match item {
                ModuleItem::FnDecl(d) => self.visit_fn_decl(d),
                _ => None,
            },
            SearchType::Class => match item {
                ModuleItem::ClassDecl(d) => self.visit_class(&d.class),
                ModuleItem::ExportDefaultDecl(d) => match &d.decl {
                    DefaultDecl::Class(c) => self.visit_class(c),
                    _ => None,
                },
                _ => None,
            },
        }
    }

    /// The markup that the reference stands for: what the first
    /// declaration of the name hands back from its first `return`
    /// statement.
    pub fn visit_program(&self) -> (r: Option<&'a Markup>)
        ensures
            r == match resolve(*self.module, self.search_fn@, self.search_type) {
                Some(m) => Some(&m),
                None => None,
            },
    {
        let items = &self.module.body;
        let mut i: usize = 0;
        while i < items.len()
            invariant
                i <= items.len(),
                items == &self.module.body,
                find_declaration(items@, self.search_fn@, self.search_type, 0) == find_declaration(
                    items@,
                    self.search_fn@,
                    self.search_type,
                    i as int,
                ),
            decreases items.len() - i,
        {
            match self.visit_module_item(&items[i]) {
                Some(f) => {
                    return returned_markup(f);
                },
                None => {},
            }
            i += 1;
        }
        None
    }
}

/// The markup that a function hands back: that of its first `return`
/// statement.
pub fn returned_markup<'a>(f: &'a Function) -> (r: Option<&'a Markup>)
    ensures
        r == match function_markup(*f) {
            Some(m) => Some(&m),
            None => None,
        },
{
    match &f.body {
        Some(stmts) => {
            let mut i: usize = 0;
            while i < stmts.len()
                invariant
                    i <= stmts.len(),
                    f.body == Some(*stmts),
                    first_return(stmts@, 0) == first_return(stmts@, i as int),
                decreases stmts.len() - i,
            {
                match &stmts[i] {
                    Stmt::Return(r) => {
                        return match &r.arg {
                            Some(m) => Some(m),
                            None => None,
                        };
                    },
                    Stmt::Other => {},
                }
                i += 1;
            }
            None
        },
        None => None,
    }
}


/// The number of functions and methods that the declarations declare, up
/// to the first `upto` of them.
pub open spec fn declared_functions(items: Seq<ModuleItem>, upto: int) -> nat
    decreases upto,
{
    if 0 < upto <= items.len() {
        declared_functions(items, upto - 1) + match items[upto - 1] {
            ModuleItem::FnDecl(_) => 1nat,
            ModuleItem::ClassDecl(d) => d.class.body@.len(),
            ModuleItem::ExportDefaultDecl(d) => match d.decl {
                DefaultDecl::Class(c) => c.body@.len(),
                _ => 0nat,
            },
            _ => 0nat,
        }
    } else {
        0
    }
}

/// How many references are followed one inside the other: as many as the
/// unit declares functions and methods, which is more than a chain of
/// references that never comes back to itself can have.
pub open spec fn reference_depth(program: Program) -> nat {
    let n = declared_functions(program.body@, program.body@.len() as int);
    if n <= usize::MAX {
        n
    } else {
        usize::MAX as nat
    }
}

/// Counts what `reference_depth` states.
pub fn count_reference_depth(program: &Program) -> (n: usize)
    ensures
        n == reference_depth(*program),
{
    let items = &program.body;
    let mut n: usize = 0;
    let mut i: usize = 0;
    while i < items.len()
        invariant
            i <= items.len(),
            items == &program.body,
            n as nat == if declared_functions(items@, i as int) <= usize::MAX {
                declared_functions(items@, i as int)
            } else {
                usize::MAX as nat
            },
        decreases items.len() - i,
    {
        let more: usize = match &items[i] {
            ModuleItem::FnDecl(_) => 1,
            ModuleItem::ClassDecl(d) => d.class.body.len(),
            ModuleItem::ExportDefaultDecl(d) => match &d.decl {
                DefaultDecl::Class(c) => c.body.len(),
                _ => 0,
            },
            _ => 0,
        };
        n = if more > usize::MAX - n {
            usize::MAX
        } else {
            n + more
        };
        i += 1;
    }
    n
}

/// Builds the part of the source tree that one piece of markup gives.
pub struct JSXVisitor<'a> {
    pub module: &'a Program,
    pub taro_components: &'a Vec<String>,
    pub root_node: Option<ego_tree::NodeId>,
    pub current_node: Option<ego_tree::NodeId>,
    /// How many references may still be followed, one inside the other.
    pub depth: usize,
    /// Whether the nodes that are made are entered into the record.
    pub recording: bool,
}

impl<'a> JSXVisitor<'a> {
    /// A visitor that has not met any markup yet.
    pub fn new(module: &'a Program, taro_components: &'a Vec<String>) -> (v: JSXVisitor<'a>)
        ensures
            v.module == module,
            v.taro_components == taro_components,
            v.root_node is None,
            v.current_node is None,
            v.depth == reference_depth(*module),
            v.recording,
    {
        JSXVisitor {
            module,
            taro_components,
            root_node: None,
            current_node: None,
            depth: count_reference_depth(module),
            recording: true,
        }
    }

    /// The names of the primitive components.
    pub open spec fn components(&self) -> Seq<Seq<char>> {
        texts(self.taro_components@)
    }

    /// The position of the current node, where there is one among the
    /// first `len` nodes.
    pub open spec fn current(&self, len: nat) -> Option<nat> {
        match self.current_node {
            Some(c) => if node_index(c) < len {
                Some(node_index(c))
            } else {
                None
            },
            None => None,
        }
    }

    /// The rows that the children add below the current node of a tree
    /// that has `base` nodes; none where there is no current node.
    pub open spec fn rows_of_children(&self, n: Seq<JSXElementChild>, base: nat) -> Seq<Row> {
        match self.current(base) {
            Some(parent) => children_rows(
                *self.module,
                self.components(),
                n,
                n.len() as int,
                parent,
                base,
                self.recording,
                self.depth as nat,
            ),
            None => Seq::empty(),
        }
    }

    /// The node that an element becomes.
    pub fn create_element(&self, jsx_element: &JSXElement) -> (n: Node)
        ensures
            n@ == element_node(*jsx_element),
    {
        create_element(jsx_element)
    }

    /// The node that a fragment becomes.
    pub fn create_fragment(&self) -> (n: Node)
        ensures
            n@ == fragment_node(),
    {
        create_fragment()
    }

    /// Puts `node` below the current node and enters it into the record
    /// under `span`.
    fn append_node(
        &self,
        tree: &mut SourceTree,
        jsx_record: &mut JSXRecord,
        node: Node,
        span: SpanKey,
    ) -> (id: ego_tree::NodeId)
        requires
            old(tree).wf(),
            self.current(old(tree)@.len()) is Some,
        ensures
            final(tree).wf(),
            node_index(id) == old(tree)@.len(),
            final(tree)@ == old(tree)@.push(
                TreeRow { value: node@, parent: self.current(old(tree)@.len()) },
            ),
            final(jsx_record).indices() == if self.recording {
                old(jsx_record).indices().insert(span, old(tree)@.len())
            } else {
                old(jsx_record).indices()
            },
    {
        // There is a current node and the tree has it, so the root is
        // never taken in its place, nor handed back.
        let parent = match self.current_node {
            Some(c) => c,
            None => tree.root(),
        };
        match tree.append(parent, node) {
            Some(id) => {
                if self.recording {
                    jsx_record.insert(span, id);
                }
                id
            },
            None => tree.root(),
        }
    }

    /// Puts the element below the current node, and its children below
    /// it.
    fn append_element(
        &mut self,
        tree: &mut SourceTree,
        jsx_record: &mut JSXRecord,
        e: &JSXElement,
    ) -> (id: ego_tree::NodeId)
        requires
            old(tree).wf(),
            old(self).current(old(tree)@.len()) is Some,
        ensures
            final(tree).wf(),
            *final(self) == *old(self),
            node_index(id) == old(tree)@.len(),
            ({
                let rows = element_rows(
                    *old(self).module,
                    old(self).components(),
                    *e,
                    old(self).current(old(tree)@.len())->Some_0,
                    old(tree)@.len(),
                    old(self).recording,
                    old(self).depth as nat,
                );
                &&& final(tree)@ == old(tree)@ + tree_rows(rows)
                &&& final(jsx_record).indices() == recorded(
                    old(jsx_record).indices(),
                    rows,
                    old(tree)@.len(),
                )
            }),
        decreases old(self).depth, *e, 0nat,
    {
        let ghost base = tree@.len();
        let ghost parent = self.current(base)->Some_0;
        let ghost before = jsx_record.indices();
        let node = create_element(e);
        let id = self.append_node(tree, jsx_record, node, e.span);
        let saved = self.current_node;
        self.current_node = Some(id);
        self.visit_jsx_element_children(tree, jsx_record, &e.children);
        self.current_node = saved;
        proof {
            let first = seq![
                Row {
                    value: element_node(*e),
                    parent,
                    key: if self.recording {
                        Some(e.span)
                    } else {
                        None
                    },
                },
            ];
            let rest = children_rows(
                *self.module,
                self.components(),
                e.children@,
                e.children@.len() as int,
                base,
                base + 1,
                self.recording,
                self.depth as nat,
            );
            lemma_first_row(before, first[0], base);
            lemma_recorded_concat(before, first, rest, base);
            assert(tree@ =~= old(tree)@ + tree_rows(first + rest));
        }
        id
    }

    /// Puts a node for the fragment below the current node, and the
    /// fragment's children below it.
    fn append_fragment(
        &mut self,
        tree: &mut SourceTree,
        jsx_record: &mut JSXRecord,
        f: &JSXFragment,
    ) -> (id: ego_tree::NodeId)
        requires
            old(tree).wf(),
            old(self).current(old(tree)@.len()) is Some,
        ensures
            final(tree).wf(),
            *final(self) == *old(self),
            node_index(id) == old(tree)@.len(),
            ({
                let rows = fragment_rows(
                    *old(self).module,
                    old(self).components(),
                    *f,
                    old(self).current(old(tree)@.len())->Some_0,
                    old(tree)@.len(),
                    old(self).recording,
                    old(self).depth as nat,
                );
                &&& final(tree)@ == old(tree)@ + tree_rows(rows)
                &&& final(jsx_record).indices() == recorded(
                    old(jsx_record).indices(),
                    rows,
                    old(tree)@.len(),
                )
            }),
        decreases old(self).depth, *f, 0nat,
    {
        let ghost base = tree@.len();
        let ghost parent = self.current(base)->Some_0;
        let ghost before = jsx_record.indices();
        let node = create_fragment();
        let id = self.append_node(tree, jsx_record, node, f.span);
        let saved = self.current_node;
        self.current_node = Some(id);
        self.visit_jsx_element_children(tree, jsx_record, &f.children);
        self.current_node = saved;
        proof {
            let first = seq![
                Row {
                    value: fragment_node(),
                    parent,
                    key: if self.recording {
                        Some(f.span)
                    } else {
                        None
                    },
                },
            ];
            let rest = children_rows(
                *self.module,
                self.components(),
                f.children@,
                f.children@.len() as int,
                base,
                base + 1,
                self.recording,
                self.depth as nat,
            );
            lemma_first_row(before, first[0], base);
            lemma_recorded_concat(before, first, rest, base);
            assert(tree@ =~= old(tree)@ + tree_rows(first + rest));
        }
        id
    }

    /// Puts what the children stand for below the current node: an
    /// element or a fragment with all that is below it, and for a
    /// reference the markup that it stands for.
    ///
    /// Nothing happens where there is no current node.
    pub fn visit_jsx_element_children(
        &mut self,
        tree: &mut SourceTree,
        jsx_record: &mut JSXRecord,
        n: &Vec<JSXElementChild>,
    )
        requires
            old(tree).wf(),
        ensures
            final(tree).wf(),
            *final(self) == *old(self),
            final(tree)@ == old(tree)@ + tree_rows(
                old(self).rows_of_children(n@, old(tree)@.len()),
            ),
            final(jsx_record).indices() == recorded(
                old(jsx_record).indices(),
                old(self).rows_of_children(n@, old(tree)@.len()),
                old(tree)@.len(),
            ),
        decreases old(self).depth, n@, 1nat,
    {
        let ghost base = tree@.len();
        let ghost before = jsx_record.indices();
        let current = match self.current_node {
            Some(c) => c,
            None => {
                assert(tree@ =~= old(tree)@ + tree_rows(Seq::empty()));
                return ;
            },
        };
        if tree.value(current).is_none() {
            assert(tree@ =~= old(tree)@ + tree_rows(Seq::empty()));
            return ;
        }
        let ghost parent = node_index(current);
        let ghost program = *self.module;
        let ghost components = self.components();
        let ghost record = self.recording;
        let ghost fuel = self.depth as nat;
        let mut i: usize = 0;
        while i < n.len()
            invariant
                i <= n.len(),
                tree.wf(),
                *self == *old(self),
                self.current_node == Some(current),
                parent == node_index(current),
                parent < base,
                base == old(tree)@.len(),
                before == old(jsx_record).indices(),
                program == *self.module,
                components == self.components(),
                record == self.recording,
                fuel == self.depth as nat,
                tree@ == old(tree)@ + tree_rows(
                    children_rows(program, components, n@, i as int, parent, base, record, fuel),
                ),
                jsx_record.indices() == recorded(
                    before,
                    children_rows(program, components, n@, i as int, parent, base, record, fuel),
                    base,
                ),
            decreases n.len() - i,
        {
            let ghost done = children_rows(
                program,
                components,
                n@,
                i as int,
                parent,
                base,
                record,
                fuel,
            );
            let ghost added = child_rows(
                program,
                components,
                n@[i as int],
                parent,
                base + done.len(),
                record,
                fuel,
            );
            let ghost tree_before = tree@;
            let ghost record_before = jsx_record.indices();
            assert(tree@.len() == base + done.len());
            match child_reference(&n[i], self.taro_components) {
                Some((name, kind)) => {
                    proof {
                        lemma_rows_of_references(
                            program,
                            components,
                            n@[i as int],
                            parent,
                            base + done.len(),
                            record,
                            fuel,
                        );
                        lemma_recorded_without_keys(record_before, added, base + done.len());
                    }
                    if self.depth > 0 {
                        let finder = JSXFragmentVisitor::new(
                            self.module,
                            self.taro_components,
                            name,
                            kind,
                        );
                        match finder.visit_program() {
                            Some(markup) => {
                                let mut inner = JSXVisitor {
                                    module: self.module,
                                    taro_components: self.taro_components,
                                    root_node: self.root_node,
                                    current_node: self.current_node,
                                    depth: self.depth - 1,
                                    recording: false,
                                };
                                match markup {
                                    Markup::JSXElement(e) => {
                                        inner.append_element(tree, jsx_record, e);
                                    },
                                    Markup::JSXFragment(f) => {
                                        inner.append_fragment(tree, jsx_record, f);
                                    },
                                }
                            },
                            None => {},
                        }
                    }
                },
                None => {
                    match &n[i] {
                        JSXElementChild::JSXElement(e) => {
                            self.append_element(tree, jsx_record, e);
                        },
                        JSXElementChild::JSXFragment(f) => {
                            self.append_fragment(tree, jsx_record, f);
                        },
                        _ => {},
                    }
                },
            }
            proof {
                assert(tree@ =~= tree_before + tree_rows(added));
                assert(jsx_record.indices() == recorded(record_before, added, base + done.len()));
                lemma_recorded_concat(before, done, added, base);
                assert(tree@ =~= old(tree)@ + tree_rows(done + added));
            }
            i += 1;
        }
    }
}

/// One row entered into the record.
proof fn lemma_first_row(m: Map<SpanKey, nat>, row: Row, base: nat)
    ensures
        recorded(m, seq![row], base) == match row.key {
            Some(k) => m.insert(k, base),
            None => m,
        },
{
    assert(seq![row].drop_last() =~= Seq::<Row>::empty());
    reveal_with_fuel(recorded, 2);
}


impl<'a> JSXVisitor<'a> {
    /// The rows that an element adds when the visitor meets it: as the
    /// first markup it goes below the root with all that is below it; once
    /// there is a root, only its children are put below the current node.
    pub open spec fn rows_of_element(&self, jsx: JSXElement, base: nat) -> Seq<Row> {
        if self.root_node is None {
            element_rows(
                *self.module,
                self.components(),
                jsx,
                0,
                base,
                self.recording,
                self.depth as nat,
            )
        } else {
            self.rows_of_children(jsx.children@, base)
        }
    }

    /// The rows that a fragment adds when the visitor meets it.
    pub open spec fn rows_of_fragment(&self, n: JSXFragment, base: nat) -> Seq<Row> {
        if self.root_node is None {
            fragment_rows(
                *self.module,
                self.components(),
                n,
                0,
                base,
                self.recording,
                self.depth as nat,
            )
        } else {
            self.rows_of_children(n.children@, base)
        }
    }

    /// The visitor after it has met markup in a tree of `base` nodes:
    /// the first markup that it meets gives it the root of the tree as its
    /// root and the new node as its current node.
    pub open spec fn after_markup(&self, later: JSXVisitor<'a>, base: nat) -> bool {
        if self.root_node is None {
            &&& later.module == self.module
            &&& later.taro_components == self.taro_components
            &&& later.depth == self.depth
            &&& later.recording == self.recording
            &&& later.root_node matches Some(r)
            &&& node_index(r) == 0
            &&& later.current_node matches Some(c)
            &&& node_index(c) == base
        } else {
            later == *self
        }
    }

    /// Meets an element.
    pub fn visit_jsx_element(
        &mut self,
        tree: &mut SourceTree,
        jsx_record: &mut JSXRecord,
        jsx: &JSXElement,
    )
        requires
            old(tree).wf(),
        ensures
            final(tree).wf(),
            old(self).after_markup(*final(self), old(tree)@.len()),
            final(tree)@ == old(tree)@ + tree_rows(
                old(self).rows_of_element(*jsx, old(tree)@.len()),
            ),
            final(jsx_record).indices() == recorded(
                old(jsx_record).indices(),
                old(self).rows_of_element(*jsx, old(tree)@.len()),
                old(tree)@.len(),
            ),
    {
        if self.root_node.is_none() {
            proof {
                tree.lemma_wf();
            }
            let root = tree.root();
            self.root_node = Some(root);
            self.current_node = Some(root);
            let id = self.append_element(tree, jsx_record, jsx);
            self.current_node = Some(id);
        } else {
            self.visit_jsx_element_children(tree, jsx_record, &jsx.children);
        }
    }

    /// Meets a fragment.
    pub fn visit_jsx_fragment(
        &mut self,
        tree: &mut SourceTree,
        jsx_record: &mut JSXRecord,
        n: &JSXFragment,
    )
        requires
            old(tree).wf(),
        ensures
            final(tree).wf(),
            old(self).after_markup(*final(self), old(tree)@.len()),
            final(tree)@ == old(tree)@ + tree_rows(
                old(self).rows_of_fragment(*n, old(tree)@.len()),
            ),
            final(jsx_record).indices() == recorded(
                old(jsx_record).indices(),
                old(self).rows_of_fragment(*n, old(tree)@.len()),
                old(tree)@.len(),
            ),
    {
        if self.root_node.is_none() {
            proof {
                tree.lemma_wf();
            }
            let root = tree.root();
            self.root_node = Some(root);
            self.current_node = Some(root);
            let id = self.append_fragment(tree, jsx_record, n);
            self.current_node = Some(id);
        } else {
            self.visit_jsx_element_children(tree, jsx_record, &n.children);
        }
    }
}

/// Collects what the unit exports by default and which primitive
/// components it imports.
pub struct CollectVisitor {
    pub export_default_name: Option<String>,
    pub taro_components: Vec<String>,
}

pub ghost struct CollectView {
    pub export_default_name: Option<Seq<char>>,
    pub taro_components: Seq<Seq<char>>,
}

impl View for CollectVisitor {
    type V = CollectView;

    open spec fn view(&self) -> CollectView {
        CollectView {
            export_default_name: opt_text(self.export_default_name),
            taro_components: texts(self.taro_components@),
        }
    }
}

/// What is noted after `export default <expr>`: the identifier that is
/// exported, where none was noted before.
pub open spec fn after_export(v: CollectView, n: ExportDefaultExpr) -> CollectView {
    CollectView {
        export_default_name: match v.export_default_name {
            Some(name) => Some(name),
            None => opt_text(n.ident),
        },
        taro_components: v.taro_components,
    }
}

/// What is noted after an import: where it imports from the primitive
/// components, the local names of what it imports by name as well.
pub open spec fn after_import(v: CollectView, n: ImportDecl) -> CollectView {
    CollectView {
        export_default_name: v.export_default_name,
        taro_components: if "@tarojs/components"@.is_prefix_of(n.src@) {
            v.taro_components + named_locals(n.specifiers@)
        } else {
            v.taro_components
        },
    }
}

/// What is noted after one declaration of the unit.
pub open spec fn after_item(v: CollectView, item: ModuleItem) -> CollectView {
    match item {
        ModuleItem::ExportDefaultExpr(n) => after_export(v, n),
        ModuleItem::ImportDecl(n) => after_import(v, n),
        _ => v,
    }
}

/// What is noted after the first `upto` declarations of the unit.
pub open spec fn after_items(v: CollectView, items: Seq<ModuleItem>, upto: int) -> CollectView
    decreases upto,
{
    if 0 < upto <= items.len() {
        after_item(after_items(v, items, upto - 1), items[upto - 1])
    } else {
        v
    }
}

impl CollectVisitor {
    pub fn new() -> (v: CollectVisitor)
        ensures
            v@ == (CollectView { export_default_name: None, taro_components: Seq::empty() }),
    {
        let v = CollectVisitor { export_default_name: None, taro_components: vec![] };
        assert(v@.taro_components =~= Seq::<Seq<char>>::empty());
        v
    }

    /// Notes the name of the default export, where none is noted yet and
    /// the exported expression is an identifier.
    pub fn visit_export_default_expr(&mut self, n: &ExportDefaultExpr)
        ensures
            final(self)@ == after_export(old(self)@, *n),
    {
        match &n.ident {
            Some(ident) => {
                if self.export_default_name.is_none() {
                    self.export_default_name = Some(ident.clone());
                }
            },
            None => {},
        }
    }

    /// Notes the local names of what is imported by name from the
    /// primitive components.
    pub fn visit_import_decl(&mut self, n: &ImportDecl)
        ensures
            final(self)@ == after_import(old(self)@, *n),
    {
        if starts_with(n.src.as_str(), "@tarojs/components") {
            let ghost before = texts(self.taro_components@);
            let mut i: usize = 0;
            assert(texts(self.taro_components@) =~= before + Seq::<Seq<char>>::empty());
            while i < n.specifiers.len()
                invariant
                    i <= n.specifiers.len(),
                    self.export_default_name == old(self).export_default_name,
                    before == texts(old(self).taro_components@),
                    texts(self.taro_components@) == before + named_locals(
                        n.specifiers@.take(i as int),
                    ),
                decreases n.specifiers.len() - i,
            {
                proof {
                    assert(n.specifiers@.take(i + 1).drop_last() == n.specifiers@.take(i as int));
                }
                match &n.specifiers[i] {
                    ImportSpecifier::Named(local) => {
                        let ghost noted = texts(self.taro_components@);
                        self.taro_components.push(local.clone());
                        assert(n.specifiers@.take(i + 1).last() == n.specifiers@[i as int]);
                        assert(named_locals(n.specifiers@.take(i + 1)) == named_locals(
                            n.specifiers@.take(i as int),
                        ).push(local@));
                        assert(texts(self.taro_components@) =~= noted.push(local@));
                        assert(texts(self.taro_components@) =~= before + named_locals(
                            n.specifiers@.take(i + 1),
                        ));
                    },
                    ImportSpecifier::Other => {},
                }
                i += 1;
            }
            assert(n.specifiers@.take(n.specifiers.len() as int) == n.specifiers@);
        }
    }

    /// Looks at one declaration of the unit.
    pub fn visit_module_item(&mut self, item: &ModuleItem)
        ensures
            final(self)@ == after_item(old(self)@, *item),
    {
        match item {
            ModuleItem::ExportDefaultExpr(n) => self.visit_export_default_expr(n),
            ModuleItem::ImportDecl(n) => self.visit_import_decl(n),
            _ => {},
        }
    }

    /// Looks at every declaration of the unit, first to last.
    pub fn visit_program(&mut self, program: &Program)
        ensures
            final(self)@ == after_items(old(self)@, program.body@, program.body@.len() as int),
    {
        let mut i: usize = 0;
        while i < program.body.len()
            invariant
                i <= program.body.len(),
                self@ == after_items(old(self)@, program.body@, i as int),
            decreases program.body.len() - i,
        {
            self.visit_module_item(&program.body[i]);
            i += 1;
        }
    }
}

/// Builds the source tree of a unit from the component that it exports by
/// default.
pub struct AstVisitor<'a> {
    pub export_default_name: &'a Option<String>,
    pub taro_components: &'a Vec<String>,
    pub module: &'a Program,
    pub tree: SourceTree,
    pub jsx_record: JSXRecord,
}

impl<'a> AstVisitor<'a> {
    pub fn new(
        module: &'a Program,
        tree: SourceTree,
        jsx_record: JSXRecord,
        export_default_name: &'a Option<String>,
        taro_components: &'a Vec<String>,
    ) -> (v: AstVisitor<'a>)
        ensures
            v.module == module,
            v.tree == tree,
            v.jsx_record == jsx_record,
            v.export_default_name == export_default_name,
            v.taro_components == taro_components,
    {
        AstVisitor { export_default_name, taro_components, module, tree, jsx_record }
    }

    /// The names of the primitive components.
    pub open spec fn components(&self) -> Seq<Seq<char>> {
        texts(self.taro_components@)
    }

    /// How many references are followed one inside the other.
    pub open spec fn fuel(&self) -> nat {
        reference_depth(*self.module)
    }

    /// What stays as it is while the visitor works.
    pub open spec fn same_unit(&self, later: AstVisitor<'a>) -> bool {
        &&& later.module == self.module
        &&& later.taro_components == self.taro_components
        &&& later.export_default_name == self.export_default_name
    }

    /// The visitor after `rows` have been added to its tree and entered
    /// into its record.
    pub open spec fn grown_by(&self, later: AstVisitor<'a>, rows: Seq<Row>) -> bool {
        &&& self.same_unit(later)
        &&& later.tree.wf()
        &&& later.tree@ == self.tree@ + tree_rows(rows)
        &&& later.jsx_record.indices() == recorded(
            self.jsx_record.indices(),
            rows,
            self.tree@.len(),
        )
    }

    /// Adds the markup of a `return` statement below the root.
    pub fn visit_return_stmt(&mut self, n: &ReturnStmt)
        requires
            old(self).tree.wf(),
        ensures
            old(self).grown_by(
                *final(self),
                return_rows(
                    *old(self).module,
                    old(self).components(),
                    *n,
                    old(self).tree@.len(),
                    old(self).fuel(),
                ),
            ),
    {
        let mut jsx_visitor = JSXVisitor::new(self.module, self.taro_components);
        match &n.arg {
            Some(Markup::JSXElement(e)) => {
                jsx_visitor.visit_jsx_element(&mut self.tree, &mut self.jsx_record, e);
            },
            Some(Markup::JSXFragment(f)) => {
                jsx_visitor.visit_jsx_fragment(&mut self.tree, &mut self.jsx_record, f);
            },
            None => {
                assert(self.tree@ =~= old(self).tree@ + tree_rows(Seq::empty()));
            },
        }
    }

    /// Adds the markup of every `return` statement of the function's body.
    pub fn visit_function(&mut self, f: &Function)
        requires
            old(self).tree.wf(),
        ensures
            old(self).grown_by(
                *final(self),
                function_rows(
                    *old(self).module,
                    old(self).components(),
                    *f,
                    old(self).tree@.len(),
                    old(self).fuel(),
                ),
            ),
    {
        let ghost base = self.tree@.len();
        let ghost program = *self.module;
        let ghost components = self.components();
        let ghost fuel = self.fuel();
        match &f.body {
            Some(stmts) => {
                let mut i: usize = 0;
                assert(self.tree@ =~= old(self).tree@ + tree_rows(Seq::empty()));
                while i < stmts.len()
                    invariant
                        i <= stmts.len(),
                        base == old(self).tree@.len(),
                        program == *old(self).module,
                        components == old(self).components(),
                        fuel == old(self).fuel(),
                        old(self).grown_by(
                            *self,
                            statements_rows(program, components, stmts@, i as int, base, fuel),
                        ),
                    decreases stmts.len() - i,
                {
                    let ghost done = statements_rows(
                        program,
                        components,
                        stmts@,
                        i as int,
                        base,
                        fuel,
                    );
                    let ghost middle = *self;
                    match &stmts[i] {
                        Stmt::Return(r) => {
                            self.visit_return_stmt(r);
                            proof {
                                let added = return_rows(
                                    program,
                                    components,
                                    *r,
                                    base + done.len(),
                                    fuel,
                                );
                                old(self).lemma_grown_twice(middle, *self, done, added);
                            }
                        },
                        Stmt::Other => {},
                    }
                    i += 1;
                }
            },
            None => {
                assert(self.tree@ =~= old(self).tree@ + tree_rows(Seq::empty()));
            },
        }
    }

    /// Growing by `a` and then by `b` is growing by both.
    pub proof fn lemma_grown_twice(
        &self,
        middle: AstVisitor<'a>,
        later: AstVisitor<'a>,
        a: Seq<Row>,
        b: Seq<Row>,
    )
        requires
            self.grown_by(middle, a),
            middle.grown_by(later, b),
        ensures
            self.grown_by(later, a + b),
    {
        lemma_recorded_concat(self.jsx_record.indices(), a, b, self.tree@.len());
        assert(later.tree@ =~= self.tree@ + tree_rows(a + b));
    }

    /// Adds the markup of every method named `render` of the class.
    pub fn visit_class(&mut self, class: &Class)
        requires
            old(self).tree.wf(),
        ensures
            old(self).grown_by(
                *final(self),
                class_rows(
                    *old(self).module,
                    old(self).components(),
                    class.body@,
                    class.body@.len() as int,
                    old(self).tree@.len(),
                    old(self).fuel(),
                ),
            ),
    {
        let ghost base = self.tree@.len();
        let ghost program = *self.module;
        let ghost components = self.components();
        let ghost fuel = self.fuel();
        let mut i: usize = 0;
        assert(self.tree@ =~= old(self).tree@ + tree_rows(Seq::empty()));
        while i < class.body.len()
            invariant
                i <= class.body.len(),
                base == old(self).tree@.len(),
                program == *old(self).module,
                components == old(self).components(),
                fuel == old(self).fuel(),
                old(self).grown_by(
                    *self,
                    class_rows(program, components, class.body@, i as int, base, fuel),
                ),
            decreases class.body.len() - i,
        {
            let ghost done = class_rows(program, components, class.body@, i as int, base, fuel);
            let ghost middle = *self;
            match &class.body[i] {
                ClassMember::Method(method) => {
                    match &method.key {
                        PropName::Ident(ident) => {
                            if same_text(ident.as_str(), "render") {
                                self.visit_function(&method.function);
                                proof {
                                    let added = function_rows(
                                        program,
                                        components,
                                        method.function,
                                        base + done.len(),
                                        fuel,
                                    );
                                    old(self).lemma_grown_twice(middle, *self, done, added);
                                }
                            }
                        },
                        _ => {},
                    }
                },
                ClassMember::Other => {},
            }
            i += 1;
        }
    }

    /// Whether the unit exports `name` by default.
    fn is_default_export(&self, name: &str) -> (r: bool)
        ensures
            r == (opt_text(*self.export_default_name) == Some(name@)),
    {
        match self.export_default_name {
            Some(default_name) => same_text(name, default_name.as_str()),
            None => false,
        }
    }

    /// Adds the markup of the function, where the unit exports it by
    /// default.
    pub fn visit_fn_decl(&mut self, n: &FnDecl)
        requires
            old(self).tree.wf(),
        ensures
            old(self).grown_by(
                *final(self),
                item_rows(
                    *old(self).module,
                    old(self).components(),
                    opt_text(*old(self).export_default_name),
                    ModuleItem::FnDecl(*n),
                    old(self).tree@.len(),
                    old(self).fuel(),
                ),
            ),
    {
        if self.is_default_export(n.ident.as_str()) {
            self.visit_function(&n.function);
        } else {
            assert(self.tree@ =~= old(self).tree@ + tree_rows(Seq::empty()));
        }
    }

    /// Adds the markup of the `render` methods of the class, where the
    /// unit exports it by default.
    pub fn visit_class_decl(&mut self, n: &ClassDecl)
        requires
            old(self).tree.wf(),
        ensures
            old(self).grown_by(
                *final(self),
                item_rows(
                    *old(self).module,
                    old(self).components(),
                    opt_text(*old(self).export_default_name),
                    ModuleItem::ClassDecl(*n),
                    old(self).tree@.len(),
                    old(self).fuel(),
                ),
            ),
    {
        if self.is_default_export(n.ident.as_str()) {
            self.visit_class(&n.class);
        } else {
            assert(self.tree@ =~= old(self).tree@ + tree_rows(Seq::empty()));
        }
    }

    /// Adds the markup of a function or a class that is declared as the
    /// default export.
    pub fn visit_export_default_decl(&mut self, n: &ExportDefaultDecl)
        requires
            old(self).tree.wf(),
        ensures
            old(self).grown_by(
                *final(self),
                item_rows(
                    *old(self).module,
                    old(self).components(),
                    opt_text(*old(self).export_default_name),
                    ModuleItem::ExportDefaultDecl(*n),
                    old(self).tree@.len(),
                    old(self).fuel(),
                ),
            ),
    {
        match &n.decl {
            DefaultDecl::Fn(f) => self.visit_function(f),
            DefaultDecl::Class(c) => self.visit_class(c),
            DefaultDecl::Other => {
                assert(self.tree@ =~= old(self).tree@ + tree_rows(Seq::empty()));
            },
        }
    }

    /// Looks at every declaration of the unit, first to last.
    pub fn visit_program(&mut self)
        requires
            old(self).tree.wf(),
        ensures
            old(self).grown_by(
                *final(self),
                program_rows(
                    *old(self).module,
                    old(self).components(),
                    opt_text(*old(self).export_default_name),
                    old(self).module.body@.len() as int,
                    old(self).tree@.len(),
                    old(self).fuel(),
                ),
            ),
    {
        let ghost base = self.tree@.len();
        let ghost program = *self.module;
        let ghost components = self.components();
        let ghost fuel = self.fuel();
        let ghost default_name = opt_text(*self.export_default_name);
        let module = self.module;
        let mut i: usize = 0;
        assert(self.tree@ =~= old(self).tree@ + tree_rows(Seq::empty()));
        while i < module.body.len()
            invariant
                i <= module.body.len(),
                module == old(self).module,
                base == old(self).tree@.len(),
                program == *old(self).module,
                components == old(self).components(),
                fuel == old(self).fuel(),
                default_name == opt_text(*old(self).export_default_name),
                old(self).grown_by(
                    *self,
                    program_rows(program, components, default_name, i as int, base, fuel),
                ),
            decreases module.body.len() - i,
        {
            let ghost done = program_rows(program, components, default_name, i as int, base, fuel);
            let ghost middle = *self;
            let ghost added = item_rows(
                program,
                components,
                default_name,
                module.body@[i as int],
                base + done.len(),
                fuel,
            );
            match &module.body[i] {
                ModuleItem::FnDecl(d) => self.visit_fn_decl(d),
                ModuleItem::ClassDecl(d) => self.visit_class_decl(d),
                ModuleItem::ExportDefaultDecl(d) => self.visit_export_default_decl(d),
                _ => {
                    assert(self.tree@ =~= middle.tree@ + tree_rows(Seq::empty()));
                },
            }
            proof {
                old(self).lemma_grown_twice(middle, *self, done, added);
            }
            i += 1;
        }
    }
}

} // verus!
