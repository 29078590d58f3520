//! The source tree: an `ego_tree::Tree` of [`Node`] values, described by the
//! rows of its node table.

use vstd::prelude::*;
use crate::node::{Node, NodeView};

verus! {

/// `ego_tree::Tree`, a tree that keeps its nodes in a table; nothing is
/// known of it but what the functions below state.
#[verifier::external_type_specification]
#[verifier::external_body]
#[verifier::reject_recursive_types(T)]
pub struct ExTree<T>(ego_tree::Tree<T>);

/// `ego_tree::NodeId`, which names a node by its position in the table.
#[verifier::external_type_specification]
#[verifier::external_body]
pub struct ExNodeId(ego_tree::NodeId);

/// The position of the node that `id` names in its tree's node table.
pub uninterp spec fn node_index(id: ego_tree::NodeId) -> nat;

/// The values of the tree's nodes, in the order of the node table, which
/// is the order in which the nodes were made.
pub uninterp spec fn tree_values(t: ego_tree::Tree<Node>) -> Seq<Node>;

/// For each node of the table the position of its parent, if it has one.
pub uninterp spec fn tree_parents(t: ego_tree::Tree<Node>) -> Seq<Option<nat>>;

/// For each node of the table the positions of its children, first to last.
pub uninterp spec fn tree_children(t: ego_tree::Tree<Node>) -> Seq<Seq<nat>>;

/// `ego_tree::Tree::new`: a tree of one node, the root, which holds `root`
/// and has neither parent nor children.
#[verifier::external_body]
fn tree_new(root: Node) -> (t: ego_tree::Tree<Node>)
    ensures
        tree_values(t) == seq![root],
        tree_parents(t) == seq![None::<nat>],
        tree_children(t) == seq![Seq::<nat>::empty()],
{
    ego_tree::Tree::new(root)
}

/// `ego_tree::Tree::root`, then `NodeRef::id`: the root is the first node
/// of the table.
#[verifier::external_body]
fn tree_root(t: &ego_tree::Tree<Node>) -> (id: ego_tree::NodeId)
    ensures
        node_index(id) == 0,
{
    t.root().id()
}

/// `ego_tree::NodeMut::append` on the node that `Tree::get_mut` finds for
/// `parent`: where the table has such a node, a new node holding `value` is
/// put at the end of the table and becomes the last child of `parent`;
/// where it has none, nothing changes.
#[verifier::external_body]
fn tree_append(t: &mut ego_tree::Tree<Node>, parent: ego_tree::NodeId, value: Node) -> (r: Option<
    ego_tree::NodeId,
>)
    ensures
        r is Some <==> node_index(parent) < tree_values(*old(t)).len(),
        r matches Some(id) ==> {
            let p = node_index(parent) as int;
            let n = tree_values(*old(t)).len();
            &&& node_index(id) == n
            &&& tree_values(*final(t)) == tree_values(*old(t)).push(value)
            &&& tree_parents(*final(t)) == tree_parents(*old(t)).push(Some(node_index(parent)))
            &&& tree_children(*final(t)) == tree_children(*old(t)).update(
                p,
                tree_children(*old(t))[p].push(n),
            ).push(Seq::<nat>::empty())
        },
        r is None ==> {
            &&& tree_values(*final(t)) == tree_values(*old(t))
            &&& tree_parents(*final(t)) == tree_parents(*old(t))
            &&& tree_children(*final(t)) == tree_children(*old(t))
        },
{
    match t.get_mut(parent) {
        Some(mut node) => Some(node.append(value).id()),
        None => None,
    }
}

/// `ego_tree::Tree::get`, then `NodeRef::value`: the value of the node at
/// the position that `id` names, where the table has one.
#[verifier::external_body]
fn tree_value(t: &ego_tree::Tree<Node>, id: ego_tree::NodeId) -> (r: Option<&Node>)
    ensures
        r is Some <==> node_index(id) < tree_values(*t).len(),
        r matches Some(v) ==> *v == tree_values(*t)[node_index(id) as int],
{
    match t.get(id) {
        Some(node) => Some(node.value()),
        None => None,
    }
}

/// `ego_tree::Tree::get`, then `NodeRef::parent`: the parent of the node
/// that `id` names.
#[verifier::external_body]
fn tree_parent(t: &ego_tree::Tree<Node>, id: ego_tree::NodeId) -> (r: Option<ego_tree::NodeId>)
    ensures
        match r {
            Some(p) => node_index(id) < tree_parents(*t).len() && tree_parents(
                *t,
            )[node_index(id) as int] == Some(node_index(p)),
            None => node_index(id) >= tree_parents(*t).len() || tree_parents(
                *t,
            )[node_index(id) as int] is None,
        },
{
    match t.get(id) {
        Some(node) => match node.parent() {
            Some(p) => Some(p.id()),
            None => None,
        },
        None => None,
    }
}

/// `ego_tree::Tree::get`, then `NodeRef::children`: the ids of the
/// children of the node that `id` names, first to last; none where the
/// table has no such node.
#[verifier::external_body]
fn tree_child_ids(t: &ego_tree::Tree<Node>, id: ego_tree::NodeId) -> (r: Vec<ego_tree::NodeId>)
    ensures
        r@.map_values(|c: ego_tree::NodeId| node_index(c)) == if node_index(id) < tree_children(
            *t,
        ).len() {
            tree_children(*t)[node_index(id) as int]
        } else {
            Seq::empty()
        },
{
    match t.get(id) {
        Some(node) => node.children().map(|c| c.id()).collect(),
        None => Vec::new(),
    }
}

/// `ego_tree::Tree::nodes`: the ids of all nodes, in the order of the
/// table.
#[verifier::external_body]
fn tree_node_ids(t: &ego_tree::Tree<Node>) -> (r: Vec<ego_tree::NodeId>)
    ensures
        r@.len() == tree_values(*t).len(),
        forall|i: int| 0 <= i < r@.len() ==> node_index(#[trigger] r@[i]) == i,
{
    t.nodes().map(|n| n.id()).collect()
}

/// One row of the node table: the value of a node and the position of its
/// parent.
pub ghost struct TreeRow {
    pub value: NodeView,
    pub parent: Option<nat>,
}

/// The positions, in ascending order, of the rows whose parent stands at
/// `at`.
pub open spec fn child_positions(parents: Seq<Option<nat>>, at: nat) -> Seq<nat>
    decreases parents.len(),
{
    if parents.len() == 0 {
        Seq::empty()
    } else {
        let before = child_positions(parents.drop_last(), at);
        if parents.last() == Some(at) {
            before.push((parents.len() - 1) as nat)
        } else {
            before
        }
    }
}

/// A tree of [`Node`] values with a root that stands for the source unit.
///
/// Nodes are only ever added, each as the last child of a node that is
/// already there, so a parent always stands before its children in the
/// node table.
pub struct SourceTree {
    tree: ego_tree::Tree<Node>,
}

/// The rows of the node table of a tree, in the order in which the nodes
/// were made.
pub open spec fn rows_of(t: ego_tree::Tree<Node>) -> Seq<TreeRow> {
    Seq::new(
        tree_values(t).len(),
        |i: int| TreeRow { value: tree_values(t)[i]@, parent: tree_parents(t)[i] },
    )
}

impl View for SourceTree {
    type V = Seq<TreeRow>;

    /// The rows of the node table, in the order in which the nodes were
    /// made.
    closed spec fn view(&self) -> Seq<TreeRow> {
        rows_of(self.tree)
    }
}

impl SourceTree {
    /// For each node the positions of its children, first to last.
    pub closed spec fn children(&self) -> Seq<Seq<nat>> {
        tree_children(self.tree)
    }

    /// The rows describe a tree: the first is the root, every other row
    /// has its parent before it, and the children of a node are the rows
    /// that name it as their parent, in the order of the table.
    pub closed spec fn wf(&self) -> bool {
        let parents = tree_parents(self.tree);
        &&& tree_values(self.tree).len() >= 1
        &&& parents.len() == tree_values(self.tree).len()
        &&& tree_children(self.tree).len() == tree_values(self.tree).len()
        &&& parents[0] is None
        &&& forall|i: int|
            1 <= i < parents.len() ==> ((#[trigger] parents[i]) matches Some(p) && p < i)
        &&& forall|i: int|
            0 <= i < parents.len() ==> #[trigger] tree_children(self.tree)[i] == child_positions(
                parents,
                i as nat,
            )
    }

    /// What well-formedness says of the rows.
    pub proof fn lemma_wf(&self)
        requires
            self.wf(),
        ensures
            self@.len() >= 1,
            self.children().len() == self@.len(),
            self@[0].parent is None,
            forall|i: int|
                1 <= i < self@.len() ==> ((#[trigger] self@[i]).parent matches Some(p) && p < i),
            forall|i: int|
                0 <= i < self@.len() ==> #[trigger] self.children()[i] == child_positions(
                    self@.map_values(|r: TreeRow| r.parent),
                    i as nat,
                ),
    {
        assert(self@.map_values(|r: TreeRow| r.parent) =~= tree_parents(self.tree));
        assert forall|i: int| 1 <= i < self@.len() implies ((
        #[trigger] self@[i]).parent matches Some(p) && p < i) by {
            assert(tree_parents(self.tree)[i] matches Some(p) && p < i);
        }
    }

    /// A tree with nothing but a root that holds `root`.
    pub fn new(root: Node) -> (t: SourceTree)
        ensures
            t.wf(),
            t@ == seq![TreeRow { value: root@, parent: None }],
    {
        let t = SourceTree { tree: tree_new(root) };
        proof {
            reveal_with_fuel(child_positions, 2);
            assert(tree_parents(t.tree).drop_last() =~= Seq::<Option<nat>>::empty());
            assert(t@ =~= seq![TreeRow { value: root@, parent: None }]);
        }
        t
    }

    /// The id of the root.
    pub fn root(&self) -> (id: ego_tree::NodeId)
        ensures
            node_index(id) == 0,
    {
        tree_root(&self.tree)
    }

    /// Adds a node that holds `value` as the last child of `parent`.
    ///
    /// Returns the id of the new node, or `None`, with the tree unchanged,
    /// where the tree has no node `parent`.
    pub fn append(&mut self, parent: ego_tree::NodeId, value: Node) -> (r: Option<ego_tree::NodeId>)
        requires
            old(self).wf(),
        ensures
            final(self).wf(),
            r is Some <==> node_index(parent) < old(self)@.len(),
            match r {
                Some(id) => node_index(id) == old(self)@.len() && final(self)@ == old(self)@.push(
                    TreeRow { value: value@, parent: Some(node_index(parent)) },
                ),
                None => final(self)@ == old(self)@,
            },
    {
        let ghost before = *self;
        let r = tree_append(&mut self.tree, parent, value);
        proof {
            match r {
                Some(id) => {
                    let p = node_index(parent);
                    let n = tree_values(before.tree).len();
                    let parents = tree_parents(before.tree);
                    let after = tree_parents(self.tree);
                    assert(after.drop_last() =~= parents);
                    assert(self@ =~= before@.push(
                        TreeRow { value: value@, parent: Some(node_index(parent)) },
                    ));
                    assert forall|i: int| 0 <= i < after.len() implies #[trigger] tree_children(
                        self.tree,
                    )[i] == child_positions(after, i as nat) by {
                        if i == n {
                            lemma_no_children(parents, n, n);
                        }
                    }
                },
                None => {
                    assert(self@ =~= before@);
                },
            }
        }
        r
    }

    /// The number of nodes, the root included.
    pub fn len(&self) -> (n: usize)
        ensures
            n == self@.len(),
    {
        tree_node_ids(&self.tree).len()
    }

    /// The ids of all nodes, in the order in which the nodes were made.
    pub fn node_ids(&self) -> (r: Vec<ego_tree::NodeId>)
        ensures
            r@.len() == self@.len(),
            forall|i: int| 0 <= i < r@.len() ==> node_index(#[trigger] r@[i]) == i,
    {
        tree_node_ids(&self.tree)
    }

    /// The value of a node, where the tree has the node.
    pub fn value(&self, id: ego_tree::NodeId) -> (r: Option<&Node>)
        ensures
            r is Some <==> node_index(id) < self@.len(),
            r matches Some(v) ==> v@ == self@[node_index(id) as int].value,
    {
        tree_value(&self.tree, id)
    }

    /// The parent of a node; `None` for the root and where the tree has no
    /// such node.
    pub fn parent(&self, id: ego_tree::NodeId) -> (r: Option<ego_tree::NodeId>)
        requires
            self.wf(),
        ensures
            match r {
                Some(p) => node_index(id) < self@.len() && self@[node_index(id) as int].parent
                    == Some(node_index(p)),
                None => node_index(id) >= self@.len() || self@[node_index(id) as int].parent
                    is None,
            },
    {
        tree_parent(&self.tree, id)
    }

    /// The ids of the children of a node, first to last; none where the
    /// tree has no such node.
    pub fn child_ids(&self, id: ego_tree::NodeId) -> (r: Vec<ego_tree::NodeId>)
        requires
            self.wf(),
        ensures
            r@.map_values(|c: ego_tree::NodeId| node_index(c)) == if node_index(id) < self@.len() {
                self.children()[node_index(id) as int]
            } else {
                Seq::empty()
            },
    {
        tree_child_ids(&self.tree, id)
    }

    /// The tree itself, for those who read it with `ego_tree`.
    pub fn into_inner(self) -> (t: ego_tree::Tree<Node>)
        ensures
            rows_of(t) == self@,
            tree_children(t) == self.children(),
    {
        self.tree
    }

    /// The children of a node stand behind it in the table, and name it as
    /// their parent.
    pub proof fn lemma_children(&self, node: int, k: int)
        requires
            self.wf(),
            0 <= node < self@.len(),
            0 <= k < self.children()[node].len(),
        ensures
            node < self.children()[node][k] < self@.len(),
            self@[self.children()[node][k] as int].parent == Some(node as nat),
    {
        let parents = tree_parents(self.tree);
        assert(self.children()[node] == child_positions(parents, node as nat));
        lemma_child_positions(parents, node as nat, k);
    }

    /// Copies what stands below the node `node` of `source` to below the
    /// node `current` of this tree: every child of `node`, in order, with
    /// all that is below it.
    ///
    /// Nothing happens where this tree has no node `current`.
    pub fn recursion_sub_tree(
        &mut self,
        source: &SourceTree,
        node: ego_tree::NodeId,
        current: ego_tree::NodeId,
    )
        requires
            source.wf(),
            old(self).wf(),
        ensures
            final(self).wf(),
            final(self)@ == old(self)@ + if node_index(current) < old(self)@.len() {
                copied_below(
                    source@,
                    source.children(),
                    node_index(node),
                    node_index(current),
                    old(self)@.len(),
                )
            } else {
                Seq::empty()
            },
        decreases source@.len() - node_index(node),
    {
        let ghost base = self@.len();
        if self.value(current).is_none() {
            assert(self@ =~= old(self)@ + Seq::<TreeRow>::empty());
            return ;
        }
        proof {
            source.lemma_wf();
        }
        let ids = source.child_ids(node);
        let ghost from = node_index(node);
        let ghost parent = node_index(current);
        let ghost positions = ids@.map_values(|c: ego_tree::NodeId| node_index(c));
        assert(positions.len() == ids@.len());
        if ids.len() == 0 {
            assert(self@ =~= old(self)@ + Seq::<TreeRow>::empty());
            return ;
        }
        assert(from < source@.len());
        assert(positions == source.children()[from as int]);
        let mut i: usize = 0;
        assert(self@ =~= old(self)@ + Seq::<TreeRow>::empty());
        while i < ids.len()
            invariant
                i <= ids.len(),
                source.wf(),
                self.wf(),
                from == node_index(node),
                from < source@.len(),
                source.children().len() == source@.len(),
                parent == node_index(current),
                parent < base,
                base == old(self)@.len(),
                positions == ids@.map_values(|c: ego_tree::NodeId| node_index(c)),
                positions == source.children()[from as int],
                self@ == old(self)@ + copied_rows(
                    source@,
                    source.children(),
                    from,
                    i as int,
                    parent,
                    base,
                ),
            decreases ids.len() - i,
        {
            let ghost done = copied_rows(source@, source.children(), from, i as int, parent, base);
            let child = ids[i];
            proof {
                assert(positions[i as int] == node_index(child));
                source.lemma_children(from as int, i as int);
            }
            match source.value(child) {
                Some(value) => {
                    match self.append(current, value.duplicate()) {
                        Some(copy) => {
                            self.recursion_sub_tree(source, child, copy);
                        },
                        None => {},
                    }
                },
                None => {},
            }
            proof {
                let c = node_index(child);
                let below = copied_below(
                    source@,
                    source.children(),
                    c,
                    base + done.len(),
                    base + done.len() + 1,
                );
                assert(self@ =~= old(self)@ + (done + seq![
                    TreeRow { value: source@[c as int].value, parent: Some(parent) },
                ] + below));
            }
            i += 1;
        }
    }
}

/// The rows that a copy of the first `upto` children of the node at
/// `from`, each with all that is below it, adds below the node at
/// `parent` of a tree of `base` nodes. `rows` and `children` describe the
/// tree that is copied from.
pub open spec fn copied_rows(
    rows: Seq<TreeRow>,
    children: Seq<Seq<nat>>,
    from: nat,
    upto: int,
    parent: nat,
    base: nat,
) -> Seq<TreeRow>
    decreases rows.len() - from, upto,
{
    if from < children.len() && 0 < upto <= children[from as int].len() {
        let before = copied_rows(rows, children, from, upto - 1, parent, base);
        let c = children[from as int][upto - 1];
        if from < c < rows.len() {
            before + seq![TreeRow { value: rows[c as int].value, parent: Some(parent) }]
                + copied_rows(
                rows,
                children,
                c,
                children[c as int].len() as int,
                base + before.len(),
                base + before.len() + 1,
            )
        } else {
            before
        }
    } else {
        Seq::empty()
    }
}

/// The rows that a copy of all that stands below the node at `from` adds
/// below the node at `parent` of a tree of `base` nodes: every child of
/// that node, in order, each followed by what stands below it.
pub open spec fn copied_below(
    rows: Seq<TreeRow>,
    children: Seq<Seq<nat>>,
    from: nat,
    parent: nat,
    base: nat,
) -> Seq<TreeRow> {
    if from < children.len() {
        copied_rows(rows, children, from, children[from as int].len() as int, parent, base)
    } else {
        Seq::empty()
    }
}

/// The rows that `child_positions` finds name `at` as their parent.
proof fn lemma_child_positions(parents: Seq<Option<nat>>, at: nat, k: int)
    requires
        0 <= k < child_positions(parents, at).len(),
    ensures
        child_positions(parents, at)[k] < parents.len(),
        parents[child_positions(parents, at)[k] as int] == Some(at),
    decreases parents.len(),
{
    if parents.len() > 0 {
        let before = child_positions(parents.drop_last(), at);
        if k < before.len() {
            lemma_child_positions(parents.drop_last(), at, k);
        }
    }
}

/// A position that no row names as its parent has no children.
proof fn lemma_no_children(parents: Seq<Option<nat>>, at: nat, bound: nat)
    requires
        at >= bound,
        parents[0] is None || parents.len() == 0,
        forall|i: int|
            1 <= i < parents.len() ==> ((#[trigger] parents[i]) matches Some(p) && p < bound),
    ensures
        child_positions(parents, at) == Seq::<nat>::empty(),
    decreases parents.len(),
{
    if parents.len() > 0 {
        let head = parents.drop_last();
        if head.len() > 0 {
            assert(head[0] == parents[0]);
        }
        assert forall|i: int| 1 <= i < head.len() implies ((#[trigger] head[i]) matches Some(p)
            && p < bound) by {
            assert(head[i] == parents[i]);
        }
        lemma_no_children(head, at, bound);
        if parents.len() > 1 {
            assert(parents[parents.len() - 1] matches Some(p) && p < bound);
        }
    }
}

} // verus!
