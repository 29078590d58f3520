//! The two records that tie markup to styles: from the span of a markup node
//! to its tree node, and from a tree node to its declarations.

use std::collections::HashMap;
use vstd::prelude::*;
use crate::span::SpanKey;
use crate::tree::node_index;

verus! {

broadcast use vstd::std_specs::hash::group_hash_axioms;

/// From the span of a markup node to the tree node built from it.
pub struct JSXRecord {
    map: HashMap<u64, ego_tree::NodeId>,
}

impl View for JSXRecord {
    type V = Map<SpanKey, ego_tree::NodeId>;

    closed spec fn view(&self) -> Map<SpanKey, ego_tree::NodeId> {
        Map::new(
            |k: SpanKey| self.map@.contains_key(k.packed() as u64),
            |k: SpanKey| self.map@[k.packed() as u64],
        )
    }
}

impl JSXRecord {
    /// The record with each node given by its position in the node table.
    pub open spec fn indices(&self) -> Map<SpanKey, nat> {
        Map::new(|k: SpanKey| self@.contains_key(k), |k: SpanKey| node_index(self@[k]))
    }

    /// A record without entries.
    pub fn new() -> (r: JSXRecord)
        ensures
            r@ == Map::<SpanKey, ego_tree::NodeId>::empty(),
            r.indices() == Map::<SpanKey, nat>::empty(),
    {
        let r = JSXRecord { map: HashMap::new() };
        assert(r@ =~= Map::<SpanKey, ego_tree::NodeId>::empty());
        assert(r.indices() =~= Map::<SpanKey, nat>::empty());
        r
    }

    /// Records `id` under `key`; an earlier entry under that key is replaced.
    pub fn insert(&mut self, key: SpanKey, id: ego_tree::NodeId)
        ensures
            final(self)@ == old(self)@.insert(key, id),
            final(self).indices() == old(self).indices().insert(key, node_index(id)),
    {
        let k = key.pack();
        self.map.insert(k, id);
        proof {
            assert forall|other: SpanKey| other.packed() == key.packed() implies other == key by {
                SpanKey::packed_injective(other, key);
            }
            assert(self@ =~= old(self)@.insert(key, id));
            assert(self.indices() =~= old(self).indices().insert(key, node_index(id)));
        }
    }

    /// The node recorded under `key`, if there is one.
    pub fn get(&self, key: &SpanKey) -> (r: Option<ego_tree::NodeId>)
        ensures
            r == if self@.contains_key(*key) {
                Some(self@[*key])
            } else {
                None
            },
    {
        let k = key.pack();
        match self.map.get(&k) {
            Some(id) => Some(*id),
            None => None,
        }
    }
}

/// `ego_tree::NodeId`'s `==`: two ids are equal when they name the same
/// position of the node table.
#[verifier::external_body]
fn same_node(a: ego_tree::NodeId, b: ego_tree::NodeId) -> (r: bool)
    ensures
        r == (node_index(a) == node_index(b)),
{
    a == b
}

/// One declaration of a block: the property's name and its value, both as
/// CSS text.
#[derive(Debug, PartialEq)]
pub struct Declaration {
    pub property_id: String,
    pub value: String,
}

impl View for Declaration {
    type V = (Seq<char>, Seq<char>);

    open spec fn view(&self) -> (Seq<char>, Seq<char>) {
        (self.property_id@, self.value@)
    }
}

impl Declaration {
    pub fn new(property_id: String, value: String) -> (d: Declaration)
        ensures
            d@ == (property_id@, value@),
    {
        Declaration { property_id, value }
    }
}

/// The declarations of a block as pairs of texts, in order.
pub open spec fn declaration_views(d: Seq<Declaration>) -> Seq<(Seq<char>, Seq<char>)> {
    d.map_values(|x: Declaration| x@)
}

/// The declaration block that was resolved for one node.
#[derive(Debug, PartialEq)]
pub struct StyleDeclaration {
    pub declarations: Vec<Declaration>,
}

impl View for StyleDeclaration {
    type V = Seq<(Seq<char>, Seq<char>)>;

    open spec fn view(&self) -> Seq<(Seq<char>, Seq<char>)> {
        declaration_views(self.declarations@)
    }
}

struct StyleEntry {
    node: ego_tree::NodeId,
    style: StyleDeclaration,
}

/// From a tree node to the declaration block resolved for it.
pub struct StyleRecord {
    entries: Vec<StyleEntry>,
}

impl StyleRecord {
    /// The place of the first entry for the node at `index`, from `from` on.
    closed spec fn position(&self, index: nat, from: int) -> Option<int>
        decreases self.entries@.len() - from,
    {
        if 0 <= from < self.entries@.len() {
            if node_index(self.entries@[from].node) == index {
                Some(from)
            } else {
                self.position(index, from + 1)
            }
        } else {
            None
        }
    }

    /// Whether there is a block for the node at position `index` of the
    /// node table.
    pub closed spec fn contains(&self, index: nat) -> bool {
        self.position(index, 0) is Some
    }

    /// The block for the node at position `index`; empty where there is
    /// none.
    pub closed spec fn block(&self, index: nat) -> Seq<(Seq<char>, Seq<char>)> {
        match self.position(index, 0) {
            Some(p) => self.entries@[p].style@,
            None => Seq::empty(),
        }
    }

    /// A record without entries.
    pub fn new() -> (r: StyleRecord)
        ensures
            forall|i: nat| !r.contains(i),
    {
        let r = StyleRecord { entries: Vec::new() };
        assert forall|i: nat| !r.contains(i) by {}
        r
    }

    proof fn lemma_position(&self, index: nat, from: int)
        requires
            0 <= from,
        ensures
            self.position(index, from) matches Some(p) ==> from <= p < self.entries@.len()
                && node_index(self.entries@[p].node) == index,
        decreases self.entries@.len() - from,
    {
        if from < self.entries@.len() && node_index(self.entries@[from].node) != index {
            self.lemma_position(index, from + 1);
        }
    }

    /// Where the first entry for `node` stands.
    fn find(&self, node: ego_tree::NodeId) -> (r: Option<usize>)
        ensures
            match r {
                Some(p) => self.position(node_index(node), 0) == Some(p as int) && p
                    < self.entries@.len(),
                None => self.position(node_index(node), 0) is None,
            },
    {
        let mut i: usize = 0;
        while i < self.entries.len()
            invariant
                i <= self.entries.len(),
                self.position(node_index(node), 0) == self.position(node_index(node), i as int),
            decreases self.entries.len() - i,
        {
            if same_node(self.entries[i].node, node) {
                return Some(i);
            }
            i += 1;
        }
        None
    }

    /// Sets the block of `node`; an earlier block of that node is replaced.
    pub fn insert(&mut self, node: ego_tree::NodeId, style: StyleDeclaration)
        ensures
            final(self).contains(node_index(node)),
            final(self).block(node_index(node)) == style@,
            forall|i: nat|
                i != node_index(node) ==> final(self).contains(i) == old(self).contains(i)
                    && final(self).block(i) == old(self).block(i),
    {
        let ghost before = *self;
        match self.find(node) {
            Some(p) => {
                proof {
                    before.lemma_position(node_index(node), 0);
                }
                self.entries.set(p, StyleEntry { node, style });
                proof {
                    assert forall|i: nat| #[trigger]
                        self.position(i, 0) == before.position(i, 0) by {
                        Self::lemma_same_nodes(before, *self, i, 0);
                    }
                    assert forall|i: nat| i != node_index(node) implies self.block(i)
                        == before.block(i) by {
                        before.lemma_position(i, 0);
                    }
                }
            },
            None => {
                self.entries.push(StyleEntry { node, style });
                proof {
                    Self::lemma_pushed(before, *self, node_index(node), 0);
                    assert forall|i: nat| i != node_index(node) implies self.contains(i)
                        == before.contains(i) && self.block(i) == before.block(i) by {
                        Self::lemma_pushed(before, *self, i, 0);
                        before.lemma_position(i, 0);
                        if before.position(i, 0) is Some {
                            let q = before.position(i, 0).unwrap();
                            assert(self.entries@[q] == before.entries@[q]);
                        }
                    }
                }
            },
        }
    }

    proof fn lemma_same_nodes(a: StyleRecord, b: StyleRecord, index: nat, from: int)
        requires
            0 <= from,
            a.entries@.len() == b.entries@.len(),
            forall|k: int|
                0 <= k < a.entries@.len() ==> node_index(a.entries@[k].node) == node_index(
                    b.entries@[k].node,
                ),
        ensures
            a.position(index, from) == b.position(index, from),
        decreases a.entries@.len() - from,
    {
        if from < a.entries@.len() && node_index(a.entries@[from].node) != index {
            Self::lemma_same_nodes(a, b, index, from + 1);
        }
    }

    proof fn lemma_pushed(a: StyleRecord, b: StyleRecord, index: nat, from: int)
        requires
            0 <= from <= a.entries@.len(),
            b.entries@.len() == a.entries@.len() + 1,
            forall|k: int| 0 <= k < a.entries@.len() ==> a.entries@[k] == b.entries@[k],
        ensures
            b.position(index, from) == match a.position(index, from) {
                Some(p) => Some(p),
                None => if node_index(b.entries@[a.entries@.len() as int].node) == index {
                    Some(a.entries@.len() as int)
                } else {
                    None
                },
            },
        decreases a.entries@.len() - from,
    {
        if from < a.entries@.len() {
            if node_index(a.entries@[from].node) != index {
                Self::lemma_pushed(a, b, index, from + 1);
            }
        } else {
            assert(b.position(index, from + 1) is None);
        }
    }

    /// The block of `node`, if there is one.
    pub fn get(&self, node: ego_tree::NodeId) -> (r: Option<&StyleDeclaration>)
        ensures
            r is Some <==> self.contains(node_index(node)),
            r matches Some(s) ==> s@ == self.block(node_index(node)),
    {
        match self.find(node) {
            Some(p) => Some(&self.entries[p].style),
            None => None,
        }
    }
}

} // verus!
