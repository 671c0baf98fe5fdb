//! The styled node tree: nodes with a text or element payload, an ordered
//! child list, and cascaded properties.
//!
//! Nodes live in one vector and refer to their children by index. The tree is
//! built in document order, so every child index is strictly greater than its
//! parent's: that is the well-formedness the walkers rely on for termination
//! and for document-order traversal.

use vstd::prelude::*;

use crate::strutil::str_eq_str;
use crate::style::Property;
use crate::style::Rgba;
use crate::style::UsedValue;
use crate::style::spec_clamp_len;
use crate::style::clamp_len;
use crate::style::LEN_MAX;
use crate::text::MAX_TEXT_LEN;

verus! {

/// A node's payload: raw text, or an element with a tag and its attributes in
/// document order.
#[derive(Debug)]
pub enum NodeData {
    Text(String),
    Element { tag: String, attributes: Vec<(String, String)> },
}

/// Whether a payload respects the machine limit on text runs.
pub open spec fn data_wf(data: NodeData) -> bool {
    match data {
        NodeData::Text(s) => s@.len() <= MAX_TEXT_LEN,
        NodeData::Element { .. } => true,
    }
}

/// One node: payload, child indices, and cascaded properties.
#[derive(Debug)]
pub struct Node {
    pub data: NodeData,
    pub children: Vec<usize>,
    pub properties: Vec<Property>,
}

/// The tree. The node at index 0 is the root; it is never painted itself.
#[derive(Debug)]
pub struct RenderTree {
    pub nodes: Vec<Node>,
}

impl RenderTree {
    /// Well-formedness: at least the root exists, every child index points
    /// past its parent and into the tree (document order, which also makes
    /// the graph acyclic), and text payloads respect the machine limit.
    pub open spec fn wf(&self) -> bool {
        &&& self.nodes@.len() >= 1
        &&& forall|i: int, k: int|
            0 <= i < self.nodes@.len() && 0 <= k < self.nodes@[i].children@.len() ==> i < #[trigger] self.nodes@[i].children@[k] < self.nodes@.len()
        &&& forall|i: int|
            0 <= i < self.nodes@.len() ==> data_wf((#[trigger] self.nodes@[i]).data)
    }

    /// A tree holding only the root node.
    pub fn new(data: NodeData, properties: Vec<Property>) -> (t: RenderTree)
        requires
            data_wf(data),
        ensures
            t.wf(),
            t.nodes@.len() == 1,
            t.nodes@[0].data == data,
            t.nodes@[0].children@.len() == 0,
            t.nodes@[0].properties == properties,
    {
        let root = Node { data, children: Vec::new(), properties };
        let mut nodes: Vec<Node> = Vec::new();
        nodes.push(root);
        RenderTree { nodes }
    }

    /// Appends a node as the last child of `parent` and returns its index.
    pub fn add_node(&mut self, parent: usize, data: NodeData, properties: Vec<Property>) -> (id:
        usize)
        requires
            old(self).wf(),
            parent < old(self).nodes@.len(),
            data_wf(data),
        ensures
            final(self).wf(),
            id == old(self).nodes@.len(),
            final(self).nodes@.len() == old(self).nodes@.len() + 1,
            final(self).nodes@[id as int].data == data,
            final(self).nodes@[id as int].children@.len() == 0,
            final(self).nodes@[id as int].properties == properties,
            final(self).nodes@[parent as int].children@ == old(self).nodes@[parent as int].children@.push(id),
            final(self).nodes@[parent as int].data == old(self).nodes@[parent as int].data,
            final(self).nodes@[parent as int].properties == old(self).nodes@[parent as int].properties,
            forall|t: int|
                0 <= t < old(self).nodes@.len() && t != parent ==> final(self).nodes@[t] == old(
                    self,
                ).nodes@[t],
    {
        let id = self.nodes.len();
        let node = Node { data, children: Vec::new(), properties };
        self.nodes.push(node);
        self.nodes[parent].children.push(id);
        id
    }

    /// The node at `id`, when the index is in the tree.
    pub fn get_node(&self, id: usize) -> (r: Option<&Node>)
        ensures
            match r {
                Some(n) => id < self.nodes@.len() && *n == self.nodes@[id as int],
                None => id >= self.nodes@.len(),
            },
    {
        if id < self.nodes.len() {
            Some(&self.nodes[id])
        } else {
            None
        }
    }
}

/// The first property named `name`, scanning in cascade order.
pub open spec fn spec_find_prop(props: Seq<Property>, name: Seq<char>) -> Option<Property>
    decreases props.len(),
{
    if props.len() == 0 {
        None
    } else if props[0].name@ == name {
        Some(props[0])
    } else {
        spec_find_prop(props.drop_first(), name)
    }
}

/// The property `name` of node `id`, when both exist.
pub open spec fn spec_node_prop(tree: RenderTree, id: int, name: Seq<char>) -> Option<Property> {
    if 0 <= id < tree.nodes@.len() {
        spec_find_prop(tree.nodes@[id].properties@, name)
    } else {
        None
    }
}

/// The first attribute named `name`, in attribute order.
pub open spec fn spec_find_attr(attrs: Seq<(String, String)>, name: Seq<char>) -> Option<String>
    decreases attrs.len(),
{
    if attrs.len() == 0 {
        None
    } else if attrs[0].0@ == name {
        Some(attrs[0].1)
    } else {
        spec_find_attr(attrs.drop_first(), name)
    }
}

impl RenderTree {
    /// Looks a property up by node id and name.
    pub fn get_property(&self, id: usize, name: &str) -> (r: Option<&Property>)
        ensures
            match r {
                Some(p) => spec_node_prop(*self, id as int, name@) == Some(*p),
                None => spec_node_prop(*self, id as int, name@) is None,
            },
    {
        let Some(node) = self.get_node(id) else { return None };
        let n = node.properties.len();
        proof {
            assert(node.properties@.skip(0) =~= node.properties@);
        }
        let mut i: usize = 0;
        while i < n
            invariant
                i <= n,
                n == node.properties@.len(),
                node == self.nodes@[id as int],
                id < self.nodes@.len(),
                spec_find_prop(node.properties@, name@) == spec_find_prop(
                    node.properties@.skip(i as int),
                    name@,
                ),
            decreases n - i,
        {
            proof {
                assert(node.properties@.skip(i as int)[0] == node.properties@[i as int]);
                assert(node.properties@.skip(i as int).drop_first() =~= node.properties@.skip(
                    i + 1,
                ));
            }
            let p = &node.properties[i];
            if str_eq_str(p.name.as_str(), name) {
                return Some(p);
            }
            i += 1;
        }
        proof {
            assert(node.properties@.skip(n as int) =~= Seq::<Property>::empty());
        }
        None
    }

    /// Looks an attribute up on an element node; text nodes have none.
    pub fn get_attribute(&self, id: usize, name: &str) -> (r: Option<&String>)
        ensures
            match r {
                Some(v) => id < self.nodes@.len() && (self.nodes@[id as int].data matches
                    NodeData::Element { tag, attributes } && spec_find_attr(attributes@, name@)
                    == Some(*v)),
                None => !(id < self.nodes@.len()
                    && (self.nodes@[id as int].data matches NodeData::Element {
                    tag,
                    attributes,
                } && spec_find_attr(attributes@, name@) is Some)),
            },
    {
        let Some(node) = self.get_node(id) else { return None };
        let NodeData::Element { tag: _, attributes } = &node.data else { return None };
        let n = attributes.len();
        proof {
            assert(attributes@.skip(0) =~= attributes@);
        }
        let mut i: usize = 0;
        while i < n
            invariant
                i <= n,
                n == attributes@.len(),
                id < self.nodes@.len(),
                node == self.nodes@[id as int],
                node.data matches NodeData::Element { tag: t2, attributes: a2 } && a2
                    == attributes,
                spec_find_attr(attributes@, name@) == spec_find_attr(
                    attributes@.skip(i as int),
                    name@,
                ),
            decreases n - i,
        {
            proof {
                assert(attributes@.skip(i as int)[0] == attributes@[i as int]);
                assert(attributes@.skip(i as int).drop_first() =~= attributes@.skip(i + 1));
            }
            let a = &attributes[i];
            if str_eq_str(a.0.as_str(), name) {
                return Some(&a.1);
            }
            i += 1;
        }
        proof {
            assert(attributes@.skip(n as int) =~= Seq::<(String, String)>::empty());
        }
        None
    }
}

// ---------------------------------------------------------------------------
// Tree-level value readers
// ---------------------------------------------------------------------------

/// The pixel length named `name` on node `id`, clamped into the `LEN_MAX`
/// range: `None` when the property is absent or does not resolve to a length.
pub open spec fn spec_read_px(tree: RenderTree, id: int, name: Seq<char>) -> Option<i64> {
    match spec_node_prop(tree, id, name) {
        Some(p) => match p.effective_spec() {
            UsedValue::Px(n) => Some(spec_clamp_len(n as int)),
            _ => None,
        },
        None => None,
    }
}

/// The color named `name` on node `id`: the resolved color when the property
/// resolves to one, fully transparent black when the property is present but
/// is no color, `None` when it is absent.
pub open spec fn spec_read_color(tree: RenderTree, id: int, name: Seq<char>) -> Option<Rgba> {
    match spec_node_prop(tree, id, name) {
        Some(p) => match p.effective_spec() {
            UsedValue::Color(c) => Some(c),
            _ => Some(Rgba { r: 0, g: 0, b: 0, a: 0 }),
        },
        None => None,
    }
}

/// The keyword string named `name` on node `id`, when the property resolves
/// to a keyword.
pub open spec fn spec_read_keyword(tree: RenderTree, id: int, name: Seq<char>) -> Option<String> {
    match spec_node_prop(tree, id, name) {
        Some(p) => match p.effective_spec() {
            UsedValue::Keyword(s) => Some(s),
            _ => None,
        },
        None => None,
    }
}

impl RenderTree {
    pub fn read_px(&self, id: usize, name: &str) -> (r: Option<i64>)
        ensures
            r == spec_read_px(*self, id as int, name@),
            r matches Some(n) ==> -LEN_MAX <= n <= LEN_MAX,
    {
        let Some(p) = self.get_property(id, name) else { return None };
        match p.effective() {
            UsedValue::Px(n) => Some(clamp_len(n)),
            _ => None,
        }
    }

    pub fn read_color(&self, id: usize, name: &str) -> (r: Option<Rgba>)
        ensures
            r == spec_read_color(*self, id as int, name@),
    {
        let Some(p) = self.get_property(id, name) else { return None };
        match p.effective() {
            UsedValue::Color(c) => Some(c),
            _ => Some(Rgba { r: 0, g: 0, b: 0, a: 0 }),
        }
    }

    pub fn read_keyword(&self, id: usize, name: &str) -> (r: Option<String>)
        ensures
            r == spec_read_keyword(*self, id as int, name@),
    {
        let Some(p) = self.get_property(id, name) else { return None };
        match p.effective() {
            UsedValue::Keyword(s) => Some(s),
            _ => None,
        }
    }
}

// ---------------------------------------------------------------------------
// Eager style resolution
// ---------------------------------------------------------------------------

/// What one resolved property looks like: the used-value slot filled with the
/// property's effective value, everything else untouched.
pub open spec fn spec_computed_prop(p: Property) -> Property {
    Property { used: Some(p.effective_spec()), ..p }
}

/// What one resolved node looks like: same payload and children, every
/// property resolved.
pub open spec fn node_computed(before: Node, after: Node) -> bool {
    &&& after.data == before.data
    &&& after.children == before.children
    &&& after.properties@.len() == before.properties@.len()
    &&& forall|j: int|
        0 <= j < before.properties@.len() ==> #[trigger] after.properties@[j]
            == spec_computed_prop(before.properties@[j])
}

/// Fills every used-value slot of one property list.
fn compute_props(props: &mut Vec<Property>)
    ensures
        final(props)@.len() == old(props)@.len(),
        forall|j: int|
            0 <= j < old(props)@.len() ==> #[trigger] final(props)@[j] == spec_computed_prop(
                old(props)@[j],
            ),
{
    let n = props.len();
    let mut j: usize = 0;
    while j < n
        invariant
            j <= n,
            n == props@.len(),
            props@.len() == old(props)@.len(),
            forall|t: int| j <= t < n ==> props@[t] == old(props)@[t],
            forall|t: int|
                0 <= t < j ==> #[trigger] props@[t] == spec_computed_prop(old(props)@[t]),
        decreases n - j,
    {
        props[j].compute_value();
        j += 1;
    }
}

impl RenderTree {
    /// The eager single pass before painting: resolves every property of
    /// every node once. Already-resolved slots are kept as they are, and
    /// payloads and children are untouched.
    pub fn calculate_styles(&mut self)
        ensures
            final(self).nodes@.len() == old(self).nodes@.len(),
            forall|i: int|
                0 <= i < old(self).nodes@.len() ==> node_computed(
                    old(self).nodes@[i],
                    #[trigger] final(self).nodes@[i],
                ),
            old(self).wf() ==> final(self).wf(),
    {
        let n = self.nodes.len();
        let mut i: usize = 0;
        while i < n
            invariant
                i <= n,
                n == self.nodes@.len(),
                self.nodes@.len() == old(self).nodes@.len(),
                forall|t: int| i <= t < n ==> self.nodes@[t] == old(self).nodes@[t],
                forall|t: int|
                    0 <= t < i ==> node_computed(old(self).nodes@[t], #[trigger] self.nodes@[t]),
            decreases n - i,
        {
            compute_props(&mut self.nodes[i].properties);
            i += 1;
        }
        proof {
            if old(self).wf() {
                assert forall|i: int, k: int|
                    0 <= i < self.nodes@.len() && 0 <= k < self.nodes@[i].children@.len()
                        implies i < #[trigger] self.nodes@[i].children@[k]
                    < self.nodes@.len() by {
                    assert(node_computed(old(self).nodes@[i], self.nodes@[i]));
                }
                assert forall|i: int| 0 <= i < self.nodes@.len() implies data_wf(
                    (#[trigger] self.nodes@[i]).data,
                ) by {
                    assert(node_computed(old(self).nodes@[i], self.nodes@[i]));
                }
            }
        }
    }
}


/// Resolution is idempotent: resolving an already-resolved property keeps the
/// cached used value, so a second pass is a no-op.
pub proof fn lemma_compute_idempotent(p: Property)
    ensures
        spec_computed_prop(spec_computed_prop(p)) == spec_computed_prop(p),
{
}

} // verus!
