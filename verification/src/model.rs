//! The composition graph: component instances, their interface imports, and
//! the top-level exports of the composed component.

use vstd::prelude::*;
use crate::seqs::views;
use crate::text::{strip_dollars, strip_dollars_from};
use vstd::string::StrSliceExecFns;

verus! {

broadcast use crate::seqs::group_views;

/// Mathematical view of an [`InterfaceConnection`].
#[verifier::ext_equal]
pub ghost struct InterfaceConnectionV {
    pub interface_name: Seq<char>,
    pub source_instance: u32,
    pub is_host_import: bool,
}

/// Mathematical view of a [`ComponentNode`].
#[verifier::ext_equal]
pub ghost struct ComponentNodeV {
    pub name: Seq<char>,
    pub component_index: u32,
    pub imports: Seq<InterfaceConnectionV>,
}

/// Mathematical view of a [`CompositionGraph`].
#[verifier::ext_equal]
pub ghost struct CompositionGraphV {
    pub nodes: Seq<(u32, ComponentNodeV)>,
    pub component_exports: Seq<(Seq<char>, u32)>,
}

/// Wiring of one imported interface: which instance (or the host) provides it.
pub struct InterfaceConnection {
    /// The full interface name, e.g. `wasi:http/handler@0.3.0-rc-2026-01-06`.
    pub interface_name: String,
    /// The instance that provides this interface.
    pub source_instance: u32,
    /// Whether the interface is supplied by the embedding host.
    pub is_host_import: bool,
}

impl View for InterfaceConnection {
    type V = InterfaceConnectionV;

    open spec fn view(&self) -> InterfaceConnectionV {
        InterfaceConnectionV {
            interface_name: self.interface_name@,
            source_instance: self.source_instance,
            is_host_import: self.is_host_import,
        }
    }
}

/// A component instance in the composition.
pub struct ComponentNode {
    /// Instance name, carrying the `$` sigil convention (e.g. `"$srv"`).
    pub name: String,
    /// Which source subcomponent this instance was instantiated from.
    pub component_index: u32,
    /// The interfaces this instance receives, in their original order.
    pub imports: Vec<InterfaceConnection>,
}

impl View for ComponentNode {
    type V = ComponentNodeV;

    open spec fn view(&self) -> ComponentNodeV {
        ComponentNodeV {
            name: self.name@,
            component_index: self.component_index,
            imports: self.imports@.map_values(|c: InterfaceConnection| c@),
        }
    }
}

/// The parsed composition: instances keyed by ascending instance id, and the
/// top-level exports (interface name to providing instance, names unique).
pub struct CompositionGraph {
    /// All component instances, as `(instance id, node)` pairs in strictly
    /// ascending id order.
    pub nodes: Vec<(u32, ComponentNode)>,
    /// What the composed component exports: `(interface name, instance id)`
    /// pairs with pairwise distinct names.
    pub component_exports: Vec<(String, u32)>,
}

impl View for CompositionGraph {
    type V = CompositionGraphV;

    open spec fn view(&self) -> CompositionGraphV {
        CompositionGraphV {
            nodes: views(self.nodes@),
            component_exports: views(self.component_exports@),
        }
    }
}

/// The first node with id `id` among `nodes[i..]`.
pub open spec fn find_node_from(
    nodes: Seq<(u32, ComponentNodeV)>,
    id: u32,
    i: int,
) -> Option<ComponentNodeV>
    decreases nodes.len() - i,
{
    if i < 0 || i >= nodes.len() {
        None
    } else if nodes[i].0 == id {
        Some(nodes[i].1)
    } else {
        find_node_from(nodes, id, i + 1)
    }
}

/// The node with id `id`, if any.
pub open spec fn find_node(nodes: Seq<(u32, ComponentNodeV)>, id: u32) -> Option<
    ComponentNodeV,
> {
    find_node_from(nodes, id, 0)
}

/// Whether a node with id `id` exists.
pub open spec fn has_node(nodes: Seq<(u32, ComponentNodeV)>, id: u32) -> bool {
    find_node(nodes, id) is Some
}

/// The node with id `id`, or an empty placeholder when absent.
pub open spec fn node_of(nodes: Seq<(u32, ComponentNodeV)>, id: u32) -> ComponentNodeV {
    match find_node(nodes, id) {
        Some(n) => n,
        None => ComponentNodeV {
            name: Seq::empty(),
            component_index: 0,
            imports: Seq::empty(),
        },
    }
}

/// The display name of node `id`: its instance name without leading sigils.
pub open spec fn node_name(nodes: Seq<(u32, ComponentNodeV)>, id: u32) -> Seq<char> {
    strip_dollars(node_of(nodes, id).name)
}

/// The first import of interface `iface` among `imports[i..]`.
pub open spec fn find_import_from(
    imports: Seq<InterfaceConnectionV>,
    iface: Seq<char>,
    i: int,
) -> Option<InterfaceConnectionV>
    decreases imports.len() - i,
{
    if i < 0 || i >= imports.len() {
        None
    } else if imports[i].interface_name == iface {
        Some(imports[i])
    } else {
        find_import_from(imports, iface, i + 1)
    }
}

/// The first import of interface `iface`, if any.
pub open spec fn find_import(imports: Seq<InterfaceConnectionV>, iface: Seq<char>) -> Option<
    InterfaceConnectionV,
> {
    find_import_from(imports, iface, 0)
}

/// A found node is a member of the list, under its id.
pub proof fn lemma_find_node_member(nodes: Seq<(u32, ComponentNodeV)>, id: u32, i: int)
    requires
        0 <= i <= nodes.len(),
        find_node_from(nodes, id, i) is Some,
    ensures
        exists|k: int|
            i <= k < nodes.len() && #[trigger] nodes[k] == (id, find_node_from(nodes, id, i)->Some_0),
    decreases nodes.len() - i,
{
    if i < nodes.len() && nodes[i].0 != id {
        lemma_find_node_member(nodes, id, i + 1);
    }
}

/// A node whose id occurs in the list is found.
pub proof fn lemma_find_node_exists(nodes: Seq<(u32, ComponentNodeV)>, id: u32, i: int, k: int)
    requires
        0 <= i <= k < nodes.len(),
        nodes[k].0 == id,
    ensures
        find_node_from(nodes, id, i) is Some,
    decreases nodes.len() - i,
{
    if nodes[i].0 != id {
        lemma_find_node_exists(nodes, id, i + 1, k);
    }
}

/// A found import is a member of the import list, carrying the interface.
pub proof fn lemma_find_import_member(
    imports: Seq<InterfaceConnectionV>,
    iface: Seq<char>,
    i: int,
)
    requires
        0 <= i <= imports.len(),
        find_import_from(imports, iface, i) is Some,
    ensures
        exists|k: int|
            i <= k < imports.len() && #[trigger] imports[k] == find_import_from(
                imports,
                iface,
                i,
            )->Some_0,
        find_import_from(imports, iface, i)->Some_0.interface_name == iface,
    decreases imports.len() - i,
{
    if i < imports.len() && imports[i].interface_name != iface {
        lemma_find_import_member(imports, iface, i + 1);
    }
}

/// An import is well-sourced when it comes from the host or from an existing
/// instance.
pub open spec fn import_ok(g: CompositionGraphV, conn: InterfaceConnectionV) -> bool {
    conn.is_host_import || has_node(g.nodes, conn.source_instance)
}

/// The node list is strictly ascending by instance id, as an ordered map.
pub open spec fn nodes_sorted(nodes: Seq<(u32, ComponentNodeV)>) -> bool {
    forall|i: int, j: int|
        0 <= i < j < nodes.len() ==> (#[trigger] nodes[i]).0 < (#[trigger] nodes[j]).0
}

/// The export names are pairwise distinct, as a map keyed by name.
pub open spec fn exports_unique(exports: Seq<(Seq<char>, u32)>) -> bool {
    forall|i: int, j: int|
        0 <= i < j < exports.len() ==> (#[trigger] exports[i]).0 != (#[trigger] exports[j]).0
}

/// Graph validity: every export and every non-host import names an existing
/// instance.
pub open spec fn graph_valid(g: CompositionGraphV) -> bool {
    &&& forall|i: int|
        0 <= i < g.component_exports.len() ==> has_node(
            g.nodes,
            (#[trigger] g.component_exports[i]).1,
        )
    &&& forall|i: int, j: int|
        0 <= i < g.nodes.len() && 0 <= j < g.nodes[i].1.imports.len() ==> import_ok(
            g,
            #[trigger] g.nodes[i].1.imports[j],
        )
}

impl ComponentNode {
    /// A fresh instance with no imports.
    pub fn new(name: String, component_index: u32) -> (r: Self)
        ensures
            r@ == (ComponentNodeV {
                name: name@,
                component_index,
                imports: Seq::<InterfaceConnectionV>::empty(),
            }),
    {
        let r = Self { name, component_index, imports: Vec::new() };
        proof {
            assert(r@.imports =~= Seq::<InterfaceConnectionV>::empty());
        }
        r
    }

    /// Appends one import, keeping the earlier ones in order.
    pub fn add_import(&mut self, connection: InterfaceConnection)
        ensures
            final(self)@ == (ComponentNodeV {
                imports: old(self)@.imports.push(connection@),
                ..old(self)@
            }),
    {
        let ghost c = connection@;
        self.imports.push(connection);
        proof {
            assert(self@.imports =~= old(self)@.imports.push(c));
        }
    }

    /// The human label of the node: its name without leading `$` sigils.
    pub fn display_label(&self) -> (r: &str)
        ensures
            r@ == strip_dollars(self.name@),
    {
        let s = self.name.as_str();
        let n = s.unicode_len();
        let mut i: usize = 0;
        while i < n && s.get_char(i) == '$'
            invariant
                n == s@.len(),
                i <= n,
                strip_dollars(s@) == strip_dollars_from(s@, i as int),
            decreases n - i,
        {
            i = i + 1;
        }
        let r = s.substring_char(i, n);
        proof {
            assert(r@ =~= strip_dollars_from(s@, i as int));
        }
        r
    }
}

impl CompositionGraph {
    /// The node with id `id`, if present.
    pub fn get_node(&self, id: u32) -> (r: Option<&ComponentNode>)
        ensures
            match r {
                Some(n) => find_node(self@.nodes, id) == Some(n@),
                None => find_node(self@.nodes, id) is None,
            },
    {
        let mut i: usize = 0;
        while i < self.nodes.len()
            invariant
                i <= self.nodes.len(),
                find_node(self@.nodes, id) == find_node_from(self@.nodes, id, i as int),
            decreases self.nodes.len() - i,
        {
            if self.nodes[i].0 == id {
                return Some(&self.nodes[i].1);
            }
            i = i + 1;
        }
        None
    }
}

} // verus!
