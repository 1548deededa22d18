//! The JSON-level description of a composition graph and its conversion
//! into the [`CompositionGraph`] model, plus graph validation.

use vstd::prelude::*;
use crate::seqs::views;
use crate::model::{
    has_node, graph_valid, ComponentNode, ComponentNodeV, CompositionGraph, CompositionGraphV,
    InterfaceConnection, InterfaceConnectionV,
};
use vstd::string::StringExecFns;

verus! {

broadcast use crate::seqs::group_views;

/// Mathematical view of a [`JsonInterfaceConnection`].
#[verifier::ext_equal]
pub ghost struct JsonInterfaceConnectionV {
    pub interface: Seq<char>,
    pub short: Seq<char>,
    pub source_instance: u32,
    pub is_host_import: bool,
}

/// One import of a node, as described in the JSON input. The `short` name is
/// accepted but unused by the planner.
pub struct JsonInterfaceConnection {
    pub interface: String,
    pub short: String,
    pub source_instance: u32,
    pub is_host_import: bool,
}

impl View for JsonInterfaceConnection {
    type V = JsonInterfaceConnectionV;

    open spec fn view(&self) -> JsonInterfaceConnectionV {
        JsonInterfaceConnectionV {
            interface: self.interface@,
            short: self.short@,
            source_instance: self.source_instance,
            is_host_import: self.is_host_import,
        }
    }
}

/// Mathematical view of a [`JsonNode`].
#[verifier::ext_equal]
pub ghost struct JsonNodeV {
    pub id: u32,
    pub name: Seq<char>,
    pub component_index: u32,
    pub imports: Seq<JsonInterfaceConnectionV>,
}

/// One instance, as described in the JSON input.
pub struct JsonNode {
    pub id: u32,
    pub name: String,
    pub component_index: u32,
    pub imports: Vec<JsonInterfaceConnection>,
}

impl View for JsonNode {
    type V = JsonNodeV;

    open spec fn view(&self) -> JsonNodeV {
        JsonNodeV {
            id: self.id,
            name: self.name@,
            component_index: self.component_index,
            imports: views(self.imports@),
        }
    }
}

/// Mathematical view of a [`JsonExport`].
#[verifier::ext_equal]
pub ghost struct JsonExportV {
    pub interface: Seq<char>,
    pub source_instance: u32,
}

/// One top-level export, as described in the JSON input.
pub struct JsonExport {
    pub interface: String,
    pub source_instance: u32,
}

impl View for JsonExport {
    type V = JsonExportV;

    open spec fn view(&self) -> JsonExportV {
        JsonExportV { interface: self.interface@, source_instance: self.source_instance }
    }
}

/// Mathematical view of a [`JsonCompositionGraph`].
#[verifier::ext_equal]
pub ghost struct JsonCompositionGraphV {
    pub nodes: Seq<JsonNodeV>,
    pub exports: Seq<JsonExportV>,
}

/// The JSON-level composition graph.
pub struct JsonCompositionGraph {
    pub nodes: Vec<JsonNode>,
    pub exports: Vec<JsonExport>,
}

impl View for JsonCompositionGraph {
    type V = JsonCompositionGraphV;

    open spec fn view(&self) -> JsonCompositionGraphV {
        JsonCompositionGraphV {
            nodes: views(self.nodes@),
            exports: views(self.exports@),
        }
    }
}

/// The model import built from a JSON import: the unused short name is
/// dropped.
pub open spec fn conn_of_json(c: JsonInterfaceConnectionV) -> InterfaceConnectionV {
    InterfaceConnectionV {
        interface_name: c.interface,
        source_instance: c.source_instance,
        is_host_import: c.is_host_import,
    }
}

/// The model node built from a JSON node: the `$` sigil convention is
/// restored on the name, and the imports are carried over in order.
pub open spec fn node_of_json(n: JsonNodeV) -> ComponentNodeV {
    ComponentNodeV {
        name: "$"@ + n.name,
        component_index: n.component_index,
        imports: Seq::new(n.imports.len(), |j: int| conn_of_json(n.imports[j])),
    }
}

/// The first position whose id is at least `id`; `nodes.len()` if none.
pub open spec fn node_insert_pos_from(
    nodes: Seq<(u32, ComponentNodeV)>,
    id: u32,
    i: int,
) -> int
    decreases nodes.len() - i,
{
    if i < 0 || i >= nodes.len() {
        nodes.len() as int
    } else if nodes[i].0 >= id {
        i
    } else {
        node_insert_pos_from(nodes, id, i + 1)
    }
}

/// Ordered-map insertion into the id-sorted node list: an existing entry
/// with the same id is replaced, otherwise the pair is placed in id order.
pub open spec fn insert_node(
    nodes: Seq<(u32, ComponentNodeV)>,
    id: u32,
    n: ComponentNodeV,
) -> Seq<(u32, ComponentNodeV)> {
    let pos = node_insert_pos_from(nodes, id, 0);
    if pos < nodes.len() && nodes[pos].0 == id {
        nodes.update(pos, (id, n))
    } else {
        nodes.insert(pos, (id, n))
    }
}

/// The node list after inserting the JSON nodes from position `i` on.
pub open spec fn nodes_from_json(
    js: Seq<JsonNodeV>,
    i: int,
    acc: Seq<(u32, ComponentNodeV)>,
) -> Seq<(u32, ComponentNodeV)>
    decreases js.len() - i,
{
    if i < 0 || i >= js.len() {
        acc
    } else {
        nodes_from_json(js, i + 1, insert_node(acc, js[i].id, node_of_json(js[i])))
    }
}

/// The first position carrying the export name, or `exports.len()`.
pub open spec fn export_pos_from(
    exports: Seq<(Seq<char>, u32)>,
    name: Seq<char>,
    i: int,
) -> int
    decreases exports.len() - i,
{
    if i < 0 || i >= exports.len() {
        exports.len() as int
    } else if exports[i].0 == name {
        i
    } else {
        export_pos_from(exports, name, i + 1)
    }
}

/// Map insertion into the export list: a present name has its instance
/// replaced, an absent one is appended.
pub open spec fn insert_export(
    exports: Seq<(Seq<char>, u32)>,
    name: Seq<char>,
    src: u32,
) -> Seq<(Seq<char>, u32)> {
    let pos = export_pos_from(exports, name, 0);
    if pos < exports.len() {
        exports.update(pos, (name, src))
    } else {
        exports.push((name, src))
    }
}

/// The export list after inserting the JSON exports from position `i` on.
pub open spec fn exports_from_json(
    js: Seq<JsonExportV>,
    i: int,
    acc: Seq<(Seq<char>, u32)>,
) -> Seq<(Seq<char>, u32)>
    decreases js.len() - i,
{
    if i < 0 || i >= js.len() {
        acc
    } else {
        exports_from_json(js, i + 1, insert_export(acc, js[i].interface, js[i].source_instance))
    }
}

/// The graph described by a JSON model.
pub open spec fn graph_from_json(m: JsonCompositionGraphV) -> CompositionGraphV {
    CompositionGraphV {
        nodes: nodes_from_json(m.nodes, 0, Seq::empty()),
        component_exports: exports_from_json(m.exports, 0, Seq::empty()),
    }
}

/// The insertion scan stays within bounds, passes only smaller ids, and
/// stops at an id at least as large.
proof fn lemma_node_pos_props(nodes: Seq<(u32, ComponentNodeV)>, id: u32, i: int)
    requires
        0 <= i <= nodes.len(),
    ensures
        i <= node_insert_pos_from(nodes, id, i) <= nodes.len(),
        forall|k: int|
            i <= k < node_insert_pos_from(nodes, id, i) ==> (#[trigger] nodes[k]).0 < id,
        node_insert_pos_from(nodes, id, i) < nodes.len() ==> nodes[node_insert_pos_from(
            nodes,
            id,
            i,
        )].0 >= id,
    decreases nodes.len() - i,
{
    if i < nodes.len() && nodes[i].0 < id {
        lemma_node_pos_props(nodes, id, i + 1);
    }
}

/// Ordered insertion keeps the node list strictly sorted.
proof fn lemma_insert_node_sorted(nodes: Seq<(u32, ComponentNodeV)>, id: u32, n: ComponentNodeV)
    requires
        crate::model::nodes_sorted(nodes),
    ensures
        crate::model::nodes_sorted(insert_node(nodes, id, n)),
{
    lemma_node_pos_props(nodes, id, 0);
    let p = node_insert_pos_from(nodes, id, 0);
    if p < nodes.len() && nodes[p].0 == id {
        let r = nodes.update(p, (id, n));
        assert forall|i: int, j: int| 0 <= i < j < r.len() implies (#[trigger] r[i]).0 < (
        #[trigger] r[j]).0 by {
            assert(r[i].0 == nodes[i].0);
            assert(r[j].0 == nodes[j].0);
        }
    } else {
        let r = nodes.insert(p, (id, n));
        nodes.insert_ensures(p, (id, n));
        assert forall|i: int, j: int| 0 <= i < j < r.len() implies (#[trigger] r[i]).0 < (
        #[trigger] r[j]).0 by {
            if i < p && j < p {
            } else if i < p && j == p {
                assert(r[i].0 == nodes[i].0 && nodes[i].0 < id);
            } else if i == p {
                assert(r[j].0 == nodes[j - 1].0);
                assert(nodes[p].0 >= id && nodes[p].0 != id);
                if j - 1 > p {
                    assert(nodes[p].0 <= nodes[j - 1].0);
                }
            } else if i < p {
                assert(r[i].0 == nodes[i].0);
                assert(r[j].0 == nodes[j - 1].0);
                assert(nodes[i].0 < nodes[j - 1].0);
            } else {
                assert(r[i].0 == nodes[i - 1].0);
                assert(r[j].0 == nodes[j - 1].0);
            }
        }
    }
}

/// Building from JSON nodes keeps the node list strictly sorted.
proof fn lemma_nodes_from_json_sorted(
    js: Seq<JsonNodeV>,
    i: int,
    acc: Seq<(u32, ComponentNodeV)>,
)
    requires
        crate::model::nodes_sorted(acc),
    ensures
        crate::model::nodes_sorted(nodes_from_json(js, i, acc)),
    decreases js.len() - i,
{
    if !(i < 0 || i >= js.len()) {
        lemma_insert_node_sorted(acc, js[i].id, node_of_json(js[i]));
        lemma_nodes_from_json_sorted(js, i + 1, insert_node(acc, js[i].id, node_of_json(js[i])));
    }
}

/// The export scan passes only other names.
proof fn lemma_export_pos_props(exports: Seq<(Seq<char>, u32)>, name: Seq<char>, i: int)
    requires
        0 <= i <= exports.len(),
    ensures
        i <= export_pos_from(exports, name, i) <= exports.len(),
        forall|k: int|
            i <= k < export_pos_from(exports, name, i) ==> (#[trigger] exports[k]).0 != name,
        export_pos_from(exports, name, i) < exports.len() ==> exports[export_pos_from(
            exports,
            name,
            i,
        )].0 == name,
    decreases exports.len() - i,
{
    if i < exports.len() && exports[i].0 != name {
        lemma_export_pos_props(exports, name, i + 1);
    }
}

/// Map insertion keeps the export names pairwise distinct.
proof fn lemma_insert_export_unique(exports: Seq<(Seq<char>, u32)>, name: Seq<char>, src: u32)
    requires
        crate::model::exports_unique(exports),
    ensures
        crate::model::exports_unique(insert_export(exports, name, src)),
{
    lemma_export_pos_props(exports, name, 0);
    let p = export_pos_from(exports, name, 0);
    if p < exports.len() {
        let r = exports.update(p, (name, src));
        assert forall|i: int, j: int| 0 <= i < j < r.len() implies (#[trigger] r[i]).0 != (
        #[trigger] r[j]).0 by {
            assert(exports[p].0 == name);
            assert(r[i] == if i == p {
                (name, src)
            } else {
                exports[i]
            });
            assert(r[j] == if j == p {
                (name, src)
            } else {
                exports[j]
            });
        }
    } else {
        let r = exports.push((name, src));
        assert forall|i: int, j: int| 0 <= i < j < r.len() implies (#[trigger] r[i]).0 != (
        #[trigger] r[j]).0 by {
            if j == exports.len() {
                assert(r[i] == exports[i]);
                assert(exports[i].0 != name);
            }
        }
    }
}

/// Building from JSON exports keeps the names pairwise distinct.
proof fn lemma_exports_from_json_unique(
    js: Seq<JsonExportV>,
    i: int,
    acc: Seq<(Seq<char>, u32)>,
)
    requires
        crate::model::exports_unique(acc),
    ensures
        crate::model::exports_unique(exports_from_json(js, i, acc)),
    decreases js.len() - i,
{
    if !(i < 0 || i >= js.len()) {
        lemma_insert_export_unique(acc, js[i].interface, js[i].source_instance);
        lemma_exports_from_json_unique(
            js,
            i + 1,
            insert_export(acc, js[i].interface, js[i].source_instance),
        );
    }
}

/// Mathematical view of a [`GraphError`].
#[verifier::ext_equal]
pub ghost enum GraphErrorV {
    MissingExportSource { interface: Seq<char>, instance: u32 },
    MissingImportSource { instance: u32, interface: Seq<char>, source: u32 },
}

/// A malformed graph: an export or a non-host import names an instance that
/// does not exist.
pub enum GraphError {
    MissingExportSource { interface: String, instance: u32 },
    MissingImportSource { instance: u32, interface: String, source: u32 },
}

impl View for GraphError {
    type V = GraphErrorV;

    open spec fn view(&self) -> GraphErrorV {
        match self {
            GraphError::MissingExportSource { interface, instance } => {
                GraphErrorV::MissingExportSource { interface: interface@, instance: *instance }
            },
            GraphError::MissingImportSource { instance, interface, source } => {
                GraphErrorV::MissingImportSource {
                    instance: *instance,
                    interface: interface@,
                    source: *source,
                }
            },
        }
    }
}

/// The first dangling export from position `i` on.
pub open spec fn export_scan(g: CompositionGraphV, i: int) -> Option<GraphErrorV>
    decreases g.component_exports.len() - i,
{
    if i < 0 || i >= g.component_exports.len() {
        None
    } else if !has_node(g.nodes, g.component_exports[i].1) {
        Some(
            GraphErrorV::MissingExportSource {
                interface: g.component_exports[i].0,
                instance: g.component_exports[i].1,
            },
        )
    } else {
        export_scan(g, i + 1)
    }
}

/// The first dangling non-host import of node `id` from import `j` on.
pub open spec fn import_scan_node(
    g: CompositionGraphV,
    id: u32,
    imports: Seq<InterfaceConnectionV>,
    j: int,
) -> Option<GraphErrorV>
    decreases imports.len() - j,
{
    if j < 0 || j >= imports.len() {
        None
    } else if !imports[j].is_host_import && !has_node(g.nodes, imports[j].source_instance) {
        Some(
            GraphErrorV::MissingImportSource {
                instance: id,
                interface: imports[j].interface_name,
                source: imports[j].source_instance,
            },
        )
    } else {
        import_scan_node(g, id, imports, j + 1)
    }
}

/// The first dangling non-host import from node position `i` on.
pub open spec fn import_scan(g: CompositionGraphV, i: int) -> Option<GraphErrorV>
    decreases g.nodes.len() - i,
{
    if i < 0 || i >= g.nodes.len() {
        None
    } else {
        match import_scan_node(g, g.nodes[i].0, g.nodes[i].1.imports, 0) {
            Some(e) => Some(e),
            None => import_scan(g, i + 1),
        }
    }
}

/// The first validity violation of the graph, exports scanned first.
pub open spec fn validate_scan(g: CompositionGraphV) -> Option<GraphErrorV> {
    match export_scan(g, 0) {
        Some(e) => Some(e),
        None => import_scan(g, 0),
    }
}

proof fn lemma_export_scan_none(g: CompositionGraphV, i: int)
    requires
        0 <= i <= g.component_exports.len(),
    ensures
        export_scan(g, i) is None <==> forall|k: int|
            i <= k < g.component_exports.len() ==> has_node(
                g.nodes,
                (#[trigger] g.component_exports[k]).1,
            ),
    decreases g.component_exports.len() - i,
{
    if i < g.component_exports.len() {
        lemma_export_scan_none(g, i + 1);
    }
}

proof fn lemma_import_scan_node_none(
    g: CompositionGraphV,
    id: u32,
    imports: Seq<InterfaceConnectionV>,
    j: int,
)
    requires
        0 <= j <= imports.len(),
    ensures
        import_scan_node(g, id, imports, j) is None <==> forall|k: int|
            j <= k < imports.len() ==> crate::model::import_ok(g, #[trigger] imports[k]),
    decreases imports.len() - j,
{
    if j < imports.len() {
        lemma_import_scan_node_none(g, id, imports, j + 1);
    }
}

proof fn lemma_import_scan_none(g: CompositionGraphV, i: int)
    requires
        0 <= i <= g.nodes.len(),
    ensures
        import_scan(g, i) is None <==> forall|k: int, j: int|
            i <= k < g.nodes.len() && 0 <= j < g.nodes[k].1.imports.len()
                ==> crate::model::import_ok(g, #[trigger] g.nodes[k].1.imports[j]),
    decreases g.nodes.len() - i,
{
    if i < g.nodes.len() {
        lemma_import_scan_node_none(g, g.nodes[i].0, g.nodes[i].1.imports, 0);
        lemma_import_scan_none(g, i + 1);
    }
}

/// The validity scan finds nothing exactly on valid graphs.
pub proof fn lemma_validate_scan_valid(g: CompositionGraphV)
    ensures
        validate_scan(g) is None <==> graph_valid(g),
{
    lemma_export_scan_none(g, 0);
    lemma_import_scan_none(g, 0);
}

/// Inserts `(id, n)` into the id-keyed node list, as the ordered map would.
fn insert_node_exec(nodes: &mut Vec<(u32, ComponentNode)>, id: u32, n: ComponentNode)
    ensures
        views(final(nodes)@) == insert_node(
            views(old(nodes)@),
            id,
            n@,
        ),
{
    let ghost v = views(nodes@);
    let mut pos: usize = 0;
    while pos < nodes.len() && nodes[pos].0 < id
        invariant
            pos <= nodes.len(),
            v == views(nodes@),
            node_insert_pos_from(v, id, 0) == node_insert_pos_from(v, id, pos as int),
        decreases nodes.len() - pos,
    {
        pos = pos + 1;
    }
    proof {
        assert(node_insert_pos_from(v, id, 0) == pos as int);
    }
    if pos < nodes.len() && nodes[pos].0 == id {
        let e = vstd::std_specs::vec::vec_index_mut(nodes, pos);
        *e = (id, n);
        proof {
            assert(views(nodes@) =~= insert_node(v, id, n@));
        }
    } else {
        nodes.insert(pos, (id, n));
        proof {
            assert(views(nodes@) =~= insert_node(v, id, n@));
        }
    }
}

/// Inserts `(name, src)` into the name-keyed export list, replacing the
/// instance of a name already present.
fn insert_export_exec(exports: &mut Vec<(String, u32)>, name: String, src: u32)
    ensures
        views(final(exports)@) == insert_export(
            views(old(exports)@),
            name@,
            src,
        ),
{
    let ghost v = views(exports@);
    let mut k: usize = 0;
    while k < exports.len()
        invariant
            k <= exports.len(),
            v == views(exports@),
            v == views(old(exports)@),
            export_pos_from(v, name@, 0) == export_pos_from(v, name@, k as int),
        decreases exports.len() - k,
    {
        if crate::text::str_eq(exports[k].0.as_str(), name.as_str()) {
            proof {
                assert(export_pos_from(v, name@, 0) == k as int);
            }
            let e = vstd::std_specs::vec::vec_index_mut(exports, k);
            *e = (name, src);
            proof {
                assert(views(exports@) =~= insert_export(v, name@, src));
            }
            return ;
        }
        k = k + 1;
    }
    proof {
        assert(export_pos_from(v, name@, 0) == exports@.len() as int);
    }
    exports.push((name, src));
    proof {
        assert(views(exports@) =~= insert_export(v, name@, src));
    }
}

impl CompositionGraph {
    /// Builds the graph from its JSON description: nodes are keyed by id in
    /// ascending order (later duplicates replace earlier ones), exports are
    /// keyed by interface name, and the `$` naming convention is restored.
    pub fn from_json_model(model: JsonCompositionGraph) -> (r: Self)
        ensures
            r@ == graph_from_json(model@),
            crate::model::nodes_sorted(r@.nodes),
            crate::model::exports_unique(r@.component_exports),
    {
        proof {
            lemma_nodes_from_json_sorted(model@.nodes, 0, Seq::empty());
            lemma_exports_from_json_unique(model@.exports, 0, Seq::empty());
        }
        let ghost goal_nodes = nodes_from_json(model@.nodes, 0, Seq::empty());
        let mut nodes: Vec<(u32, ComponentNode)> = Vec::new();
        proof {
            assert(views(nodes@) =~= Seq::<(u32, ComponentNodeV)>::empty());
        }
        let mut i: usize = 0;
        while i < model.nodes.len()
            invariant
                i <= model.nodes.len(),
                goal_nodes == nodes_from_json(
                    model@.nodes,
                    i as int,
                    views(nodes@),
                ),
            decreases model.nodes.len() - i,
        {
            let jn = &model.nodes[i];
            proof {
                assert(model@.nodes[i as int] == jn@);
            }
            let mut name = String::from_str("$");
            name.append(jn.name.as_str());
            let mut node = ComponentNode::new(name, jn.component_index);
            let mut j: usize = 0;
            while j < jn.imports.len()
                invariant
                    j <= jn.imports.len(),
                    node@.name == node_of_json(jn@).name,
                    node@.component_index == node_of_json(jn@).component_index,
                    node@.imports == node_of_json(jn@).imports.take(j as int),
                decreases jn.imports.len() - j,
            {
                let c = &jn.imports[j];
                proof {
                    assert(jn@.imports[j as int] == c@);
                }
                node.add_import(
                    InterfaceConnection {
                        interface_name: c.interface.clone(),
                        source_instance: c.source_instance,
                        is_host_import: c.is_host_import,
                    },
                );
                proof {
                    assert(node@.imports =~= node_of_json(jn@).imports.take(j + 1 as int));
                }
                j = j + 1;
            }
            proof {
                assert(node_of_json(jn@).imports.take(jn@.imports.len() as int) =~= node_of_json(
                    jn@,
                ).imports);
                assert(node@ =~= node_of_json(jn@));
            }
            insert_node_exec(&mut nodes, jn.id, node);
            i = i + 1;
        }
        let ghost goal_exports = exports_from_json(model@.exports, 0, Seq::empty());
        let mut component_exports: Vec<(String, u32)> = Vec::new();
        proof {
            assert(views(component_exports@) =~= Seq::<
                (Seq<char>, u32),
            >::empty());
        }
        let mut e: usize = 0;
        while e < model.exports.len()
            invariant
                e <= model.exports.len(),
                goal_exports == exports_from_json(
                    model@.exports,
                    e as int,
                    views(component_exports@),
                ),
            decreases model.exports.len() - e,
        {
            let je = &model.exports[e];
            proof {
                assert(model@.exports[e as int] == je@);
            }
            insert_export_exec(&mut component_exports, je.interface.clone(), je.source_instance);
            e = e + 1;
        }
        let r = CompositionGraph { nodes, component_exports };
        proof {
            assert(r@ =~= graph_from_json(model@));
        }
        r
    }

    /// Checks the graph invariants: every export and every non-host import
    /// must name an existing instance. Returns the first violation found,
    /// exports scanned before imports.
    pub fn validate(&self) -> (r: Result<(), GraphError>)
        ensures
            match r {
                Ok(()) => graph_valid(self@),
                Err(e) => validate_scan(self@) == Some(e@) && !graph_valid(self@),
            },
    {
        proof {
            lemma_validate_scan_valid(self@);
        }
        let mut i: usize = 0;
        while i < self.component_exports.len()
            invariant
                i <= self.component_exports.len(),
                export_scan(self@, 0) == export_scan(self@, i as int),
            decreases self.component_exports.len() - i,
        {
            let src = self.component_exports[i].1;
            proof {
                assert(self@.component_exports[i as int] == (
                    self.component_exports@[i as int].0@,
                    self.component_exports@[i as int].1,
                ));
            }
            match self.get_node(src) {
                Some(_) => {},
                None => {
                    return Err(
                        GraphError::MissingExportSource {
                            interface: self.component_exports[i].0.clone(),
                            instance: src,
                        },
                    );
                },
            }
            i = i + 1;
        }
        let mut k: usize = 0;
        while k < self.nodes.len()
            invariant
                k <= self.nodes.len(),
                export_scan(self@, 0) is None,
                import_scan(self@, 0) == import_scan(self@, k as int),
            decreases self.nodes.len() - k,
        {
            let id = self.nodes[k].0;
            let node = &self.nodes[k].1;
            proof {
                assert(self@.nodes[k as int] == (id, node@));
            }
            let mut j: usize = 0;
            while j < node.imports.len()
                invariant
                    j <= node.imports.len(),
                    self@.nodes[k as int] == (id, node@),
                    k < self@.nodes.len(),
                    export_scan(self@, 0) is None,
                    import_scan(self@, 0) == import_scan(self@, k as int),
                    import_scan_node(self@, id, node@.imports, 0) == import_scan_node(
                        self@,
                        id,
                        node@.imports,
                        j as int,
                    ),
                decreases node.imports.len() - j,
            {
                let conn = &node.imports[j];
                proof {
                    assert(node@.imports[j as int] == conn@);
                }
                if !conn.is_host_import {
                    match self.get_node(conn.source_instance) {
                        Some(_) => {},
                        None => {
                            return Err(
                                GraphError::MissingImportSource {
                                    instance: id,
                                    interface: conn.interface_name.clone(),
                                    source: conn.source_instance,
                                },
                            );
                        },
                    }
                }
                j = j + 1;
            }
            k = k + 1;
        }
        Ok(())
    }
}

} // verus!
