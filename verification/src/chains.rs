//! The chain builder: for each interface, the longest run of instances that
//! forward it through non-host imports, walked outermost-first; every other
//! exported interface is lifted to a trivial single-node chain.

use vstd::prelude::*;
use crate::seqs::views;
use crate::model::{
    find_import, find_import_from, find_node, graph_valid, has_node, lemma_find_import_member,
    lemma_find_node_exists, lemma_find_node_member, ComponentNode, CompositionGraph,
    CompositionGraphV, ComponentNodeV, InterfaceConnection, InterfaceConnectionV,
};
use crate::parse::config::{Injection, InjectionV};
use crate::text::str_eq;

verus! {

broadcast use crate::seqs::group_views;

/// Mathematical view of an [`AliasBinding`].
#[verifier::ext_equal]
pub ghost struct AliasBindingV {
    pub instance: u32,
    pub alias: Option<Seq<char>>,
}

/// One alias registration: the matched instance and the name to declare it
/// under, where `None` records a match without a rename.
pub struct AliasBinding {
    pub instance: u32,
    pub alias: Option<String>,
}

impl View for AliasBinding {
    type V = AliasBindingV;

    open spec fn view(&self) -> AliasBindingV {
        AliasBindingV { instance: self.instance, alias: crate::text::opt_str_view(self.alias) }
    }
}

/// Mathematical view of a [`PlanEntry`].
#[verifier::ext_equal]
pub ghost struct PlanEntryV {
    pub position: usize,
    pub mdls: Seq<InjectionV>,
}

/// The middlewares to inject in front of one chain position, as an
/// insertion-ordered set without duplicates.
pub struct PlanEntry {
    pub position: usize,
    pub mdls: Vec<Injection>,
}

impl View for PlanEntry {
    type V = PlanEntryV;

    open spec fn view(&self) -> PlanEntryV {
        PlanEntryV { position: self.position, mdls: views(self.mdls@) }
    }
}

/// Mathematical view of a [`Chain`].
#[verifier::ext_equal]
pub ghost struct ChainV {
    pub interface: Seq<char>,
    pub chain: Seq<u32>,
    pub aliases: Seq<AliasBindingV>,
    pub inject_plan: Seq<PlanEntryV>,
}

/// One service chain: the interface it carries, the instances that forward
/// it from inner to outer, and, once the rules have run, the registered
/// aliases and the middlewares to inject before each position.
pub struct Chain {
    pub interface: String,
    pub chain: Vec<u32>,
    pub aliases: Vec<AliasBinding>,
    pub inject_plan: Vec<PlanEntry>,
}

impl View for Chain {
    type V = ChainV;

    open spec fn view(&self) -> ChainV {
        ChainV {
            interface: self.interface@,
            chain: self.chain@,
            aliases: views(self.aliases@),
            inject_plan: views(self.inject_plan@),
        }
    }
}

/// The instances walked from `cur` on, following at each step the first
/// import of `iface` when it is wired to another instance. `None` stands for
/// a walk that followed more edges than `fuel` allows: a cyclic graph.
pub open spec fn walk_chain(
    nodes: Seq<(u32, ComponentNodeV)>,
    iface: Seq<char>,
    cur: u32,
    fuel: nat,
) -> Option<Seq<u32>>
    decreases fuel,
{
    match find_node(nodes, cur) {
        None => Some(Seq::empty()),
        Some(n) => match find_import(n.imports, iface) {
            None => Some(Seq::empty()),
            Some(c) => if c.is_host_import {
                Some(Seq::empty())
            } else if fuel == 0 {
                None
            } else {
                match walk_chain(nodes, iface, c.source_instance, (fuel - 1) as nat) {
                    None => None,
                    Some(rest) => Some(seq![c.source_instance] + rest),
                }
            },
        },
    }
}

/// The full instance run of one import of node `id`: the node itself, the
/// providing instance when it is not the host, and the walked successors.
pub open spec fn chain_of_import(
    g: CompositionGraphV,
    id: u32,
    c: InterfaceConnectionV,
) -> Option<Seq<u32>> {
    match walk_chain(g.nodes, c.interface_name, c.source_instance, g.nodes.len() as nat) {
        None => None,
        Some(w) => Some(
            seq![id] + (if c.is_host_import {
                Seq::<u32>::empty()
            } else {
                seq![c.source_instance]
            }) + w,
        ),
    }
}

/// The running state of the builder: the interfaces already handled and the
/// chains recorded so far.
#[verifier::ext_equal]
pub ghost struct BuildStateV {
    pub handled: Seq<Seq<char>>,
    pub chains: Seq<ChainV>,
}

/// One import examined: its run is recorded as a chain when the interface is
/// new and the run is longer than the node alone, and the interface is
/// marked handled either way. `Err` carries the interface of a cyclic walk.
pub open spec fn import_step(
    g: CompositionGraphV,
    id: u32,
    c: InterfaceConnectionV,
    st: BuildStateV,
) -> Result<BuildStateV, Seq<char>> {
    match chain_of_import(g, id, c) {
        None => Err(c.interface_name),
        Some(full) => {
            let chains = if !st.handled.contains(c.interface_name) && full.len() > 1 {
                st.chains.push(
                    ChainV {
                        interface: c.interface_name,
                        chain: full.reverse(),
                        aliases: Seq::empty(),
                        inject_plan: Seq::empty(),
                    },
                )
            } else {
                st.chains
            };
            Ok(BuildStateV { handled: st.handled.push(c.interface_name), chains })
        },
    }
}

/// The state after examining the imports of node `id` from position `j` on.
pub open spec fn node_imports_step(
    g: CompositionGraphV,
    id: u32,
    imports: Seq<InterfaceConnectionV>,
    j: int,
    st: BuildStateV,
) -> Result<BuildStateV, Seq<char>>
    decreases imports.len() - j,
{
    if j < 0 || j >= imports.len() {
        Ok(st)
    } else {
        match import_step(g, id, imports[j], st) {
            Err(e) => Err(e),
            Ok(st2) => node_imports_step(g, id, imports, j + 1, st2),
        }
    }
}

/// The state after examining the nodes at positions `i` down to `0`,
/// outermost (highest id) first.
pub open spec fn nodes_desc_step(
    g: CompositionGraphV,
    i: int,
    st: BuildStateV,
) -> Result<BuildStateV, Seq<char>>
    decreases i + 1,
{
    if i < 0 || i >= g.nodes.len() {
        Ok(st)
    } else {
        match node_imports_step(g, g.nodes[i].0, g.nodes[i].1.imports, 0, st) {
            Err(e) => Err(e),
            Ok(st2) => nodes_desc_step(g, i - 1, st2),
        }
    }
}

/// A trivial chain for an exported interface nothing forwards.
pub open spec fn trivial_chain(iface: Seq<char>, src: u32) -> ChainV {
    ChainV {
        interface: iface,
        chain: seq![src],
        aliases: Seq::empty(),
        inject_plan: Seq::empty(),
    }
}

/// The chains after lifting the exports from position `i` on: each export
/// whose interface was not handled becomes a trivial chain.
pub open spec fn export_chains_step(g: CompositionGraphV, i: int, st: BuildStateV) -> Seq<ChainV>
    decreases g.component_exports.len() - i,
{
    if i < 0 || i >= g.component_exports.len() {
        st.chains
    } else {
        let e = g.component_exports[i];
        let st2 = if st.handled.contains(e.0) {
            st
        } else {
            BuildStateV { handled: st.handled, chains: st.chains.push(trivial_chain(e.0, e.1)) }
        };
        export_chains_step(g, i + 1, st2)
    }
}

/// The chains of the graph, or the interface of a cyclic walk.
pub open spec fn build_chains_spec(g: CompositionGraphV) -> Result<Seq<ChainV>, Seq<char>> {
    let init = BuildStateV { handled: Seq::empty(), chains: Seq::empty() };
    match nodes_desc_step(g, g.nodes.len() - 1, init) {
        Err(e) => Err(e),
        Ok(st) => Ok(export_chains_step(g, 0, st)),
    }
}

/// Every instance on the chain exists in the graph.
pub open spec fn chain_ids_ok(g: CompositionGraphV, c: ChainV) -> bool {
    forall|k: int| 0 <= k < c.chain.len() ==> has_node(g.nodes, #[trigger] c.chain[k])
}

/// Every instance on every chain exists in the graph.
pub open spec fn chains_ids_ok(g: CompositionGraphV, cs: Seq<ChainV>) -> bool {
    forall|i: int| 0 <= i < cs.len() ==> chain_ids_ok(g, #[trigger] cs[i])
}

/// On a valid graph, every instance a walk visits exists.
proof fn lemma_walk_ids_ok(
    g: CompositionGraphV,
    iface: Seq<char>,
    cur: u32,
    fuel: nat,
)
    requires
        graph_valid(g),
        walk_chain(g.nodes, iface, cur, fuel) is Some,
    ensures
        forall|k: int|
            0 <= k < walk_chain(g.nodes, iface, cur, fuel)->Some_0.len() ==> has_node(
                g.nodes,
                #[trigger] walk_chain(g.nodes, iface, cur, fuel)->Some_0[k],
            ),
    decreases fuel,
{
    match find_node(g.nodes, cur) {
        None => {},
        Some(n) => {
            match find_import(n.imports, iface) {
                None => {},
                Some(c) => {
                    if !c.is_host_import && fuel > 0 {
                        lemma_find_node_member(g.nodes, cur, 0);
                        let k = choose|k: int|
                            0 <= k < g.nodes.len() && #[trigger] g.nodes[k] == (cur, n);
                        lemma_find_import_member(n.imports, iface, 0);
                        let j = choose|j: int|
                            0 <= j < n.imports.len() && #[trigger] n.imports[j] == c;
                        assert(crate::model::import_ok(g, g.nodes[k].1.imports[j]));
                        lemma_walk_ids_ok(g, iface, c.source_instance, (fuel - 1) as nat);
                    }
                },
            }
        },
    }
}

/// Finds the first import of `iface` on a node.
fn find_import_exec<'a>(node: &'a ComponentNode, iface: &str) -> (r: Option<
    &'a InterfaceConnection,
>)
    ensures
        match r {
            Some(c) => find_import(node@.imports, iface@) == Some(c@),
            None => find_import(node@.imports, iface@) is None,
        },
{
    let mut j: usize = 0;
    while j < node.imports.len()
        invariant
            j <= node.imports.len(),
            find_import(node@.imports, iface@) == find_import_from(
                node@.imports,
                iface@,
                j as int,
            ),
        decreases node.imports.len() - j,
    {
        if str_eq(node.imports[j].interface_name.as_str(), iface) {
            return Some(&node.imports[j]);
        }
        j = j + 1;
    }
    None
}

/// Whether the character sequence of `s` occurs among the strings of `v`.
fn contains_str(v: &Vec<String>, s: &str) -> (r: bool)
    ensures
        r == views(v@).contains(s@),
{
    let mut i: usize = 0;
    while i < v.len()
        invariant
            i <= v.len(),
            forall|k: int| 0 <= k < i ==> views(v@)[k] != s@,
        decreases v.len() - i,
    {
        if str_eq(v[i].as_str(), s) {
            assert(views(v@)[i as int] == s@);
            return true;
        }
        i = i + 1;
    }
    proof {
        assert forall|k: int| 0 <= k < views(v@).len() implies views(v@)[k] != s@ by {}
    }
    false
}

/// A copy of a list of instance ids in reverse order.
fn reversed(v: &Vec<u32>) -> (r: Vec<u32>)
    ensures
        r@ == v@.reverse(),
{
    let mut out: Vec<u32> = Vec::new();
    let mut i: usize = v.len();
    while i > 0
        invariant
            i <= v.len(),
            out@.len() == v@.len() - i,
            forall|k: int| 0 <= k < out@.len() ==> out@[k] == v@[v@.len() - 1 - k],
        decreases i,
    {
        i = i - 1;
        out.push(v[i]);
    }
    proof {
        assert(out@ =~= v@.reverse());
    }
    out
}

/// Walks the chain of `iface` starting at instance `start`, following at
/// each step the first matching non-host import. Returns the instances
/// visited, or `None` when the walk followed more edges than the graph has
/// nodes, which only a cycle can cause.
fn walk_chain_exec(g: &CompositionGraph, iface: &str, start: u32) -> (r: Option<Vec<u32>>)
    ensures
        match r {
            Some(w) => walk_chain(g@.nodes, iface@, start, g@.nodes.len() as nat) == Some(w@),
            None => walk_chain(g@.nodes, iface@, start, g@.nodes.len() as nat) is None,
        },
{
    let ghost goal = walk_chain(g@.nodes, iface@, start, g@.nodes.len() as nat);
    let mut acc: Vec<u32> = Vec::new();
    let mut cur: u32 = start;
    let mut fuel: usize = g.nodes.len();
    loop
        invariant
            fuel <= g@.nodes.len(),
            goal == walk_chain(g@.nodes, iface@, start, g@.nodes.len() as nat),
            match walk_chain(g@.nodes, iface@, cur, fuel as nat) {
                None => goal is None,
                Some(rest) => goal == Some(acc@ + rest),
            },
        decreases fuel,
    {
        match g.get_node(cur) {
            None => {
                proof {
                    assert(acc@ + Seq::<u32>::empty() =~= acc@);
                }
                return Some(acc);
            },
            Some(node) => {
                match find_import_exec(node, iface) {
                    None => {
                        proof {
                            assert(acc@ + Seq::<u32>::empty() =~= acc@);
                        }
                        return Some(acc);
                    },
                    Some(conn) => {
                        if conn.is_host_import {
                            proof {
                                assert(acc@ + Seq::<u32>::empty() =~= acc@);
                            }
                            return Some(acc);
                        }
                        if fuel == 0 {
                            return None;
                        }
                        let ghost old_acc = acc@;
                        acc.push(conn.source_instance);
                        cur = conn.source_instance;
                        fuel = fuel - 1;
                        proof {
                            match walk_chain(g@.nodes, iface@, cur, fuel as nat) {
                                None => {},
                                Some(rest) => {
                                    assert(old_acc + (seq![cur] + rest) =~= acc@ + rest);
                                },
                            }
                        }
                    },
                }
            },
        }
    }
}

/// Builds the chains of the graph: for each interface seen from its
/// outermost consumer, the longest forwarding run; then a trivial chain for
/// each export whose interface no run covers. `Err` carries the interface
/// of a cyclic walk.
pub fn build_chains(g: &CompositionGraph) -> (r: Result<Vec<Chain>, String>)
    requires
        graph_valid(g@),
        crate::model::nodes_sorted(g@.nodes),
    ensures
        match r {
            Ok(cs) => build_chains_spec(g@) == Ok::<Seq<ChainV>, Seq<char>>(views(cs@))
                && chains_ids_ok(g@, views(cs@)),
            Err(e) => build_chains_spec(g@) == Err::<Seq<ChainV>, Seq<char>>(e@),
        },
{
    let ghost init = BuildStateV { handled: Seq::empty(), chains: Seq::empty() };
    let ghost goal = nodes_desc_step(g@, g@.nodes.len() - 1, init);
    let mut handled: Vec<String> = Vec::new();
    let mut chains: Vec<Chain> = Vec::new();
    proof {
        assert(views(handled@) =~= Seq::<Seq<char>>::empty());
        assert(views(chains@) =~= Seq::<ChainV>::empty());
        assert(BuildStateV { handled: views(handled@), chains: views(chains@) } =~= init);
    }
    let mut i: usize = g.nodes.len();
    while i > 0
        invariant
            i <= g.nodes.len(),
            graph_valid(g@),
            goal == nodes_desc_step(
                g@,
                g@.nodes.len() - 1,
                BuildStateV { handled: Seq::empty(), chains: Seq::empty() },
            ),
            goal == nodes_desc_step(
                g@,
                i as int - 1,
                BuildStateV { handled: views(handled@), chains: views(chains@) },
            ),
            chains_ids_ok(g@, views(chains@)),
        decreases i,
    {
        i = i - 1;
        let id = g.nodes[i].0;
        let node = &g.nodes[i].1;
        proof {
            assert(g@.nodes[i as int] == (id, node@));
        }
        let mut j: usize = 0;
        while j < node.imports.len()
            invariant
                j <= node.imports.len(),
                i < g@.nodes.len(),
                g@.nodes[i as int] == (id, node@),
                graph_valid(g@),
                goal == nodes_desc_step(
                    g@,
                    g@.nodes.len() - 1,
                    BuildStateV { handled: Seq::empty(), chains: Seq::empty() },
                ),
                goal == match node_imports_step(
                    g@,
                    id,
                    node@.imports,
                    j as int,
                    BuildStateV { handled: views(handled@), chains: views(chains@) },
                ) {
                    Err(e) => Err(e),
                    Ok(st2) => nodes_desc_step(g@, i as int - 1, st2),
                },
                chains_ids_ok(g@, views(chains@)),
            decreases node.imports.len() - j,
        {
            let conn = &node.imports[j];
            proof {
                assert(node@.imports[j as int] == conn@);
            }
            let ghost st = BuildStateV { handled: views(handled@), chains: views(chains@) };
            match walk_chain_exec(g, conn.interface_name.as_str(), conn.source_instance) {
                None => {
                    return Err(conn.interface_name.clone());
                },
                Some(mut w) => {
                    let mut full: Vec<u32> = Vec::new();
                    full.push(id);
                    if !conn.is_host_import {
                        full.push(conn.source_instance);
                    }
                    full.append(&mut w);
                    proof {
                        assert(full@ =~= chain_of_import(g@, id, conn@)->Some_0);
                    }
                    if !contains_str(&handled, conn.interface_name.as_str())
                        && full.len() > 1 {
                        let rev = reversed(&full);
                        proof {
                            if !conn@.is_host_import {
                                assert(crate::model::import_ok(g@, g@.nodes[i as int].1.imports[j as int]));
                            }
                            lemma_find_node_exists(g@.nodes, id, 0, i as int);
                            lemma_walk_ids_ok(
                                g@,
                                conn@.interface_name,
                                conn@.source_instance,
                                g@.nodes.len() as nat,
                            );
                            assert forall|k: int| 0 <= k < rev@.len() implies has_node(
                                g@.nodes,
                                #[trigger] rev@[k],
                            ) by {
                                assert(rev@[k] == full@[full@.len() - 1 - k]);
                            }
                        }
                        let c = Chain {
                            interface: conn.interface_name.clone(),
                            chain: rev,
                            aliases: Vec::new(),
                            inject_plan: Vec::new(),
                        };
                        proof {
                            assert(views(c.aliases@) =~= Seq::<AliasBindingV>::empty());
                            assert(views(c.inject_plan@) =~= Seq::<PlanEntryV>::empty());
                            assert(c@ =~= ChainV {
                                interface: conn@.interface_name,
                                chain: chain_of_import(g@, id, conn@)->Some_0.reverse(),
                                aliases: Seq::empty(),
                                inject_plan: Seq::empty(),
                            });
                        }
                        chains.push(c);
                    }
                    handled.push(conn.interface_name.clone());
                    proof {
                        assert(views(handled@) =~= st.handled.push(conn@.interface_name));
                        let st2 = import_step(g@, id, conn@, st)->Ok_0;
                        assert(BuildStateV {
                            handled: views(handled@),
                            chains: views(chains@),
                        } =~= st2);
                    }
                },
            }
            j = j + 1;
        }
        proof {
            assert(node_imports_step(
                g@,
                id,
                node@.imports,
                node@.imports.len() as int,
                BuildStateV { handled: views(handled@), chains: views(chains@) },
            ) == Ok::<BuildStateV, Seq<char>>(
                BuildStateV { handled: views(handled@), chains: views(chains@) },
            ));
        }
    }
    let ghost st_mid = BuildStateV { handled: views(handled@), chains: views(chains@) };
    proof {
        assert(goal == Ok::<BuildStateV, Seq<char>>(st_mid));
    }
    let mut e: usize = 0;
    while e < g.component_exports.len()
        invariant
            e <= g.component_exports.len(),
            graph_valid(g@),
            export_chains_step(g@, 0, st_mid) == export_chains_step(
                g@,
                e as int,
                BuildStateV { handled: views(handled@), chains: views(chains@) },
            ),
            views(handled@) == st_mid.handled,
            goal == Ok::<BuildStateV, Seq<char>>(st_mid),
            chains_ids_ok(g@, views(chains@)),
        decreases g.component_exports.len() - e,
    {
        let iface = &g.component_exports[e].0;
        let src = g.component_exports[e].1;
        proof {
            assert(g@.component_exports[e as int] == (iface@, src));
        }
        if !contains_str(&handled, iface.as_str()) {
            let c = Chain {
                interface: iface.clone(),
                chain: vec![src],
                aliases: Vec::new(),
                inject_plan: Vec::new(),
            };
            proof {
                assert(views(c.aliases@) =~= Seq::<AliasBindingV>::empty());
                assert(views(c.inject_plan@) =~= Seq::<PlanEntryV>::empty());
                assert(c.chain@ =~= seq![src]);
                assert(c@ =~= trivial_chain(iface@, src));
                assert(has_node(g@.nodes, src));
            }
            chains.push(c);
        }
        e = e + 1;
    }
    proof {
        assert(build_chains_spec(g@) == Ok::<Seq<ChainV>, Seq<char>>(views(chains@)));
    }
    Ok(chains)
}

} // verus!
