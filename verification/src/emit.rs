//! The emitter: walks each chain inner-to-outer, materializing instance and
//! middleware declarations, re-wiring the chain's interface at every step,
//! and finally emitting the export statements.

use vstd::prelude::*;
use crate::seqs::views;
use crate::chains::{chain_ids_ok, chains_ids_ok, AliasBinding, Chain, ChainV};
use crate::engine::{alias_lookup, alias_pos, plan_lookup, plan_pos};
use crate::model::{
    graph_valid, has_node, node_name, node_of, CompositionGraph, CompositionGraphV,
};
use crate::parse::config::InjectionV;
use crate::text::str_eq;
use vstd::pervasive::unreached;
use vstd::string::StringExecFns;

verus! {

broadcast use crate::seqs::group_views;

/// Mathematical view of the emitter state.
#[verifier::ext_equal]
pub ghost struct EmitStateV {
    pub lines: Seq<Seq<char>>,
    pub mdl_override: Option<(Seq<char>, Seq<char>)>,
    pub instance_vars: Seq<(u32, Seq<char>)>,
    pub outer_instances: Seq<(u32, Seq<char>)>,
    pub used_comps: Seq<(u32, Seq<char>)>,
    pub used_mdls: Seq<(Seq<char>, Seq<char>)>,
}

/// The view of the live interface override.
pub open spec fn ovd_view(o: Option<(String, String)>) -> Option<(Seq<char>, Seq<char>)> {
    match o {
        Some(p) => Some((p.0@, p.1@)),
        None => None,
    }
}

/// The emitter's working state: the script blocks produced so far, the
/// variable currently providing the interface being threaded, the variables
/// of declared instances, the effective outermost variable of each finished
/// chain, and every component and middleware actually materialized.
pub struct Emitter {
    pub wac_lines: Vec<String>,
    pub mdl_override: Option<(String, String)>,
    pub instance_vars: Vec<(u32, String)>,
    pub outer_instances: Vec<(u32, String)>,
    pub used_comps: Vec<(u32, String)>,
    pub used_mdls: Vec<(String, String)>,
}

impl View for Emitter {
    type V = EmitStateV;

    open spec fn view(&self) -> EmitStateV {
        EmitStateV {
            lines: views(self.wac_lines@),
            mdl_override: ovd_view(self.mdl_override),
            instance_vars: views(self.instance_vars@),
            outer_instances: views(self.outer_instances@),
            used_comps: views(self.used_comps@),
            used_mdls: views(self.used_mdls@),
        }
    }
}

/// The first position carrying instance `id`, or the length if none does.
pub open spec fn svar_pos_from(m: Seq<(u32, Seq<char>)>, id: u32, i: int) -> int
    decreases m.len() - i,
{
    if i < 0 || i >= m.len() {
        m.len() as int
    } else if m[i].0 == id {
        i
    } else {
        svar_pos_from(m, id, i + 1)
    }
}

/// The variable recorded for instance `id`, if any.
pub open spec fn svar_lookup(m: Seq<(u32, Seq<char>)>, id: u32) -> Option<Seq<char>> {
    let p = svar_pos_from(m, id, 0);
    if p < m.len() {
        Some(m[p].1)
    } else {
        None
    }
}

/// Records (or overwrites) the variable of instance `id`.
pub open spec fn svar_set(m: Seq<(u32, Seq<char>)>, id: u32, v: Seq<char>) -> Seq<
    (u32, Seq<char>),
> {
    let p = svar_pos_from(m, id, 0);
    if p < m.len() {
        m.update(p, (id, v))
    } else {
        m.push((id, v))
    }
}

/// The header every script starts with.
pub open spec fn header_line() -> Seq<char> {
    "package example:composition;"@
}

/// One wired import inside an instance declaration.
pub open spec fn wire_frag(iface: Seq<char>, src: Seq<char>) -> Seq<char> {
    "\n    \""@ + iface + "\": "@ + src + "[\""@ + iface + "\"],"@
}

/// The wire of one import against the variables declared so far: wired to
/// the provider's variable if the provider is declared, else left to the
/// host.
pub open spec fn var_wire(
    c: crate::model::InterfaceConnectionV,
    vars: Seq<(u32, Seq<char>)>,
) -> Seq<char> {
    match svar_lookup(vars, c.source_instance) {
        Some(sv) => wire_frag(c.interface_name, sv),
        None => Seq::<char>::empty(),
    }
}

/// The wired imports of a declaration, from import `j` on: an import of the
/// threaded interface is wired to the live override variable, any other
/// non-host import whose provider is already declared is wired to that
/// provider's variable, and the rest are left to the host.
pub open spec fn decl_wires(
    imports: Seq<crate::model::InterfaceConnectionV>,
    j: int,
    ovd: Option<(Seq<char>, Seq<char>)>,
    vars: Seq<(u32, Seq<char>)>,
) -> Seq<char>
    decreases imports.len() - j,
{
    if j < 0 || j >= imports.len() {
        Seq::empty()
    } else {
        let c = imports[j];
        let frag = if !c.is_host_import {
            match ovd {
                None => var_wire(c, vars),
                Some(ov) => if c.interface_name == ov.0 {
                    wire_frag(c.interface_name, ov.1)
                } else {
                    var_wire(c, vars)
                },
            }
        } else {
            Seq::<char>::empty()
        };
        frag + decl_wires(imports, j + 1, ovd, vars)
    }
}

/// A full instance declaration block.
pub open spec fn decl_block(
    pkg: Seq<char>,
    imports: Seq<crate::model::InterfaceConnectionV>,
    ovd: Option<(Seq<char>, Seq<char>)>,
    vars: Seq<(u32, Seq<char>)>,
) -> Seq<char> {
    "let "@ + pkg + " = new my:"@ + pkg + " {"@ + decl_wires(imports, 0, ovd, vars)
        + "\n    ...\n};"@
}

/// A middleware declaration block: one wired import plus the trailing rest.
pub open spec fn mdl_block(mw: Seq<char>, iface: Seq<char>, input: Seq<char>) -> Seq<char> {
    "let "@ + mw + " = new my:"@ + mw + " {\n    \""@ + iface + "\": "@ + input + "[\""@ + iface
        + "\"], ...\n};"@
}

/// An export statement block.
pub open spec fn export_block(v: Seq<char>, iface: Seq<char>) -> Seq<char> {
    "export "@ + v + "[\""@ + iface + "\"];"@
}

/// The name an instance is declared under: its registered non-null alias if
/// one exists, else its display name.
pub open spec fn resolve_pkg(
    g: CompositionGraphV,
    aliases: Seq<crate::chains::AliasBindingV>,
    id: u32,
) -> Seq<char> {
    match alias_lookup(aliases, id) {
        Some(Some(a)) => a,
        _ => node_name(g.nodes, id),
    }
}

/// Returns the variable of instance `id`, declaring it first when needed:
/// the declaration wires its imports against the override `ovd` and the
/// variables declared so far (its own included), and the instance is
/// recorded as used.
pub open spec fn get_or_create(
    g: CompositionGraphV,
    aliases: Seq<crate::chains::AliasBindingV>,
    id: u32,
    ovd: Option<(Seq<char>, Seq<char>)>,
    st: EmitStateV,
) -> (Seq<char>, EmitStateV) {
    match svar_lookup(st.instance_vars, id) {
        Some(v) => (v, st),
        None => {
            let pkg = resolve_pkg(g, aliases, id);
            let vars2 = st.instance_vars.push((id, pkg));
            let line = decl_block(pkg, node_of(g.nodes, id).imports, ovd, vars2);
            (
                pkg,
                EmitStateV {
                    lines: st.lines.push(line),
                    mdl_override: st.mdl_override,
                    instance_vars: vars2,
                    outer_instances: st.outer_instances,
                    used_comps: st.used_comps.push((id, pkg)),
                    used_mdls: st.used_mdls,
                },
            )
        },
    }
}

/// A middleware path, or the placeholder for an absent one.
pub open spec fn path_or_placeholder(p: Option<Seq<char>>) -> Seq<char> {
    match p {
        Some(s) => s,
        None => "/path/to/comp.wasm"@,
    }
}

/// Declares the middlewares `mdls[j..]` in order, each wired to the
/// previous variable on interface `iface`, and returns the last variable.
pub open spec fn emit_injections(
    mdls: Seq<InjectionV>,
    j: int,
    iface: Seq<char>,
    last: Seq<char>,
    st: EmitStateV,
) -> (Seq<char>, EmitStateV)
    decreases mdls.len() - j,
{
    if j < 0 || j >= mdls.len() {
        (last, st)
    } else {
        let m = mdls[j];
        let st2 = EmitStateV {
            lines: st.lines.push(mdl_block(m.name, iface, last)),
            mdl_override: Some((iface, m.name)),
            instance_vars: st.instance_vars,
            outer_instances: st.outer_instances,
            used_comps: st.used_comps,
            used_mdls: st.used_mdls.push((m.name, path_or_placeholder(m.path))),
        };
        emit_injections(mdls, j + 1, iface, m.name, st2)
    }
}

/// One chain position emitted: the instance is materialized (wired against
/// the live override), the override moves to it, the middlewares planned in
/// front of the next position are declared in reverse of their stored
/// order, and at the last position the effective outermost variable is
/// recorded.
pub open spec fn emit_position(
    g: CompositionGraphV,
    c: ChainV,
    i: int,
    st: EmitStateV,
) -> EmitStateV {
    let id = c.chain[i];
    let r1 = get_or_create(g, c.aliases, id, st.mdl_override, st);
    let var = r1.0;
    let st2 = EmitStateV { mdl_override: Some((c.interface, var)), ..r1.1 };
    let r3 = match plan_lookup(c.inject_plan, (i + 1) as usize) {
        None => (var, st2),
        Some(m) => emit_injections(m.reverse(), 0, c.interface, var, st2),
    };
    if i == c.chain.len() - 1 {
        EmitStateV { outer_instances: svar_set(r3.1.outer_instances, id, r3.0), ..r3.1 }
    } else {
        r3.1
    }
}

/// The chain's positions emitted from `i` on.
pub open spec fn emit_chain(g: CompositionGraphV, c: ChainV, i: int, st: EmitStateV) -> EmitStateV
    decreases c.chain.len() - i,
{
    if i < 0 || i >= c.chain.len() {
        st
    } else {
        emit_chain(g, c, i + 1, emit_position(g, c, i, st))
    }
}

/// The chains emitted from `j` on.
pub open spec fn emit_chains(
    g: CompositionGraphV,
    cs: Seq<ChainV>,
    j: int,
    st: EmitStateV,
) -> EmitStateV
    decreases cs.len() - j,
{
    if j < 0 || j >= cs.len() {
        st
    } else {
        emit_chains(g, cs, j + 1, emit_chain(g, cs[j], 0, st))
    }
}

/// One export emitted: the effective outermost variable of its source
/// instance if one was recorded, else the instance materialized bare.
pub open spec fn emit_export(
    g: CompositionGraphV,
    e: (Seq<char>, u32),
    st: EmitStateV,
) -> EmitStateV {
    let r = match svar_lookup(st.outer_instances, e.1) {
        Some(v) => (v, st),
        None => get_or_create(g, Seq::empty(), e.1, None, st),
    };
    EmitStateV { lines: r.1.lines.push(export_block(r.0, e.0)), ..r.1 }
}

/// The exports emitted from `i` on.
pub open spec fn emit_exports(g: CompositionGraphV, i: int, st: EmitStateV) -> EmitStateV
    decreases g.component_exports.len() - i,
{
    if i < 0 || i >= g.component_exports.len() {
        st
    } else {
        emit_exports(g, i + 1, emit_export(g, g.component_exports[i], st))
    }
}

/// The emitter's starting state: the header block alone.
pub open spec fn init_emit_state() -> EmitStateV {
    EmitStateV {
        lines: seq![header_line()],
        mdl_override: None,
        instance_vars: Seq::empty(),
        outer_instances: Seq::empty(),
        used_comps: Seq::empty(),
        used_mdls: Seq::empty(),
    }
}

/// The whole emission: header, chains in order, exports in order.
pub open spec fn emit_all(g: CompositionGraphV, cs: Seq<ChainV>) -> EmitStateV {
    emit_exports(g, 0, emit_chains(g, cs, 0, init_emit_state()))
}

/// The blocks joined by blank lines, from block `i` on.
pub open spec fn join_from(lines: Seq<Seq<char>>, i: int, acc: Seq<char>) -> Seq<char>
    decreases lines.len() - i,
{
    if i < 0 || i >= lines.len() {
        acc
    } else {
        join_from(lines, i + 1, acc + "\n\n"@ + lines[i])
    }
}

/// The script text: the blocks separated by blank lines.
pub open spec fn join_blocks(lines: Seq<Seq<char>>) -> Seq<char> {
    if lines.len() == 0 {
        Seq::empty()
    } else {
        join_from(lines, 1, lines[0])
    }
}

/// Every used component names an existing instance.
pub open spec fn used_ids_ok(g: CompositionGraphV, used: Seq<(u32, Seq<char>)>) -> bool {
    forall|i: int| 0 <= i < used.len() ==> has_node(g.nodes, (#[trigger] used[i]).0)
}

/// The first position carrying instance `id` in a variable table.
fn svar_pos(m: &Vec<(u32, String)>, id: u32) -> (r: usize)
    ensures
        r as int == svar_pos_from(views(m@), id, 0),
        r <= m.len(),
        r < m.len() ==> views(m@)[r as int].0 == id,
{
    let mut i: usize = 0;
    while i < m.len()
        invariant
            i <= m.len(),
            svar_pos_from(views(m@), id, 0) == svar_pos_from(views(m@), id, i as int),
        decreases m.len() - i,
    {
        if m[i].0 == id {
            return i;
        }
        i = i + 1;
    }
    m.len()
}

/// Records (or overwrites) the variable of instance `id`.
fn svar_set_exec(m: &mut Vec<(u32, String)>, id: u32, v: String)
    ensures
        views(final(m)@) == svar_set(views(old(m)@), id, v@),
{
    let p = svar_pos(m, id);
    if p < m.len() {
        let slot = vstd::std_specs::vec::vec_index_mut(m, p);
        *slot = (id, v);
        proof {
            assert(views(m@) =~= svar_set(views(old(m)@), id, v@));
        }
    } else {
        m.push((id, v));
        proof {
            assert(views(m@) =~= svar_set(views(old(m)@), id, v@));
        }
    }
}

/// Appends one wired import to a declaration line.
fn append_wire(line: &mut String, iface: &str, src: &str)
    ensures
        final(line)@ == old(line)@ + wire_frag(iface@, src@),
{
    line.append("\n    \"");
    line.append(iface);
    line.append("\": ");
    line.append(src);
    line.append("[\"");
    line.append(iface);
    line.append("\"],");
    proof {
        assert(line@ =~= old(line)@ + wire_frag(iface@, src@));
    }
}

/// The declared name of instance `id`: its registered non-null alias when
/// one exists, else its display name.
fn resolve_pkg_exec(g: &CompositionGraph, aliases: &Vec<AliasBinding>, id: u32) -> (r: String)
    requires
        has_node(g@.nodes, id),
    ensures
        r@ == resolve_pkg(g@, views(aliases@), id),
{
    let p = alias_pos(aliases, id);
    if p < aliases.len() {
        match &aliases[p].alias {
            Some(a) => a.clone(),
            None => String::from_str(crate::engine::node_display(g, id)),
        }
    } else {
        String::from_str(crate::engine::node_display(g, id))
    }
}

impl Emitter {
    /// A fresh emitter holding the header block.
    pub fn new() -> (r: Emitter)
        ensures
            r@ == init_emit_state(),
    {
        let mut wac_lines: Vec<String> = Vec::new();
        wac_lines.push(String::from_str("package example:composition;"));
        let r = Emitter {
            wac_lines,
            mdl_override: None,
            instance_vars: Vec::new(),
            outer_instances: Vec::new(),
            used_comps: Vec::new(),
            used_mdls: Vec::new(),
        };
        proof {
            assert(r@.lines =~= seq![header_line()]);
            assert(r@.instance_vars =~= Seq::<(u32, Seq<char>)>::empty());
            assert(r@.outer_instances =~= Seq::<(u32, Seq<char>)>::empty());
            assert(r@.used_comps =~= Seq::<(u32, Seq<char>)>::empty());
            assert(r@.used_mdls =~= Seq::<(Seq<char>, Seq<char>)>::empty());
            assert(r@ =~= init_emit_state());
        }
        r
    }

    /// Returns the variable of instance `id`, declaring it first when it has
    /// none yet. With `use_override` the declaration is wired against the
    /// live interface override; without, only against nothing at all.
    #[verifier::loop_isolation(false)]
    pub fn get_or_create_inst(
        &mut self,
        g: &CompositionGraph,
        aliases: &Vec<AliasBinding>,
        id: u32,
        use_override: bool,
    ) -> (r: String)
        requires
            has_node(g@.nodes, id),
        ensures
            ({
                let ovd = if use_override {
                    old(self)@.mdl_override
                } else {
                    None
                };
                let res = get_or_create(g@, views(aliases@), id, ovd, old(self)@);
                r@ == res.0 && final(self)@ == res.1
            }),
            used_ids_ok(g@, old(self)@.used_comps) ==> used_ids_ok(g@, final(self)@.used_comps),
    {
        let ghost ovd = if use_override {
            self@.mdl_override
        } else {
            None
        };
        let p = svar_pos(&self.instance_vars, id);
        if p < self.instance_vars.len() {
            return self.instance_vars[p].1.clone();
        }
        let pkg = resolve_pkg_exec(g, aliases, id);
        self.used_comps.push((id, pkg.clone()));
        self.instance_vars.push((id, pkg.clone()));
        proof {
            assert(views(self.instance_vars@) =~= old(self)@.instance_vars.push((id, pkg@)));
            assert(views(self.used_comps@) =~= old(self)@.used_comps.push((id, pkg@)));
        }
        let node = match g.get_node(id) {
            Some(n) => n,
            None => {
                proof {
                    assert(false);
                }
                unreached()
            },
        };
        let ghost varsv = views(self.instance_vars@);
        let ghost snap = self@;
        let mut line = String::from_str("let ");
        line.append(pkg.as_str());
        line.append(" = new my:");
        line.append(pkg.as_str());
        line.append(" {");
        let ghost head = "let "@ + pkg@ + " = new my:"@ + pkg@ + " {"@;
        proof {
            assert(line@ =~= head);
        }
        let mut j: usize = 0;
        while j < node.imports.len()
            invariant
                j <= node.imports.len(),
                self@ == snap,
                line@ + decl_wires(node@.imports, j as int, ovd, varsv) == head + decl_wires(
                    node@.imports,
                    0,
                    ovd,
                    varsv,
                ),
            decreases node.imports.len() - j,
        {
            let c = &node.imports[j];
            proof {
                assert(node@.imports[j as int] == c@);
            }
            let ghost pre = line@;
            if !c.is_host_import {
                let mut wired_to_override = false;
                if use_override {
                    match &self.mdl_override {
                        Some(ov) => {
                            if str_eq(c.interface_name.as_str(), ov.0.as_str()) {
                                append_wire(&mut line, c.interface_name.as_str(), ov.1.as_str());
                                wired_to_override = true;
                            }
                        },
                        None => {},
                    }
                }
                if !wired_to_override {
                    let sp = svar_pos(&self.instance_vars, c.source_instance);
                    if sp < self.instance_vars.len() {
                        let sv = self.instance_vars[sp].1.clone();
                        append_wire(&mut line, c.interface_name.as_str(), sv.as_str());
                    }
                }
            }
            proof {
                assert(line@ + decl_wires(node@.imports, j as int + 1, ovd, varsv) =~= pre
                    + decl_wires(node@.imports, j as int, ovd, varsv));
            }
            j = j + 1;
        }
        line.append("\n    ...\n};");
        proof {
            assert(decl_wires(node@.imports, node@.imports.len() as int, ovd, varsv)
                =~= Seq::<char>::empty());
            assert(head + decl_wires(node@.imports, 0, ovd, varsv) + Seq::<char>::empty() =~= head
                + decl_wires(node@.imports, 0, ovd, varsv));
            assert(line@ =~= decl_block(pkg@, node@.imports, ovd, varsv));
        }
        self.wac_lines.push(line);
        proof {
            let res = get_or_create(g@, views(aliases@), id, ovd, old(self)@);
            assert(self@ =~= res.1);
        }
        pkg
    }

    /// Emits chain position `i`: materializes the instance, threads the
    /// interface override through it, and declares the middlewares planned
    /// in front of the next position, in reverse of their stored order.
    #[verifier::loop_isolation(false)]
    pub fn emit_chain_position(&mut self, g: &CompositionGraph, chain: &Chain, i: usize)
        requires
            i < chain@.chain.len(),
            chain_ids_ok(g@, chain@),
        ensures
            final(self)@ == emit_position(g@, chain@, i as int, old(self)@),
            used_ids_ok(g@, old(self)@.used_comps) ==> used_ids_ok(g@, final(self)@.used_comps),
    {
        let n = chain.chain.len();
        let id = chain.chain[i];
        proof {
            assert(has_node(g@.nodes, id));
        }
        let var = self.get_or_create_inst(g, &chain.aliases, id, true);
        self.mdl_override = Some((chain.interface.clone(), var.clone()));
        let ghost r1 = get_or_create(g@, chain@.aliases, id, old(self)@.mdl_override, old(self)@);
        let ghost st2 = EmitStateV { mdl_override: Some((chain@.interface, var@)), ..r1.1 };
        proof {
            assert(self@ =~= st2);
        }
        let mut last = var;
        proof {
            assert(i < n);
        }
        let p = plan_pos(&chain.inject_plan, i + 1);
        if p < chain.inject_plan.len() {
            let mdls = &chain.inject_plan[p].mdls;
            proof {
                assert(views(chain.inject_plan@)[p as int] == chain.inject_plan@[p as int]@);
            }
            let ghost mdlsv = views(mdls@);
            proof {
                assert(plan_lookup(chain@.inject_plan, (i + 1) as usize) == Some(mdlsv));
            }
            let ghost rev = mdlsv.reverse();
            let ghost goal_pair = emit_injections(rev, 0, chain@.interface, last@, st2);
            let mut t: usize = mdls.len();
            while t > 0
                invariant
                    t <= mdls.len(),
                    goal_pair == emit_injections(
                        rev,
                        mdlsv.len() - t as int,
                        chain@.interface,
                        last@,
                        self@,
                    ),
                    self@.used_comps == st2.used_comps,
                decreases t,
            {
                t = t - 1;
                let m = &mdls[t];
                let ghost j = mdlsv.len() - 1 - t as int;
                proof {
                    assert(rev[j] == mdlsv[t as int]);
                    assert(mdlsv[t as int] == m@);
                }
                let ghost stpre = self@;
                let mut mline = String::from_str("let ");
                mline.append(m.name.as_str());
                mline.append(" = new my:");
                mline.append(m.name.as_str());
                mline.append(" {\n    \"");
                mline.append(chain.interface.as_str());
                mline.append("\": ");
                mline.append(last.as_str());
                mline.append("[\"");
                mline.append(chain.interface.as_str());
                mline.append("\"], ...\n};");
                proof {
                    assert(mline@ =~= mdl_block(m@.name, chain@.interface, last@));
                }
                self.wac_lines.push(mline);
                let path = match &m.path {
                    Some(pp) => pp.clone(),
                    None => String::from_str("/path/to/comp.wasm"),
                };
                proof {
                    assert(path@ == path_or_placeholder(m@.path));
                }
                let prev_last = last;
                last = m.name.clone();
                self.used_mdls.push((m.name.clone(), path));
                self.mdl_override = Some((chain.interface.clone(), last.clone()));
                proof {
                    assert(self@ =~= (EmitStateV {
                        lines: stpre.lines.push(mdl_block(m@.name, chain@.interface, prev_last@)),
                        mdl_override: Some((chain@.interface, m@.name)),
                        instance_vars: stpre.instance_vars,
                        outer_instances: stpre.outer_instances,
                        used_comps: stpre.used_comps,
                        used_mdls: stpre.used_mdls.push((m@.name, path_or_placeholder(m@.path))),
                    }));
                }
            }
            proof {
                assert(goal_pair == (last@, self@));
            }
        }
        if i + 1 == n {
            svar_set_exec(&mut self.outer_instances, id, last);
            proof {
                assert(self@ =~= emit_position(g@, chain@, i as int, old(self)@));
            }
        } else {
            proof {
                assert(self@ =~= emit_position(g@, chain@, i as int, old(self)@));
            }
        }
    }

    /// Emits every position of one chain, inner to outer.
    #[verifier::loop_isolation(false)]
    pub fn emit_one_chain(&mut self, g: &CompositionGraph, chain: &Chain)
        requires
            chain_ids_ok(g@, chain@),
        ensures
            final(self)@ == emit_chain(g@, chain@, 0, old(self)@),
            used_ids_ok(g@, old(self)@.used_comps) ==> used_ids_ok(g@, final(self)@.used_comps),
    {
        let mut i: usize = 0;
        while i < chain.chain.len()
            invariant
                i <= chain.chain.len(),
                emit_chain(g@, chain@, 0, old(self)@) == emit_chain(g@, chain@, i as int, self@),
                used_ids_ok(g@, old(self)@.used_comps) ==> used_ids_ok(g@, self@.used_comps),
            decreases chain.chain.len() - i,
        {
            self.emit_chain_position(g, chain, i);
            i = i + 1;
        }
    }

    /// Emits every chain, in order.
    #[verifier::loop_isolation(false)]
    pub fn emit_chain_list(&mut self, g: &CompositionGraph, chains: &Vec<Chain>)
        requires
            chains_ids_ok(g@, views(chains@)),
        ensures
            final(self)@ == emit_chains(g@, views(chains@), 0, old(self)@),
            used_ids_ok(g@, old(self)@.used_comps) ==> used_ids_ok(g@, final(self)@.used_comps),
    {
        let mut j: usize = 0;
        while j < chains.len()
            invariant
                j <= chains.len(),
                emit_chains(g@, views(chains@), 0, old(self)@) == emit_chains(
                    g@,
                    views(chains@),
                    j as int,
                    self@,
                ),
                used_ids_ok(g@, old(self)@.used_comps) ==> used_ids_ok(g@, self@.used_comps),
            decreases chains.len() - j,
        {
            let c = &chains[j];
            proof {
                assert(views(chains@)[j as int] == c@);
                assert(chain_ids_ok(g@, c@));
            }
            self.emit_one_chain(g, c);
            j = j + 1;
        }
    }

    /// Emits one export statement per top-level export, in order, choosing
    /// the effective outermost variable of the source instance.
    #[verifier::loop_isolation(false)]
    pub fn emit_export_statements(&mut self, g: &CompositionGraph)
        requires
            graph_valid(g@),
        ensures
            final(self)@ == emit_exports(g@, 0, old(self)@),
            used_ids_ok(g@, old(self)@.used_comps) ==> used_ids_ok(g@, final(self)@.used_comps),
    {
        let no_aliases: Vec<AliasBinding> = Vec::new();
        proof {
            assert(views(no_aliases@) =~= Seq::<crate::chains::AliasBindingV>::empty());
        }
        let mut e: usize = 0;
        while e < g.component_exports.len()
            invariant
                e <= g.component_exports.len(),
                views(no_aliases@) == Seq::<crate::chains::AliasBindingV>::empty(),
                emit_exports(g@, 0, old(self)@) == emit_exports(g@, e as int, self@),
                used_ids_ok(g@, old(self)@.used_comps) ==> used_ids_ok(g@, self@.used_comps),
            decreases g.component_exports.len() - e,
        {
            let iface = &g.component_exports[e].0;
            let src = g.component_exports[e].1;
            proof {
                assert(g@.component_exports[e as int] == (iface@, src));
                assert(has_node(g@.nodes, src));
            }
            let ghost stpre = self@;
            let p = svar_pos(&self.outer_instances, src);
            let var: String = if p < self.outer_instances.len() {
                self.outer_instances[p].1.clone()
            } else {
                self.get_or_create_inst(g, &no_aliases, src, false)
            };
            let mut eline = String::from_str("export ");
            eline.append(var.as_str());
            eline.append("[\"");
            eline.append(iface.as_str());
            eline.append("\"];");
            proof {
                assert(eline@ =~= export_block(var@, iface@));
            }
            self.wac_lines.push(eline);
            proof {
                assert(self@ =~= emit_export(g@, (iface@, src), stpre));
            }
            e = e + 1;
        }
    }
}

/// The script text of the emitted blocks, separated by blank lines.
#[verifier::loop_isolation(false)]
pub fn join_lines(lines: &Vec<String>) -> (r: String)
    ensures
        r@ == join_blocks(views(lines@)),
{
    if lines.len() == 0 {
        return String::new();
    }
    let mut s = lines[0].clone();
    let mut i: usize = 1;
    while i < lines.len()
        invariant
            1 <= i <= lines.len(),
            join_blocks(views(lines@)) == join_from(views(lines@), i as int, s@),
        decreases lines.len() - i,
    {
        s.append("\n\n");
        s.append(lines[i].as_str());
        i = i + 1;
    }
    s
}

} // verus!
