//! The splice planner entry point: validate the graph, build the chains,
//! apply the rules, emit the composition script, and compute the compose
//! arguments.

use vstd::prelude::*;
use crate::seqs::views;
use crate::chains::{build_chains, build_chains_spec};
use crate::emit::{emit_all, join_blocks, join_lines, used_ids_ok, EmitStateV};
use crate::engine::{apply_rules, apply_rules_spec, RuleConflict, RuleConflictV};
use crate::model::{exports_unique, has_node, node_of, nodes_sorted, CompositionGraph, CompositionGraphV};
use crate::parse::config::{SpliceRule, SpliceRuleV};
use crate::parse::json::{validate_scan, GraphError, GraphErrorV};
use crate::split::split_path;
use vstd::pervasive::unreached;
use vstd::string::StringExecFns;
use std::io::Write;

verus! {

broadcast use crate::seqs::group_views;

/// Mathematical view of a [`PlanError`].
#[verifier::ext_equal]
pub ghost enum PlanErrorV {
    Graph(GraphErrorV),
    CyclicImports { interface: Seq<char> },
    AliasConflict(RuleConflictV),
}

/// What can stop a planning invocation: a malformed graph, a cyclic import
/// walk, or two rules aliasing one instance under different names.
pub enum PlanError {
    Graph(GraphError),
    CyclicImports { interface: String },
    AliasConflict(RuleConflict),
}

impl View for PlanError {
    type V = PlanErrorV;

    open spec fn view(&self) -> PlanErrorV {
        match self {
            PlanError::Graph(e) => PlanErrorV::Graph(e@),
            PlanError::CyclicImports { interface } => PlanErrorV::CyclicImports {
                interface: interface@,
            },
            PlanError::AliasConflict(c) => PlanErrorV::AliasConflict(c@),
        }
    }
}

/// Whether `num` occurs among the shim component numbers.
pub open spec fn shim_hit(shims: Seq<usize>, num: int) -> bool {
    exists|j: int| 0 <= j < shims.len() && #[trigger] shims[j] as int == num
}

/// The compose argument of one used component: split numbers reserve zero
/// for the root, and a number on the shim list is lowered to its enclosing
/// wrapper.
pub open spec fn comp_arg(
    g: CompositionGraphV,
    shims: Seq<usize>,
    splits: Seq<char>,
    id: u32,
    name: Seq<char>,
) -> (Seq<char>, Seq<char>) {
    let num = node_of(g.nodes, id).component_index as int + 1;
    let adjusted = if shim_hit(shims, num) {
        num - 1
    } else {
        num
    };
    (name, split_path(splits, adjusted))
}

/// The compose arguments of the used components from position `i` on.
pub open spec fn comp_args_from(
    g: CompositionGraphV,
    shims: Seq<usize>,
    splits: Seq<char>,
    used: Seq<(u32, Seq<char>)>,
    i: int,
    acc: Seq<(Seq<char>, Seq<char>)>,
) -> Seq<(Seq<char>, Seq<char>)>
    decreases used.len() - i,
{
    if i < 0 || i >= used.len() {
        acc
    } else {
        comp_args_from(
            g,
            shims,
            splits,
            used,
            i + 1,
            acc.push(comp_arg(g, shims, splits, used[i].0, used[i].1)),
        )
    }
}

/// The full compose argument list: one entry per used component, then the
/// used middlewares verbatim.
pub open spec fn wac_args_spec(
    g: CompositionGraphV,
    shims: Seq<usize>,
    splits: Seq<char>,
    st: EmitStateV,
) -> Seq<(Seq<char>, Seq<char>)> {
    comp_args_from(g, shims, splits, st.used_comps, 0, Seq::empty()) + st.used_mdls
}

/// The whole plan: the script text and the compose arguments, or the first
/// error. Validation runs first; then the chains are built, the rules
/// applied, and the result emitted.
pub open spec fn plan_spec(
    shims: Seq<usize>,
    splits: Seq<char>,
    g: CompositionGraphV,
    rules: Seq<SpliceRuleV>,
) -> Result<(Seq<char>, Seq<(Seq<char>, Seq<char>)>), PlanErrorV> {
    match validate_scan(g) {
        Some(e) => Err(PlanErrorV::Graph(e)),
        None => match build_chains_spec(g) {
            Err(iface) => Err(PlanErrorV::CyclicImports { interface: iface }),
            Ok(cs0) => match apply_rules_spec(g, rules, cs0) {
                Err(c) => Err(PlanErrorV::AliasConflict(c)),
                Ok(cs) => {
                    let st = emit_all(g, cs);
                    Ok((join_blocks(st.lines), wac_args_spec(g, shims, splits, st)))
                },
            },
        },
    }
}

/// Relies on `std::io::stderr` and `writeln`: prints the warning that the
/// shim-component heuristic fired and the split number was lowered from
/// `num` to `fallback`.
#[verifier::external_body]
fn warn_shim_assumption(num: u64, fallback: u64) {
    let _ = writeln!(
        std::io::stderr(),
        "WARN: \tAssumption made! It is likely that split{} is a shim component, defaulting to split{} instead in the generated wac command!\n\tIf this assumption is incorrect, modify the generated wac command.",
        num,
        fallback,
    );
}

/// Whether `num` occurs among the shim component numbers.
fn shim_contains(shims: &Vec<usize>, num: u64) -> (r: bool)
    ensures
        r == shim_hit(shims@, num as int),
{
    let mut j: usize = 0;
    while j < shims.len()
        invariant
            j <= shims.len(),
            forall|k: int| 0 <= k < j ==> (#[trigger] shims@[k]) as int != num as int,
        decreases shims.len() - j,
    {
        if shims[j] as u64 == num {
            proof {
                assert(shims@[j as int] as int == num as int);
            }
            return true;
        }
        j = j + 1;
    }
    false
}

/// The compose arguments: for every used component the path of its split
/// (lowered by one, with a warning, when the shim heuristic fires), then
/// every used middleware verbatim.
#[verifier::loop_isolation(false)]
pub fn gen_wac_args(
    g: &CompositionGraph,
    shim_comps: &Vec<usize>,
    splits_path: &str,
    used_comps: &Vec<(u32, String)>,
    used_mdls: &Vec<(String, String)>,
) -> (r: Vec<(String, String)>)
    requires
        used_ids_ok(g@, views(used_comps@)),
    ensures
        views(r@) == comp_args_from(
            g@,
            shim_comps@,
            splits_path@,
            views(used_comps@),
            0,
            Seq::empty(),
        ) + views(used_mdls@),
{
    let mut args: Vec<(String, String)> = Vec::new();
    proof {
        assert(views(args@) =~= Seq::<(Seq<char>, Seq<char>)>::empty());
    }
    let mut i: usize = 0;
    while i < used_comps.len()
        invariant
            i <= used_comps.len(),
            comp_args_from(g@, shim_comps@, splits_path@, views(used_comps@), 0, Seq::empty())
                == comp_args_from(
                g@,
                shim_comps@,
                splits_path@,
                views(used_comps@),
                i as int,
                views(args@),
            ),
        decreases used_comps.len() - i,
    {
        let id = used_comps[i].0;
        let name = used_comps[i].1.clone();
        proof {
            assert(views(used_comps@)[i as int] == (id, name@));
            assert(has_node(g@.nodes, id));
        }
        let node = match g.get_node(id) {
            Some(n) => n,
            None => {
                proof {
                    assert(false);
                }
                unreached()
            },
        };
        let num: u64 = node.component_index as u64 + 1;
        let adjusted: u64 = if shim_contains(shim_comps, num) {
            warn_shim_assumption(num, num - 1);
            num - 1
        } else {
            num
        };
        let mut path = String::from_str(splits_path);
        path.append("/split");
        crate::text::append_dec(&mut path, adjusted);
        path.append(".wasm");
        proof {
            assert(path@ =~= split_path(splits_path@, adjusted as int));
            assert((name@, path@) == comp_arg(
                g@,
                shim_comps@,
                splits_path@,
                id,
                views(used_comps@)[i as int].1,
            ));
        }
        args.push((name, path));
        i = i + 1;
    }
    let ghost comp_part = views(args@);
    let mut k: usize = 0;
    while k < used_mdls.len()
        invariant
            k <= used_mdls.len(),
            views(args@) == comp_part + views(used_mdls@).take(k as int),
        decreases used_mdls.len() - k,
    {
        let pair = (used_mdls[k].0.clone(), used_mdls[k].1.clone());
        proof {
            assert(pair@ == views(used_mdls@)[k as int]);
        }
        args.push(pair);
        proof {
            assert(views(args@) =~= comp_part + views(used_mdls@).take(k as int + 1));
        }
        k = k + 1;
    }
    proof {
        assert(views(used_mdls@).take(used_mdls@.len() as int) =~= views(used_mdls@));
    }
    args
}

/// Plans the splice: validates the graph, derives the interface chains,
/// folds the rules over them, and emits the script and the compose
/// arguments. Pure in its inputs: equal inputs give byte-identical output.
pub fn generate_wac(
    shim_comps: Vec<usize>,
    splits_path: &str,
    composition: &CompositionGraph,
    rules: &[SpliceRule],
) -> (r: Result<(String, Vec<(String, String)>), PlanError>)
    requires
        nodes_sorted(composition@.nodes),
        exports_unique(composition@.component_exports),
    ensures
        match r {
            Ok(out) => plan_spec(shim_comps@, splits_path@, composition@, views(rules@)) == Ok::<
                (Seq<char>, Seq<(Seq<char>, Seq<char>)>),
                PlanErrorV,
            >((out.0@, views(out.1@))),
            Err(e) => plan_spec(shim_comps@, splits_path@, composition@, views(rules@)) == Err::<
                (Seq<char>, Seq<(Seq<char>, Seq<char>)>),
                PlanErrorV,
            >(e@),
        },
{
    match composition.validate() {
        Err(e) => {
            return Err(PlanError::Graph(e));
        },
        Ok(()) => {
            proof {
                crate::parse::json::lemma_validate_scan_valid(composition@);
            }
        },
    }
    let chains0 = match build_chains(composition) {
        Ok(cs) => cs,
        Err(iface) => {
            return Err(PlanError::CyclicImports { interface: iface });
        },
    };
    let chains = match apply_rules(composition, rules, chains0) {
        Ok(cs) => cs,
        Err(c) => {
            return Err(PlanError::AliasConflict(c));
        },
    };
    let mut emitter = crate::emit::Emitter::new();
    proof {
        assert(used_ids_ok(composition@, emitter@.used_comps));
    }
    emitter.emit_chain_list(composition, &chains);
    emitter.emit_export_statements(composition);
    proof {
        assert(emitter@ == emit_all(composition@, views(chains@)));
        assert(used_ids_ok(composition@, emitter@.used_comps));
    }
    let script = join_lines(&emitter.wac_lines);
    let args = gen_wac_args(
        composition,
        &shim_comps,
        splits_path,
        &emitter.used_comps,
        &emitter.used_mdls,
    );
    Ok((script, args))
}


/// One dependency flag of the compose command.
pub open spec fn dep_frag(name: Seq<char>, path: Seq<char>) -> Seq<char> {
    "\\\n    --dep my:"@ + name + "=\""@ + path + "\" "@
}

/// The compose command with the arguments from position `i` on appended.
pub open spec fn wac_cmd_from(
    args: Seq<(Seq<char>, Seq<char>)>,
    i: int,
    acc: Seq<char>,
) -> Seq<char>
    decreases args.len() - i,
{
    if i < 0 || i >= args.len() {
        acc
    } else {
        wac_cmd_from(args, i + 1, acc + dep_frag(args[i].0, args[i].1))
    }
}

/// The full command line handed to the downstream composer.
pub open spec fn wac_cmd_spec(wac_path: Seq<char>, args: Seq<(Seq<char>, Seq<char>)>) -> Seq<
    char,
> {
    wac_cmd_from(args, 0, "wac compose "@ + wac_path + " "@)
}

/// The command that composes the planned script: one `--dep` flag per
/// compose argument, in order.
#[verifier::loop_isolation(false)]
pub fn gen_wac_cmd(wac_path: &str, cmd_args: Vec<(String, String)>) -> (r: String)
    ensures
        r@ == wac_cmd_spec(wac_path@, views(cmd_args@)),
{
    let mut cmd = String::from_str("wac compose ");
    cmd.append(wac_path);
    cmd.append(" ");
    let mut i: usize = 0;
    while i < cmd_args.len()
        invariant
            i <= cmd_args.len(),
            wac_cmd_spec(wac_path@, views(cmd_args@)) == wac_cmd_from(
                views(cmd_args@),
                i as int,
                cmd@,
            ),
        decreases cmd_args.len() - i,
    {
        let ghost pre = cmd@;
        cmd.append("\\\n    --dep my:");
        cmd.append(cmd_args[i].0.as_str());
        cmd.append("=\"");
        cmd.append(cmd_args[i].1.as_str());
        cmd.append("\" ");
        proof {
            assert(cmd@ =~= pre + dep_frag(
                views(cmd_args@)[i as int].0,
                views(cmd_args@)[i as int].1,
            ));
        }
        i = i + 1;
    }
    cmd
}

} // verus!
