//! The library's laws: properties of the planner that hold for every graph
//! and every rule list, stated over the same spec functions the planner's
//! contracts use, and proved once and for all.

use vstd::prelude::*;
use crate::chains::{build_chains_spec, ChainV};
use crate::emit::{emit_injections, mdl_block, EmitStateV};
use crate::engine::{
    add_to_plan, apply_before_from, apply_between_from, apply_chain_rules, apply_rule,
    apply_rules_from, inj_set_extend, plan_lookup,
};
use crate::model::{node_name, CompositionGraphV};
use crate::parse::config::{InjectionV, SpliceRuleV};
use crate::parse::json::validate_scan;
use crate::wac::plan_spec;

verus! {

/// Whether a rule matches anywhere on a chain carrying interface `iface`
/// through the instances `ids`: a `Before` rule matches some position (all
/// of them when it names no provider), a `Between` rule matches some
/// adjacent pair by display names.
pub open spec fn rule_matches(
    g: CompositionGraphV,
    r: SpliceRuleV,
    iface: Seq<char>,
    ids: Seq<u32>,
) -> bool {
    match r {
        SpliceRuleV::Before { interface, provider_name, .. } => interface == iface && (
        match provider_name {
            None => ids.len() > 0,
            Some(p) => exists|i: int|
                0 <= i < ids.len() && node_name(g.nodes, #[trigger] ids[i]) == p,
        }),
        SpliceRuleV::Between { interface, inner_name, outer_name, .. } => interface == iface
            && exists|i: int|
            0 <= i && i + 1 < ids.len() && node_name(g.nodes, #[trigger] ids[i]) == inner_name
                && node_name(g.nodes, ids[i + 1]) == outer_name,
    }
}

/// A `Between` rule that matches nothing leaves the chain untouched.
proof fn lemma_between_nomatch(g: CompositionGraphV, r: SpliceRuleV, c: ChainV, i: int)
    requires
        0 <= i,
        !rule_matches(g, r, c.interface, c.chain),
    ensures
        apply_between_from(g, r, c, i) == Ok::<ChainV, crate::engine::RuleConflictV>(c),
    decreases c.chain.len() - i,
{
    if i + 1 < c.chain.len() {
        match r {
            SpliceRuleV::Between { interface, inner_name, outer_name, .. } => {
                if interface == c.interface && node_name(g.nodes, c.chain[i]) == inner_name
                    && node_name(g.nodes, c.chain[i + 1]) == outer_name {
                    assert(rule_matches(g, r, c.interface, c.chain));
                }
                lemma_between_nomatch(g, r, c, i + 1);
            },
            _ => {},
        }
    }
}

/// A `Before` rule that matches nothing leaves the chain untouched.
proof fn lemma_before_nomatch(g: CompositionGraphV, r: SpliceRuleV, c: ChainV, i: int)
    requires
        0 <= i,
        !rule_matches(g, r, c.interface, c.chain),
    ensures
        apply_before_from(g, r, c, i) == Ok::<ChainV, crate::engine::RuleConflictV>(c),
    decreases c.chain.len() - i,
{
    if i < c.chain.len() {
        match r {
            SpliceRuleV::Before { interface, provider_name, .. } => {
                let hit = interface == c.interface && (match provider_name {
                    None => true,
                    Some(p) => node_name(g.nodes, c.chain[i]) == p,
                });
                if hit {
                    assert(rule_matches(g, r, c.interface, c.chain));
                }
                lemma_before_nomatch(g, r, c, i + 1);
            },
            _ => {},
        }
    }
}

/// A rule that matches nothing on a chain is a no-op on it.
pub proof fn lemma_rule_nomatch(g: CompositionGraphV, r: SpliceRuleV, c: ChainV)
    requires
        !rule_matches(g, r, c.interface, c.chain),
    ensures
        apply_rule(g, r, c) == Ok::<ChainV, crate::engine::RuleConflictV>(c),
{
    lemma_between_nomatch(g, r, c, 0);
    lemma_before_nomatch(g, r, c, 0);
}

/// A `Between` pass never changes the instances or the interface of the
/// chain.
proof fn lemma_between_keeps_sig(g: CompositionGraphV, r: SpliceRuleV, c: ChainV, i: int)
    requires
        apply_between_from(g, r, c, i) is Ok,
    ensures
        apply_between_from(g, r, c, i)->Ok_0.chain == c.chain,
        apply_between_from(g, r, c, i)->Ok_0.interface == c.interface,
    decreases c.chain.len() - i,
{
    if !(i < 0 || i + 1 >= c.chain.len()) {
        match r {
            SpliceRuleV::Between { .. } => {
                match apply_between_from_step_inner(g, r, c, i) {
                    Ok(c2) => {
                        lemma_between_keeps_sig(g, r, c2, i + 1);
                    },
                    Err(_) => {},
                }
            },
            _ => {},
        }
    }
}

/// The single-pair step of a `Between` pass, for reasoning about the fold.
spec fn apply_between_from_step_inner(
    g: CompositionGraphV,
    r: SpliceRuleV,
    c: ChainV,
    i: int,
) -> Result<ChainV, crate::engine::RuleConflictV> {
    match r {
        SpliceRuleV::Between {
            interface,
            inner_name,
            inner_alias,
            outer_name,
            outer_alias,
            inject,
        } => {
            let hit = interface == c.interface && node_name(g.nodes, c.chain[i]) == inner_name
                && node_name(g.nodes, c.chain[i + 1]) == outer_name;
            if hit {
                add_to_plan(
                    c,
                    seq![
                        crate::chains::AliasBindingV { instance: c.chain[i], alias: inner_alias },
                        crate::chains::AliasBindingV {
                            instance: c.chain[i + 1],
                            alias: outer_alias,
                        },
                    ],
                    inject,
                    (i + 1) as usize,
                )
            } else {
                Ok(c)
            }
        },
        _ => Ok(c),
    }
}

/// A `Before` pass never changes the instances or the interface of the
/// chain.
proof fn lemma_before_keeps_sig(g: CompositionGraphV, r: SpliceRuleV, c: ChainV, i: int)
    requires
        apply_before_from(g, r, c, i) is Ok,
    ensures
        apply_before_from(g, r, c, i)->Ok_0.chain == c.chain,
        apply_before_from(g, r, c, i)->Ok_0.interface == c.interface,
    decreases c.chain.len() - i,
{
    if !(i < 0 || i >= c.chain.len()) {
        match r {
            SpliceRuleV::Before { interface, provider_name, provider_alias, inject } => {
                let hit = interface == c.interface && (match provider_name {
                    None => true,
                    Some(p) => node_name(g.nodes, c.chain[i]) == p,
                });
                let step = if hit {
                    add_to_plan(
                        c,
                        seq![
                            crate::chains::AliasBindingV {
                                instance: c.chain[i],
                                alias: provider_alias,
                            },
                        ],
                        inject,
                        (i + 1) as usize,
                    )
                } else {
                    Ok(c)
                };
                match step {
                    Ok(c2) => {
                        lemma_before_keeps_sig(g, r, c2, i + 1);
                    },
                    Err(_) => {},
                }
            },
            _ => {},
        }
    }
}

/// One rule never changes the instances or the interface of a chain.
pub proof fn lemma_rule_keeps_sig(g: CompositionGraphV, r: SpliceRuleV, c: ChainV)
    requires
        apply_rule(g, r, c) is Ok,
    ensures
        apply_rule(g, r, c)->Ok_0.chain == c.chain,
        apply_rule(g, r, c)->Ok_0.interface == c.interface,
{
    lemma_between_keeps_sig(g, r, c, 0);
    match apply_between_from(g, r, c, 0) {
        Ok(c2) => {
            lemma_before_keeps_sig(g, r, c2, 0);
        },
        Err(_) => {},
    }
}

/// Folding the rules after a removed index equals folding the original
/// rules shifted by one.
proof fn lemma_tail_shift(g: CompositionGraphV, rs: Seq<SpliceRuleV>, k: int, c: ChainV, i: int)
    requires
        0 <= k < rs.len(),
        k <= i <= rs.len() - 1,
    ensures
        apply_chain_rules(g, rs.remove(k), c, i) == apply_chain_rules(g, rs, c, i + 1),
    decreases rs.len() - i,
{
    let rs2 = rs.remove(k);
    rs.remove_ensures(k);
    if i < rs2.len() {
        assert(rs2[i] == rs[i + 1]);
        match apply_rule(g, rs[i + 1], c) {
            Ok(c2) => {
                lemma_tail_shift(g, rs, k, c2, i + 1);
            },
            Err(_) => {},
        }
    }
}

/// Skipping a rule that matches nothing on the chain does not change the
/// fold.
proof fn lemma_skip_rule(g: CompositionGraphV, rs: Seq<SpliceRuleV>, k: int, c: ChainV, i: int)
    requires
        0 <= i <= k < rs.len(),
        !rule_matches(g, rs[k], c.interface, c.chain),
    ensures
        apply_chain_rules(g, rs, c, i) == apply_chain_rules(g, rs.remove(k), c, i),
    decreases k - i,
{
    let rs2 = rs.remove(k);
    rs.remove_ensures(k);
    if i == k {
        lemma_rule_nomatch(g, rs[k], c);
        lemma_tail_shift(g, rs, k, c, k);
    } else {
        assert(rs2[i] == rs[i]);
        match apply_rule(g, rs[i], c) {
            Ok(c2) => {
                lemma_rule_keeps_sig(g, rs[i], c);
                lemma_skip_rule(g, rs, k, c2, i + 1);
            },
            Err(_) => {},
        }
    }
}

/// Skipping a rule that matches nothing on any chain does not change the
/// engine's result.
proof fn lemma_skip_rule_chains(
    g: CompositionGraphV,
    rs: Seq<SpliceRuleV>,
    k: int,
    cs: Seq<ChainV>,
    j: int,
)
    requires
        0 <= k < rs.len(),
        forall|t: int|
            j <= t < cs.len() ==> !rule_matches(
                g,
                rs[k],
                (#[trigger] cs[t]).interface,
                cs[t].chain,
            ),
    ensures
        apply_rules_from(g, rs, cs, j) == apply_rules_from(g, rs.remove(k), cs, j),
    decreases cs.len() - j,
{
    if 0 <= j < cs.len() {
        lemma_skip_rule(g, rs, k, cs[j], 0);
        match apply_chain_rules(g, rs, cs[j], 0) {
            Ok(c2) => {
                assert forall|t: int|
                    j + 1 <= t < cs.update(j, c2).len() implies !rule_matches(
                    g,
                    rs[k],
                    (#[trigger] cs.update(j, c2)[t]).interface,
                    cs.update(j, c2)[t].chain,
                ) by {
                    assert(cs.update(j, c2)[t] == cs[t]);
                }
                lemma_skip_rule_chains(g, rs, k, cs.update(j, c2), j + 1);
            },
            Err(_) => {},
        }
    }
}

/// Removing a rule whose provider or
/// inner/outer names match nothing on any chain of the graph leaves the
/// whole plan — script and compose arguments — unchanged.
pub proof fn lemma_noop_rule_removed(
    shims: Seq<usize>,
    splits: Seq<char>,
    g: CompositionGraphV,
    rules: Seq<SpliceRuleV>,
    k: int,
)
    requires
        0 <= k < rules.len(),
        build_chains_spec(g) is Ok ==> forall|t: int|
            0 <= t < build_chains_spec(g)->Ok_0.len() ==> !rule_matches(
                g,
                rules[k],
                (#[trigger] build_chains_spec(g)->Ok_0[t]).interface,
                build_chains_spec(g)->Ok_0[t].chain,
            ),
    ensures
        plan_spec(shims, splits, g, rules.remove(k)) == plan_spec(shims, splits, g, rules),
{
    match validate_scan(g) {
        Some(_) => {},
        None => {
            match build_chains_spec(g) {
                Err(_) => {},
                Ok(cs0) => {
                    lemma_skip_rule_chains(g, rules, k, cs0, 0);
                },
            }
        },
    }
}

/// When no rule matches anything on any chain of the graph, the
/// plan equals the plan of the empty rule list: the identity script, which
/// declares each chained or exported instance once, wires only what an
/// already-declared instance provides, and exports every top-level export.
pub proof fn lemma_identity(
    shims: Seq<usize>,
    splits: Seq<char>,
    g: CompositionGraphV,
    rules: Seq<SpliceRuleV>,
)
    requires
        build_chains_spec(g) is Ok ==> forall|q: int, t: int|
            0 <= q < rules.len() && 0 <= t < build_chains_spec(g)->Ok_0.len() ==> !rule_matches(
                g,
                #[trigger] rules[q],
                (#[trigger] build_chains_spec(g)->Ok_0[t]).interface,
                build_chains_spec(g)->Ok_0[t].chain,
            ),
    ensures
        plan_spec(shims, splits, g, rules) == plan_spec(shims, splits, g, Seq::empty()),
    decreases rules.len(),
{
    if rules.len() > 0 {
        lemma_noop_rule_removed(shims, splits, g, rules, 0);
        let rest = rules.remove(0);
        rules.remove_ensures(0);
        assert forall|q: int, t: int|
            0 <= q < rest.len() && 0 <= t < build_chains_spec(g)->Ok_0.len()
                && build_chains_spec(g) is Ok implies !rule_matches(
            g,
            #[trigger] rest[q],
            (#[trigger] build_chains_spec(g)->Ok_0[t]).interface,
            build_chains_spec(g)->Ok_0[t].chain,
        ) by {
            assert(rest[q] == rules[q + 1]);
        }
        lemma_identity(shims, splits, g, rest);
    } else {
        assert(rules =~= Seq::<SpliceRuleV>::empty());
    }
}

/// Merging a duplicate-free injection list into an empty position yields
/// exactly that list: the insertion-ordered set keeps declaration order.
proof fn lemma_set_extend_fresh(acc: Seq<InjectionV>, xs: Seq<InjectionV>, i: int)
    requires
        0 <= i <= xs.len(),
        xs.no_duplicates(),
        forall|j: int| i <= j < xs.len() ==> !acc.contains(#[trigger] xs[j]),
    ensures
        inj_set_extend(acc, xs, i) == acc + xs.skip(i),
    decreases xs.len() - i,
{
    if i < xs.len() {
        assert(!acc.contains(xs[i]));
        let acc2 = acc.push(xs[i]);
        assert forall|j: int| i + 1 <= j < xs.len() implies !acc2.contains(#[trigger] xs[j]) by {
            assert(xs[i] != xs[j]);
            if acc2.contains(xs[j]) {
                let w = choose|w: int| 0 <= w < acc2.len() && acc2[w] == xs[j];
                assert(w < acc.len() || acc2[w] == xs[i]);
                assert(acc.contains(xs[j]) || xs[j] == xs[i]);
            }
        }
        lemma_set_extend_fresh(acc2, xs, i + 1);
        assert(acc.push(xs[i]) + xs.skip(i + 1) =~= acc + xs.skip(i));
    } else {
        assert(acc + xs.skip(i) =~= acc);
    }
}

/// The first rule that writes a chain position seeds its plan with exactly
/// the rule's injection list, in declaration order, when that list has no
/// duplicate entries.
pub proof fn lemma_fresh_plan_is_inject(
    c: ChainV,
    entries: Seq<crate::chains::AliasBindingV>,
    inject: Seq<InjectionV>,
    k: usize,
)
    requires
        plan_lookup(c.inject_plan, k) is None,
        inject.no_duplicates(),
        add_to_plan(c, entries, inject, k) is Ok,
    ensures
        plan_lookup(add_to_plan(c, entries, inject, k)->Ok_0.inject_plan, k) == Some(inject),
{
    lemma_set_extend_fresh(Seq::empty(), inject, 0);
    assert(Seq::<InjectionV>::empty() + inject.skip(0) =~= inject);
    let c2 = add_to_plan(c, entries, inject, k)->Ok_0;
    let plan = c.inject_plan;
    lemma_plan_pos_bounds(plan, k, 0);
    assert(c2.inject_plan == plan.push(crate::chains::PlanEntryV { position: k, mdls: inject }));
    lemma_plan_pos_push(plan, k, inject, 0);
    let plan2 = plan.push(crate::chains::PlanEntryV { position: k, mdls: inject });
    assert(plan2[plan.len() as int].mdls == inject);
}

/// The position scan never lands outside `[i, plan.len()]`.
proof fn lemma_plan_pos_bounds(plan: Seq<crate::chains::PlanEntryV>, k: usize, i: int)
    requires
        0 <= i <= plan.len(),
    ensures
        i <= crate::engine::plan_pos_from(plan, k, i) <= plan.len(),
    decreases plan.len() - i,
{
    if i < plan.len() && plan[i].position != k {
        lemma_plan_pos_bounds(plan, k, i + 1);
    }
}

/// Looking up a position just pushed at the end of a plan without it.
proof fn lemma_plan_pos_push(
    plan: Seq<crate::chains::PlanEntryV>,
    k: usize,
    mdls: Seq<InjectionV>,
    i: int,
)
    requires
        0 <= i <= plan.len(),
        crate::engine::plan_pos_from(plan, k, 0) == plan.len(),
        crate::engine::plan_pos_from(plan, k, i) == plan.len(),
    ensures
        crate::engine::plan_pos_from(
            plan.push(crate::chains::PlanEntryV { position: k, mdls }),
            k,
            i,
        ) == plan.len() as int,
    decreases plan.len() - i,
{
    let plan2 = plan.push(crate::chains::PlanEntryV { position: k, mdls });
    if i < plan.len() {
        assert(plan2[i] == plan[i]);
        lemma_plan_pos_push(plan, k, mdls, i + 1);
    } else {
        assert(plan2[i].position == k);
    }
}

/// When the middlewares planned at a position are
/// `[m1, m2, ..., mk]` in stored (declaration) order, the emitter declares
/// them in reverse: the first declared block is `mk`, wired to the variable
/// that provided the interface so far; each further block is wired to the
/// one declared just before it; the last declared block is `m1`, which
/// becomes the new provider of the interface. Runtime dispatch therefore
/// follows declaration order.
pub proof fn lemma_middleware_order(
    mdls: Seq<InjectionV>,
    iface: Seq<char>,
    last: Seq<char>,
    st: EmitStateV,
)
    ensures
        ({
            let r = emit_injections(mdls.reverse(), 0, iface, last, st);
            &&& r.1.lines.len() == st.lines.len() + mdls.len()
            &&& forall|t: int|
                0 <= t < mdls.len() ==> #[trigger] r.1.lines[st.lines.len() + t] == mdl_block(
                    mdls[mdls.len() - 1 - t].name,
                    iface,
                    if t == 0 {
                        last
                    } else {
                        mdls[mdls.len() - t].name
                    },
                )
            &&& r.0 == (if mdls.len() == 0 {
                last
            } else {
                mdls[0].name
            })
        }),
{
    let rev = mdls.reverse();
    lemma_emit_injections_lines(rev, 0, iface, last, st);
    let r = emit_injections(rev, 0, iface, last, st);
    assert forall|t: int| 0 <= t < mdls.len() implies #[trigger] r.1.lines[st.lines.len() + t]
        == mdl_block(
        mdls[mdls.len() - 1 - t].name,
        iface,
        if t == 0 {
            last
        } else {
            mdls[mdls.len() - t].name
        },
    ) by {
        assert(rev[t] == mdls[mdls.len() - 1 - t]);
        if t > 0 {
            assert(rev[t - 1] == mdls[mdls.len() - t]);
        }
    }
    if mdls.len() > 0 {
        assert(rev.last() == mdls[0]);
    }
}

/// The blocks that a run of middleware declarations appends: one block per
/// middleware, in list order, each wired to its predecessor's name.
proof fn lemma_emit_injections_lines(
    s: Seq<InjectionV>,
    j: int,
    iface: Seq<char>,
    last: Seq<char>,
    st: EmitStateV,
)
    requires
        0 <= j <= s.len(),
    ensures
        ({
            let r = emit_injections(s, j, iface, last, st);
            &&& r.1.lines.len() == st.lines.len() + (s.len() - j)
            &&& forall|t: int|
                0 <= t < s.len() - j ==> #[trigger] r.1.lines[st.lines.len() + t] == mdl_block(
                    s[j + t].name,
                    iface,
                    if t == 0 {
                        last
                    } else {
                        s[j + t - 1].name
                    },
                )
            &&& r.0 == (if j == s.len() {
                last
            } else {
                s.last().name
            })
            &&& r.1.instance_vars == st.instance_vars
            &&& r.1.outer_instances == st.outer_instances
            &&& r.1.used_comps == st.used_comps
            &&& forall|t: int| 0 <= t < st.lines.len() ==> #[trigger] r.1.lines[t] == st.lines[t]
        }),
    decreases s.len() - j,
{
    if j < s.len() {
        let m = s[j];
        let st2 = EmitStateV {
            lines: st.lines.push(mdl_block(m.name, iface, last)),
            mdl_override: Some((iface, m.name)),
            instance_vars: st.instance_vars,
            outer_instances: st.outer_instances,
            used_comps: st.used_comps,
            used_mdls: st.used_mdls.push(
                (m.name, crate::emit::path_or_placeholder(m.path)),
            ),
        };
        lemma_emit_injections_lines(s, j + 1, iface, m.name, st2);
        let r = emit_injections(s, j, iface, last, st);
        assert(r == emit_injections(s, j + 1, iface, m.name, st2));
        assert forall|t: int| 0 <= t < s.len() - j implies #[trigger] r.1.lines[st.lines.len()
            + t] == mdl_block(
            s[j + t].name,
            iface,
            if t == 0 {
                last
            } else {
                s[j + t - 1].name
            },
        ) by {
            if t == 0 {
                assert(r.1.lines[st.lines.len() as int] == st2.lines[st.lines.len() as int]);
                assert(st2.lines[st.lines.len() as int] == mdl_block(m.name, iface, last));
            } else {
                assert(r.1.lines[st2.lines.len() + (t - 1)] == mdl_block(
                    s[j + 1 + (t - 1)].name,
                    iface,
                    if t - 1 == 0 {
                        m.name
                    } else {
                        s[j + 1 + t - 2].name
                    },
                ));
            }
        }
        if j + 1 == s.len() {
            assert(s.last() == m);
        }
    }
}

/// The emitter state after the first `i` exports have been handled.
pub open spec fn exports_prefix_state(
    g: CompositionGraphV,
    st0: EmitStateV,
    i: int,
) -> EmitStateV
    decreases i,
{
    if i <= 0 {
        st0
    } else {
        crate::emit::emit_export(
            g,
            g.component_exports[i - 1],
            exports_prefix_state(g, st0, i - 1),
        )
    }
}

/// The variable an export statement names: the effective outermost producer
/// recorded for the source instance, or the variable of a fresh bare
/// declaration when no chain ended at it.
pub open spec fn export_choice(g: CompositionGraphV, st: EmitStateV, e: (Seq<char>, u32)) -> Seq<
    char,
> {
    match crate::emit::svar_lookup(st.outer_instances, e.1) {
        Some(v) => v,
        None => crate::emit::get_or_create(g, Seq::empty(), e.1, None, st).0,
    }
}

/// The suffix fold over the exports agrees with the prefix states.
proof fn lemma_exports_align(g: CompositionGraphV, st0: EmitStateV, i: int)
    requires
        0 <= i <= g.component_exports.len(),
    ensures
        crate::emit::emit_exports(g, 0, st0) == crate::emit::emit_exports(
            g,
            i,
            exports_prefix_state(g, st0, i),
        ),
    decreases i,
{
    if i > 0 {
        lemma_exports_align(g, st0, i - 1);
    }
}

/// Every top-level export produces exactly one
/// export statement, in export order: handling export `i` appends (after a
/// bare declaration of its source, when that instance was never
/// materialized) one block, the export statement naming the effective
/// outermost producer of the interface.
pub proof fn lemma_export_preservation(g: CompositionGraphV, cs: Seq<ChainV>)
    ensures
        crate::emit::emit_all(g, cs) == exports_prefix_state(
            g,
            crate::emit::emit_chains(g, cs, 0, crate::emit::init_emit_state()),
            g.component_exports.len() as int,
        ),
        forall|i: int|
            0 <= i < g.component_exports.len() ==> {
                let st0 = crate::emit::emit_chains(g, cs, 0, crate::emit::init_emit_state());
                let before = exports_prefix_state(g, st0, i);
                let after = exports_prefix_state(g, st0, i + 1);
                let e = #[trigger] g.component_exports[i];
                &&& after.lines.len() > before.lines.len()
                &&& after.lines.last() == crate::emit::export_block(
                    export_choice(g, before, e),
                    e.0,
                )
            },
{
    let st0 = crate::emit::emit_chains(g, cs, 0, crate::emit::init_emit_state());
    lemma_exports_align(g, st0, g.component_exports.len() as int);
    assert forall|i: int| 0 <= i < g.component_exports.len() implies {
        let before = exports_prefix_state(g, st0, i);
        let after = exports_prefix_state(g, st0, i + 1);
        let e = #[trigger] g.component_exports[i];
        &&& after.lines.len() > before.lines.len()
        &&& after.lines.last() == crate::emit::export_block(export_choice(g, before, e), e.0)
    } by {
        let before = exports_prefix_state(g, st0, i);
        let e = g.component_exports[i];
        assert(exports_prefix_state(g, st0, i + 1) == crate::emit::emit_export(g, e, before));
    }
}

/// Whether `s` starts with the characters of `p`.
pub open spec fn starts_with(s: Seq<char>, p: Seq<char>) -> bool {
    s.len() >= p.len() && s.subrange(0, p.len() as int) == p
}

/// The later line list keeps every earlier block in place and adds only
/// declaration blocks, which start with `let `.
pub open spec fn lines_extended_with_decls(old: Seq<Seq<char>>, new: Seq<Seq<char>>) -> bool {
    &&& old.len() <= new.len()
    &&& forall|k: int| 0 <= k < old.len() ==> #[trigger] new[k] == old[k]
    &&& forall|k: int| old.len() <= k < new.len() ==> starts_with(#[trigger] new[k], "let "@)
}

proof fn lemma_lines_extended_trans(a: Seq<Seq<char>>, b: Seq<Seq<char>>, c: Seq<Seq<char>>)
    requires
        lines_extended_with_decls(a, b),
        lines_extended_with_decls(b, c),
    ensures
        lines_extended_with_decls(a, c),
{
}

proof fn lemma_decl_block_is_let(
    pkg: Seq<char>,
    imports: Seq<crate::model::InterfaceConnectionV>,
    ovd: Option<(Seq<char>, Seq<char>)>,
    vars: Seq<(u32, Seq<char>)>,
)
    ensures
        starts_with(crate::emit::decl_block(pkg, imports, ovd, vars), "let "@),
{
    reveal_strlit("let ");
    assert(crate::emit::decl_block(pkg, imports, ovd, vars).subrange(0, 4) =~= "let "@);
}

proof fn lemma_mdl_block_is_let(mw: Seq<char>, iface: Seq<char>, input: Seq<char>)
    ensures
        starts_with(mdl_block(mw, iface, input), "let "@),
{
    reveal_strlit("let ");
    assert(mdl_block(mw, iface, input).subrange(0, 4) =~= "let "@);
}

/// Export statements are marked apart: they start with `export `.
pub proof fn lemma_export_block_is_export(v: Seq<char>, iface: Seq<char>)
    ensures
        starts_with(crate::emit::export_block(v, iface), "export "@),
{
    reveal_strlit("export ");
    assert(crate::emit::export_block(v, iface).subrange(0, 7) =~= "export "@);
}

proof fn lemma_get_or_create_lines(
    g: CompositionGraphV,
    aliases: Seq<crate::chains::AliasBindingV>,
    id: u32,
    ovd: Option<(Seq<char>, Seq<char>)>,
    st: EmitStateV,
)
    ensures
        lines_extended_with_decls(st.lines, crate::emit::get_or_create(g, aliases, id, ovd, st).1.lines),
{
    match crate::emit::svar_lookup(st.instance_vars, id) {
        Some(_) => {},
        None => {
            let pkg = crate::emit::resolve_pkg(g, aliases, id);
            let vars2 = st.instance_vars.push((id, pkg));
            lemma_decl_block_is_let(
                pkg,
                crate::model::node_of(g.nodes, id).imports,
                ovd,
                vars2,
            );
        },
    }
}

proof fn lemma_emit_injections_decls(
    s: Seq<InjectionV>,
    j: int,
    iface: Seq<char>,
    last: Seq<char>,
    st: EmitStateV,
)
    requires
        0 <= j <= s.len(),
    ensures
        lines_extended_with_decls(st.lines, emit_injections(s, j, iface, last, st).1.lines),
{
    lemma_emit_injections_lines(s, j, iface, last, st);
    let r = emit_injections(s, j, iface, last, st);
    assert forall|k: int| st.lines.len() <= k < r.1.lines.len() implies starts_with(
        #[trigger] r.1.lines[k],
        "let "@,
    ) by {
        let t = k - st.lines.len();
        assert(r.1.lines[st.lines.len() + t] == mdl_block(
            s[j + t].name,
            iface,
            if t == 0 {
                last
            } else {
                s[j + t - 1].name
            },
        ));
        lemma_mdl_block_is_let(
            s[j + t].name,
            iface,
            if t == 0 {
                last
            } else {
                s[j + t - 1].name
            },
        );
    }
}

proof fn lemma_emit_position_decls(g: CompositionGraphV, c: ChainV, i: int, st: EmitStateV)
    ensures
        lines_extended_with_decls(st.lines, crate::emit::emit_position(g, c, i, st).lines),
{
    let id = c.chain[i];
    let r1 = crate::emit::get_or_create(g, c.aliases, id, st.mdl_override, st);
    lemma_get_or_create_lines(g, c.aliases, id, st.mdl_override, st);
    let st2 = EmitStateV { mdl_override: Some((c.interface, r1.0)), ..r1.1 };
    match plan_lookup(c.inject_plan, (i + 1) as usize) {
        None => {},
        Some(m) => {
            lemma_emit_injections_decls(m.reverse(), 0, c.interface, r1.0, st2);
            lemma_lines_extended_trans(
                st.lines,
                st2.lines,
                emit_injections(m.reverse(), 0, c.interface, r1.0, st2).1.lines,
            );
        },
    }
}

proof fn lemma_emit_chain_decls(g: CompositionGraphV, c: ChainV, i: int, st: EmitStateV)
    ensures
        lines_extended_with_decls(st.lines, crate::emit::emit_chain(g, c, i, st).lines),
    decreases c.chain.len() - i,
{
    if !(i < 0 || i >= c.chain.len()) {
        lemma_emit_position_decls(g, c, i, st);
        let st2 = crate::emit::emit_position(g, c, i, st);
        lemma_emit_chain_decls(g, c, i + 1, st2);
        lemma_lines_extended_trans(st.lines, st2.lines, crate::emit::emit_chain(g, c, i + 1, st2).lines);
    }
}

/// After the header, everything the
/// chain phase emits is a declaration block starting with `let `, so the
/// statements starting with `export ` that the export phase appends — one
/// per top-level export — are exactly the script's export statements.
pub proof fn lemma_chain_blocks_are_decls(g: CompositionGraphV, cs: Seq<ChainV>, j: int, st: EmitStateV)
    ensures
        lines_extended_with_decls(st.lines, crate::emit::emit_chains(g, cs, j, st).lines),
    decreases cs.len() - j,
{
    if !(j < 0 || j >= cs.len()) {
        lemma_emit_chain_decls(g, cs[j], 0, st);
        let st2 = crate::emit::emit_chain(g, cs[j], 0, st);
        lemma_chain_blocks_are_decls(g, cs, j + 1, st2);
        lemma_lines_extended_trans(st.lines, st2.lines, crate::emit::emit_chains(g, cs, j + 1, st2).lines);
    }
}

/// The interfaces a declaration wires, in import order: an import is wired
/// exactly when it is not a host import, an interface is being threaded,
/// and it either carries that interface or its provider is declared.
pub open spec fn wired_ifaces(
    imports: Seq<crate::model::InterfaceConnectionV>,
    j: int,
    ovd: Option<(Seq<char>, Seq<char>)>,
    vars: Seq<(u32, Seq<char>)>,
) -> Seq<Seq<char>>
    decreases imports.len() - j,
{
    if j < 0 || j >= imports.len() {
        Seq::empty()
    } else {
        let c = imports[j];
        let wired = !c.is_host_import && ((ovd is Some && c.interface_name == (ovd->Some_0).0)
            || crate::emit::svar_lookup(vars, c.source_instance) is Some);
        (if wired {
            seq![c.interface_name]
        } else {
            Seq::<Seq<char>>::empty()
        }) + wired_ifaces(imports, j + 1, ovd, vars)
    }
}

/// The declared name reaches only the `let`
/// head and the package segment of a declaration; the wired imports are the
/// same character sequence whatever the name.
pub proof fn lemma_alias_only_renames(
    p1: Seq<char>,
    p2: Seq<char>,
    imports: Seq<crate::model::InterfaceConnectionV>,
    ovd: Option<(Seq<char>, Seq<char>)>,
    vars: Seq<(u32, Seq<char>)>,
)
    ensures
        crate::emit::decl_block(p1, imports, ovd, vars) == "let "@ + p1 + " = new my:"@ + p1 + (
        " {"@ + crate::emit::decl_wires(imports, 0, ovd, vars) + "\n    ...\n};"@),
        crate::emit::decl_block(p2, imports, ovd, vars) == "let "@ + p2 + " = new my:"@ + p2 + (
        " {"@ + crate::emit::decl_wires(imports, 0, ovd, vars) + "\n    ...\n};"@),
{
    assert(crate::emit::decl_block(p1, imports, ovd, vars) =~= "let "@ + p1 + " = new my:"@ + p1
        + (" {"@ + crate::emit::decl_wires(imports, 0, ovd, vars) + "\n    ...\n};"@));
    assert(crate::emit::decl_block(p2, imports, ovd, vars) =~= "let "@ + p2 + " = new my:"@ + p2
        + (" {"@ + crate::emit::decl_wires(imports, 0, ovd, vars) + "\n    ...\n};"@));
}

/// Which imports a declaration wires
/// depends only on which instances are declared and which interface is
/// threaded, never on the names they were declared under.
pub proof fn lemma_wired_imports_ignore_names(
    imports: Seq<crate::model::InterfaceConnectionV>,
    j: int,
    ovd1: Option<(Seq<char>, Seq<char>)>,
    ovd2: Option<(Seq<char>, Seq<char>)>,
    vars1: Seq<(u32, Seq<char>)>,
    vars2: Seq<(u32, Seq<char>)>,
)
    requires
        (ovd1 is Some) <==> (ovd2 is Some),
        ovd1 is Some ==> (ovd1->Some_0).0 == (ovd2->Some_0).0,
        forall|id: u32|
            (#[trigger] crate::emit::svar_lookup(vars1, id)) is Some <==> crate::emit::svar_lookup(
                vars2,
                id,
            ) is Some,
    ensures
        wired_ifaces(imports, j, ovd1, vars1) == wired_ifaces(imports, j, ovd2, vars2),
    decreases imports.len() - j,
{
    if !(j < 0 || j >= imports.len()) {
        lemma_wired_imports_ignore_names(imports, j + 1, ovd1, ovd2, vars1, vars2);
    }
}


/// The variable scan stays within bounds.
proof fn lemma_svar_pos_bounds(m: Seq<(u32, Seq<char>)>, src: u32, i: int)
    requires
        0 <= i <= m.len(),
    ensures
        i <= crate::emit::svar_pos_from(m, src, i) <= m.len(),
    decreases m.len() - i,
{
    if i < m.len() && m[i].0 != src {
        lemma_svar_pos_bounds(m, src, i + 1);
    }
}

/// Appending an entry for another instance does not change where the scan
/// finds `src`.
proof fn lemma_svar_pos_push_other(
    m: Seq<(u32, Seq<char>)>,
    id: u32,
    p: Seq<char>,
    src: u32,
    i: int,
)
    requires
        src != id,
        0 <= i <= m.len(),
    ensures
        crate::emit::svar_pos_from(m, src, i) < m.len() ==> crate::emit::svar_pos_from(
            m.push((id, p)),
            src,
            i,
        ) == crate::emit::svar_pos_from(m, src, i),
        crate::emit::svar_pos_from(m, src, i) == m.len() ==> crate::emit::svar_pos_from(
            m.push((id, p)),
            src,
            i,
        ) == m.len() + 1,
    decreases m.len() - i,
{
    let m2 = m.push((id, p));
    if i < m.len() {
        assert(m2[i] == m[i]);
        if m[i].0 != src {
            lemma_svar_pos_push_other(m, id, p, src, i + 1);
        }
    } else {
        assert(m2[i] == (id, p));
        assert(crate::emit::svar_pos_from(m2, src, i + 1) == m.len() + 1);
    }
}

/// Appending an entry for another instance does not change the lookup of
/// `src`.
proof fn lemma_svar_lookup_push_other(m: Seq<(u32, Seq<char>)>, id: u32, p: Seq<char>, src: u32)
    requires
        src != id,
    ensures
        crate::emit::svar_lookup(m.push((id, p)), src) == crate::emit::svar_lookup(m, src),
{
    lemma_svar_pos_bounds(m, src, 0);
    lemma_svar_pos_push_other(m, id, p, src, 0);
    let q = crate::emit::svar_pos_from(m, src, 0);
    if q < m.len() {
        assert(m.push((id, p))[q] == m[q]);
    }
}

/// Two variable tables with the same lookups on every import's provider
/// produce the same wire text.
proof fn lemma_decl_wires_same_lookups(
    imports: Seq<crate::model::InterfaceConnectionV>,
    j: int,
    ovd: Option<(Seq<char>, Seq<char>)>,
    vars1: Seq<(u32, Seq<char>)>,
    vars2: Seq<(u32, Seq<char>)>,
)
    requires
        0 <= j,
        forall|k: int|
            j <= k < imports.len() ==> crate::emit::svar_lookup(
                vars1,
                (#[trigger] imports[k]).source_instance,
            ) == crate::emit::svar_lookup(vars2, imports[k].source_instance),
    ensures
        crate::emit::decl_wires(imports, j, ovd, vars1) == crate::emit::decl_wires(
            imports,
            j,
            ovd,
            vars2,
        ),
    decreases imports.len() - j,
{
    if j < imports.len() {
        lemma_decl_wires_same_lookups(imports, j + 1, ovd, vars1, vars2);
    }
}

/// Completing alias isolation: an instance that does not import from
/// itself is declared, under any two alias tables, with character-for-
/// character the same wired imports — the same interface names and the
/// same source variables; only the `let` head and the package segment
/// carry the chosen name.
pub proof fn lemma_alias_same_wires(
    g: CompositionGraphV,
    a1: Seq<crate::chains::AliasBindingV>,
    a2: Seq<crate::chains::AliasBindingV>,
    id: u32,
    ovd: Option<(Seq<char>, Seq<char>)>,
    st: EmitStateV,
)
    requires
        crate::emit::svar_lookup(st.instance_vars, id) is None,
        forall|k: int|
            0 <= k < crate::model::node_of(g.nodes, id).imports.len() ==> (#[trigger] crate::model::node_of(
                g.nodes,
                id,
            ).imports[k]).source_instance != id,
    ensures
        ({
            let imports = crate::model::node_of(g.nodes, id).imports;
            let p1 = crate::emit::resolve_pkg(g, a1, id);
            let p2 = crate::emit::resolve_pkg(g, a2, id);
            let w = crate::emit::decl_wires(imports, 0, ovd, st.instance_vars);
            &&& crate::emit::get_or_create(g, a1, id, ovd, st).1.lines.last() == "let "@ + p1
                + " = new my:"@ + p1 + (" {"@ + w + "\n    ...\n};"@)
            &&& crate::emit::get_or_create(g, a2, id, ovd, st).1.lines.last() == "let "@ + p2
                + " = new my:"@ + p2 + (" {"@ + w + "\n    ...\n};"@)
        }),
{
    let imports = crate::model::node_of(g.nodes, id).imports;
    let p1 = crate::emit::resolve_pkg(g, a1, id);
    let p2 = crate::emit::resolve_pkg(g, a2, id);
    assert forall|k: int| 0 <= k < imports.len() implies crate::emit::svar_lookup(
        st.instance_vars.push((id, p1)),
        (#[trigger] imports[k]).source_instance,
    ) == crate::emit::svar_lookup(st.instance_vars, imports[k].source_instance) by {
        lemma_svar_lookup_push_other(st.instance_vars, id, p1, imports[k].source_instance);
    }
    assert forall|k: int| 0 <= k < imports.len() implies crate::emit::svar_lookup(
        st.instance_vars.push((id, p2)),
        (#[trigger] imports[k]).source_instance,
    ) == crate::emit::svar_lookup(st.instance_vars, imports[k].source_instance) by {
        lemma_svar_lookup_push_other(st.instance_vars, id, p2, imports[k].source_instance);
    }
    lemma_decl_wires_same_lookups(imports, 0, ovd, st.instance_vars.push((id, p1)), st.instance_vars);
    lemma_decl_wires_same_lookups(imports, 0, ovd, st.instance_vars.push((id, p2)), st.instance_vars);
    let w = crate::emit::decl_wires(imports, 0, ovd, st.instance_vars);
    assert(crate::emit::decl_block(p1, imports, ovd, st.instance_vars.push((id, p1))) =~= "let "@
        + p1 + " = new my:"@ + p1 + (" {"@ + w + "\n    ...\n};"@));
    assert(crate::emit::decl_block(p2, imports, ovd, st.instance_vars.push((id, p2))) =~= "let "@
        + p2 + " = new my:"@ + p2 + (" {"@ + w + "\n    ...\n};"@));
}

/// The scan of the stored plan passes only other positions and stops on a
/// hit.
proof fn lemma_plan_pos_props(plan: Seq<crate::chains::PlanEntryV>, k: usize, i: int)
    requires
        0 <= i <= plan.len(),
    ensures
        i <= crate::engine::plan_pos_from(plan, k, i) <= plan.len(),
        forall|t: int|
            i <= t < crate::engine::plan_pos_from(plan, k, i) ==> (#[trigger] plan[t]).position
                != k,
        crate::engine::plan_pos_from(plan, k, i) < plan.len() ==> plan[crate::engine::plan_pos_from(
            plan,
            k,
            i,
        )].position == k,
    decreases plan.len() - i,
{
    if i < plan.len() && plan[i].position != k {
        lemma_plan_pos_props(plan, k, i + 1);
    }
}

/// After an update at the found position, the scan still lands there.
proof fn lemma_plan_pos_update_scan(
    plan: Seq<crate::chains::PlanEntryV>,
    k: usize,
    e: crate::chains::PlanEntryV,
    i: int,
)
    requires
        e.position == k,
        crate::engine::plan_pos_from(plan, k, 0) < plan.len(),
        0 <= i <= crate::engine::plan_pos_from(plan, k, 0),
        forall|t: int|
            0 <= t < crate::engine::plan_pos_from(plan, k, 0) ==> (#[trigger] plan[t]).position
                != k,
    ensures
        crate::engine::plan_pos_from(
            plan.update(crate::engine::plan_pos_from(plan, k, 0), e),
            k,
            i,
        ) == crate::engine::plan_pos_from(plan, k, 0),
    decreases plan.len() - i,
{
    let q = crate::engine::plan_pos_from(plan, k, 0);
    let plan2 = plan.update(q, e);
    if i < q {
        assert(plan2[i] == plan[i]);
        lemma_plan_pos_update_scan(plan, k, e, i + 1);
    } else {
        assert(plan2[i].position == k);
    }
}

/// Whatever a position held before, after `plan_set` it holds the stored
/// set.
proof fn lemma_plan_set_lookup(
    plan: Seq<crate::chains::PlanEntryV>,
    k: usize,
    mdls: Seq<InjectionV>,
)
    ensures
        plan_lookup(crate::engine::plan_set(plan, k, mdls), k) == Some(mdls),
{
    lemma_plan_pos_props(plan, k, 0);
    let q = crate::engine::plan_pos_from(plan, k, 0);
    let e = crate::chains::PlanEntryV { position: k, mdls };
    if q < plan.len() {
        lemma_plan_pos_update_scan(plan, k, e, 0);
        assert(plan.update(q, e)[q] == e);
    } else {
        lemma_plan_pos_push(plan, k, mdls, 0);
        assert(plan.push(e)[plan.len() as int] == e);
    }
}

/// A later rule that writes an already-seeded position extends the stored
/// set in declaration order: with a duplicate-free injection list disjoint
/// from what is stored, the position afterwards holds the stored set
/// followed by the rule's whole list — the multi-rule middleware order.
pub proof fn lemma_plan_extension(
    c: ChainV,
    entries: Seq<crate::chains::AliasBindingV>,
    inject: Seq<InjectionV>,
    k: usize,
)
    requires
        plan_lookup(c.inject_plan, k) is Some,
        inject.no_duplicates(),
        forall|j: int|
            0 <= j < inject.len() ==> !plan_lookup(c.inject_plan, k)->Some_0.contains(
                #[trigger] inject[j],
            ),
        add_to_plan(c, entries, inject, k) is Ok,
    ensures
        plan_lookup(add_to_plan(c, entries, inject, k)->Ok_0.inject_plan, k) == Some(
            plan_lookup(c.inject_plan, k)->Some_0 + inject,
        ),
{
    let s = plan_lookup(c.inject_plan, k)->Some_0;
    lemma_set_extend_fresh(s, inject, 0);
    assert(s + inject.skip(0) =~= s + inject);
    lemma_plan_set_lookup(c.inject_plan, k, inj_set_extend(s, inject, 0));
}

/// The number of blocks from position `i` on that start with `export `.
pub open spec fn export_count(lines: Seq<Seq<char>>, i: int) -> int
    decreases lines.len() - i,
{
    if i < 0 || i >= lines.len() {
        0
    } else {
        (if starts_with(lines[i], "export "@) {
            1int
        } else {
            0int
        }) + export_count(lines, i + 1)
    }
}

/// A declaration block or the header is not an export statement.
proof fn lemma_not_export_block(s: Seq<char>)
    requires
        starts_with(s, "let "@) || s == crate::emit::header_line(),
    ensures
        !starts_with(s, "export "@),
{
    reveal_strlit("let ");
    reveal_strlit("export ");
    reveal_strlit("package example:composition;");
    if starts_with(s, "export "@) {
        assert(s.subrange(0, 7)[0] == 'e');
        if starts_with(s, "let "@) {
            assert(s.subrange(0, 4)[0] == 'l');
        } else {
            assert(s[0] == 'p');
        }
    }
}

/// Lines that never start with `export ` count zero.
proof fn lemma_export_count_zero(lines: Seq<Seq<char>>, i: int)
    requires
        0 <= i,
        forall|t: int| i <= t < lines.len() ==> !starts_with(#[trigger] lines[t], "export "@),
    ensures
        export_count(lines, i) == 0,
    decreases lines.len() - i,
{
    if i < lines.len() {
        lemma_export_count_zero(lines, i + 1);
    }
}

/// Counting splits over an unchanged prefix.
proof fn lemma_export_count_prefix(old_lines: Seq<Seq<char>>, new_lines: Seq<Seq<char>>, i: int)
    requires
        0 <= i <= old_lines.len() <= new_lines.len(),
        forall|t: int| 0 <= t < old_lines.len() ==> #[trigger] new_lines[t] == old_lines[t],
    ensures
        export_count(new_lines, i) == export_count(old_lines, i) + export_count(
            new_lines,
            old_lines.len() as int,
        ),
    decreases old_lines.len() - i,
{
    if i < old_lines.len() {
        lemma_export_count_prefix(old_lines, new_lines, i + 1);
    }
}

/// Handling one export appends exactly one block that starts with
/// `export ` (and at most one declaration, which does not).
proof fn lemma_emit_export_count(g: CompositionGraphV, e: (Seq<char>, u32), st: EmitStateV)
    ensures
        export_count(crate::emit::emit_export(g, e, st).lines, 0) == export_count(st.lines, 0)
            + 1,
{
    let st2 = crate::emit::emit_export(g, e, st);
    let choice = export_choice(g, st, e);
    lemma_export_block_is_export(choice, e.0);
    match crate::emit::svar_lookup(st.outer_instances, e.1) {
        Some(v) => {
            assert(st2.lines == st.lines.push(crate::emit::export_block(choice, e.0)));
            assert(st2.lines[st.lines.len() as int] == crate::emit::export_block(choice, e.0));
            assert(export_count(st2.lines, st.lines.len() as int + 1) == 0);
            assert(export_count(st2.lines, st.lines.len() as int) == 1);
            lemma_export_count_prefix(st.lines, st2.lines, 0);
        },
        None => {
            let r = crate::emit::get_or_create(g, Seq::empty(), e.1, None, st);
            match crate::emit::svar_lookup(st.instance_vars, e.1) {
                Some(_) => {
                    assert(st2.lines == st.lines.push(crate::emit::export_block(choice, e.0)));
                    assert(st2.lines[st.lines.len() as int] == crate::emit::export_block(
                        choice,
                        e.0,
                    ));
                    assert(export_count(st2.lines, st.lines.len() as int + 1) == 0);
                    assert(export_count(st2.lines, st.lines.len() as int) == 1);
                    lemma_export_count_prefix(st.lines, st2.lines, 0);
                },
                None => {
                    let pkg = crate::emit::resolve_pkg(g, Seq::empty(), e.1);
                    let vars2 = st.instance_vars.push((e.1, pkg));
                    let decl = crate::emit::decl_block(
                        pkg,
                        crate::model::node_of(g.nodes, e.1).imports,
                        None,
                        vars2,
                    );
                    lemma_decl_block_is_let(
                        pkg,
                        crate::model::node_of(g.nodes, e.1).imports,
                        None,
                        vars2,
                    );
                    lemma_not_export_block(decl);
                    assert(st2.lines == st.lines.push(decl).push(
                        crate::emit::export_block(choice, e.0),
                    ));
                    assert(st2.lines[st.lines.len() as int] == decl);
                    assert(st2.lines[st.lines.len() as int + 1] == crate::emit::export_block(
                        choice,
                        e.0,
                    ));
                    assert(export_count(st2.lines, st.lines.len() as int + 2) == 0);
                    assert(export_count(st2.lines, st.lines.len() as int + 1) == 1);
                    assert(export_count(st2.lines, st.lines.len() as int) == 1);
                    lemma_export_count_prefix(st.lines, st2.lines, 0);
                },
            }
        },
    }
}

/// The chain phase contributes no export statements.
proof fn lemma_chain_phase_count(g: CompositionGraphV, cs: Seq<ChainV>)
    ensures
        export_count(
            crate::emit::emit_chains(g, cs, 0, crate::emit::init_emit_state()).lines,
            0,
        ) == 0,
{
    lemma_chain_blocks_are_decls(g, cs, 0, crate::emit::init_emit_state());
    let lines = crate::emit::emit_chains(g, cs, 0, crate::emit::init_emit_state()).lines;
    assert forall|t: int| 0 <= t < lines.len() implies !starts_with(
        #[trigger] lines[t],
        "export "@,
    ) by {
        if t == 0 {
            assert(lines[0] == crate::emit::header_line());
            lemma_not_export_block(lines[0]);
        } else {
            lemma_not_export_block(lines[t]);
        }
    }
    lemma_export_count_zero(lines, 0);
}

/// The prefix states count one export statement per export handled.
proof fn lemma_export_prefix_count(g: CompositionGraphV, st0: EmitStateV, i: int)
    requires
        0 <= i <= g.component_exports.len(),
        export_count(st0.lines, 0) == 0,
    ensures
        export_count(exports_prefix_state(g, st0, i).lines, 0) == i,
    decreases i,
{
    if i > 0 {
        lemma_export_prefix_count(g, st0, i - 1);
        lemma_emit_export_count(
            g,
            g.component_exports[i - 1],
            exports_prefix_state(g, st0, i - 1),
        );
    }
}

/// Completing export preservation: the emitted script holds exactly one
/// block starting with `export ` per top-level export — together with the
/// per-export characterization, exactly one export statement each, in
/// export order.
pub proof fn lemma_one_export_statement_each(g: CompositionGraphV, cs: Seq<ChainV>)
    ensures
        export_count(crate::emit::emit_all(g, cs).lines, 0) == g.component_exports.len(),
{
    lemma_chain_phase_count(g, cs);
    lemma_export_preservation(g, cs);
    let st0 = crate::emit::emit_chains(g, cs, 0, crate::emit::init_emit_state());
    lemma_export_prefix_count(g, st0, g.component_exports.len() as int);
}

/// Whether a rule matches at least one of the chains.
pub open spec fn matches_some(g: CompositionGraphV, cs: Seq<ChainV>, r: SpliceRuleV) -> bool {
    exists|t: int|
        0 <= t < cs.len() && rule_matches(g, r, (#[trigger] cs[t]).interface, cs[t].chain)
}

/// The rules that match at least one of the chains, in declaration order.
pub open spec fn matching_rules(
    g: CompositionGraphV,
    cs: Seq<ChainV>,
    rules: Seq<SpliceRuleV>,
) -> Seq<SpliceRuleV> {
    rules.filter(|r: SpliceRuleV| matches_some(g, cs, r))
}

/// A chain whose interface and instances occur among the built chains.
pub open spec fn chain_sig_in(cs0: Seq<ChainV>, c: ChainV) -> bool {
    exists|t: int|
        0 <= t < cs0.len() && (#[trigger] cs0[t]).interface == c.interface && cs0[t].chain
            == c.chain
}

/// Folding one more rule at the end applies it to the fold's result.
proof fn lemma_append_rule(
    g: CompositionGraphV,
    xs: Seq<SpliceRuleV>,
    r: SpliceRuleV,
    c: ChainV,
    i: int,
)
    requires
        0 <= i <= xs.len(),
    ensures
        apply_chain_rules(g, xs.push(r), c, i) == (match apply_chain_rules(g, xs, c, i) {
            Ok(c2) => apply_rule(g, r, c2),
            Err(e) => Err(e),
        }),
    decreases xs.len() - i,
{
    if i < xs.len() {
        assert(xs.push(r)[i] == xs[i]);
        match apply_rule(g, xs[i], c) {
            Ok(c2) => {
                lemma_append_rule(g, xs, r, c2, i + 1);
            },
            Err(_) => {},
        }
    } else {
        assert(xs.push(r)[i] == r);
        match apply_rule(g, r, c) {
            Ok(c2) => {
                assert(apply_chain_rules(g, xs.push(r), c2, i + 1)
                    == Ok::<ChainV, crate::engine::RuleConflictV>(c2));
            },
            Err(_) => {},
        }
    }
}

/// The whole rule fold never changes a chain's instances or interface.
proof fn lemma_fold_keeps_sig(g: CompositionGraphV, rs: Seq<SpliceRuleV>, c: ChainV, i: int)
    requires
        0 <= i,
        apply_chain_rules(g, rs, c, i) is Ok,
    ensures
        apply_chain_rules(g, rs, c, i)->Ok_0.chain == c.chain,
        apply_chain_rules(g, rs, c, i)->Ok_0.interface == c.interface,
    decreases rs.len() - i,
{
    if i < rs.len() {
        match apply_rule(g, rs[i], c) {
            Ok(c2) => {
                lemma_rule_keeps_sig(g, rs[i], c);
                lemma_fold_keeps_sig(g, rs, c2, i + 1);
            },
            Err(_) => {},
        }
    }
}

/// On a chain drawn from the built chains, folding all rules equals
/// folding only the rules that match somewhere.
proof fn lemma_chain_rules_keep_matching(
    g: CompositionGraphV,
    cs0: Seq<ChainV>,
    rules: Seq<SpliceRuleV>,
    c: ChainV,
)
    requires
        chain_sig_in(cs0, c),
    ensures
        apply_chain_rules(g, rules, c, 0) == apply_chain_rules(
            g,
            matching_rules(g, cs0, rules),
            c,
            0,
        ),
    decreases rules.len(),
{
    reveal(Seq::filter);
    if rules.len() == 0 {
    } else {
        let rest = rules.drop_last();
        let r = rules.last();
        assert(rules =~= rest.push(r));
        lemma_append_rule(g, rest, r, c, 0);
        lemma_chain_rules_keep_matching(g, cs0, rest, c);
        let kept = matches_some(g, cs0, r);
        if kept {
            assert(matching_rules(g, cs0, rules) == matching_rules(g, cs0, rest).push(r));
            lemma_append_rule(g, matching_rules(g, cs0, rest), r, c, 0);
        } else {
            assert(matching_rules(g, cs0, rules) == matching_rules(g, cs0, rest));
            match apply_chain_rules(g, rest, c, 0) {
                Ok(c2) => {
                    lemma_fold_keeps_sig(g, rest, c, 0);
                    let t = choose|t: int|
                        0 <= t < cs0.len() && (#[trigger] cs0[t]).interface == c.interface
                            && cs0[t].chain == c.chain;
                    assert(!rule_matches(g, r, cs0[t].interface, cs0[t].chain));
                    lemma_rule_nomatch(g, r, c2);
                },
                Err(_) => {},
            }
        }
    }
}

/// Over chains drawn from the built chains, the engine treats the rule
/// list and its matching sublist alike.
proof fn lemma_rules_filter_chains(
    g: CompositionGraphV,
    cs0: Seq<ChainV>,
    rules: Seq<SpliceRuleV>,
    cs: Seq<ChainV>,
    j: int,
)
    requires
        0 <= j,
        forall|t: int| j <= t < cs.len() ==> chain_sig_in(cs0, #[trigger] cs[t]),
    ensures
        apply_rules_from(g, rules, cs, j) == apply_rules_from(
            g,
            matching_rules(g, cs0, rules),
            cs,
            j,
        ),
    decreases cs.len() - j,
{
    if j < cs.len() {
        lemma_chain_rules_keep_matching(g, cs0, rules, cs[j]);
        match apply_chain_rules(g, rules, cs[j], 0) {
            Ok(c2) => {
                assert forall|t: int| j + 1 <= t < cs.update(j, c2).len() implies chain_sig_in(
                    cs0,
                    #[trigger] cs.update(j, c2)[t],
                ) by {
                    assert(cs.update(j, c2)[t] == cs[t]);
                }
                lemma_rules_filter_chains(g, cs0, rules, cs.update(j, c2), j + 1);
            },
            Err(_) => {},
        }
    }
}

/// Removing every rule that matches nothing on any chain — keeping, in
/// declaration order, exactly the rules that match somewhere — leaves the
/// whole plan, script and compose arguments, unchanged.
pub proof fn lemma_noop_rules_removed(
    shims: Seq<usize>,
    splits: Seq<char>,
    g: CompositionGraphV,
    rules: Seq<SpliceRuleV>,
)
    ensures
        plan_spec(
            shims,
            splits,
            g,
            matching_rules(g, build_chains_spec(g)->Ok_0, rules),
        ) == plan_spec(shims, splits, g, rules),
{
    match validate_scan(g) {
        Some(_) => {},
        None => {
            match build_chains_spec(g) {
                Err(_) => {},
                Ok(cs0) => {
                    assert forall|t: int| 0 <= t < cs0.len() implies chain_sig_in(
                        cs0,
                        #[trigger] cs0[t],
                    ) by {
                        assert(0 <= t < cs0.len() && cs0[t].interface == cs0[t].interface
                            && cs0[t].chain == cs0[t].chain);
                    }
                    lemma_rules_filter_chains(g, cs0, rules, cs0, 0);
                },
            }
        },
    }
}

} // verus!
