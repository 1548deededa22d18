//! The rule engine: folds the splice rules, in declaration order, over the
//! chains, populating each chain's inject plan and alias bindings.

use vstd::prelude::*;
use crate::seqs::views;
use crate::chains::{AliasBinding, AliasBindingV, Chain, ChainV, PlanEntry, PlanEntryV};
use crate::model::{has_node, node_name, CompositionGraph, CompositionGraphV};
use crate::parse::config::{Injection, InjectionV, SpliceRule, SpliceRuleV};
use crate::text::{opt_str_view, opt_string_eq, str_eq};
use vstd::pervasive::unreached;

verus! {

broadcast use crate::seqs::group_views;

/// Mathematical view of a [`RuleConflict`].
#[verifier::ext_equal]
pub ghost struct RuleConflictV {
    pub instance: u32,
    pub existing: Seq<char>,
    pub requested: Seq<char>,
}

/// Two rules asked to alias the same instance under different names.
pub struct RuleConflict {
    pub instance: u32,
    pub existing: String,
    pub requested: String,
}

impl View for RuleConflict {
    type V = RuleConflictV;

    open spec fn view(&self) -> RuleConflictV {
        RuleConflictV {
            instance: self.instance,
            existing: self.existing@,
            requested: self.requested@,
        }
    }
}

/// The first position carrying instance `id` in the alias list, from `i` on;
/// the length if none does.
pub open spec fn alias_pos_from(aliases: Seq<AliasBindingV>, id: u32, i: int) -> int
    decreases aliases.len() - i,
{
    if i < 0 || i >= aliases.len() {
        aliases.len() as int
    } else if aliases[i].instance == id {
        i
    } else {
        alias_pos_from(aliases, id, i + 1)
    }
}

/// The alias registered for instance `id`: `None` when the instance was
/// never matched, `Some(a)` for its registered binding.
pub open spec fn alias_lookup(aliases: Seq<AliasBindingV>, id: u32) -> Option<Option<Seq<char>>> {
    let p = alias_pos_from(aliases, id, 0);
    if p < aliases.len() {
        Some(aliases[p].alias)
    } else {
        None
    }
}

/// Registers (or overwrites) the binding of instance `id`.
pub open spec fn alias_set(
    aliases: Seq<AliasBindingV>,
    id: u32,
    a: Option<Seq<char>>,
) -> Seq<AliasBindingV> {
    let p = alias_pos_from(aliases, id, 0);
    if p < aliases.len() {
        aliases.update(p, AliasBindingV { instance: id, alias: a })
    } else {
        aliases.push(AliasBindingV { instance: id, alias: a })
    }
}

/// The first position carrying chain position `k` in the plan, from `i` on;
/// the length if none does.
pub open spec fn plan_pos_from(plan: Seq<PlanEntryV>, k: usize, i: int) -> int
    decreases plan.len() - i,
{
    if i < 0 || i >= plan.len() {
        plan.len() as int
    } else if plan[i].position == k {
        i
    } else {
        plan_pos_from(plan, k, i + 1)
    }
}

/// The middlewares planned in front of chain position `k`, if any.
pub open spec fn plan_lookup(plan: Seq<PlanEntryV>, k: usize) -> Option<Seq<InjectionV>> {
    let p = plan_pos_from(plan, k, 0);
    if p < plan.len() {
        Some(plan[p].mdls)
    } else {
        None
    }
}

/// Stores the middleware set of chain position `k`.
pub open spec fn plan_set(plan: Seq<PlanEntryV>, k: usize, mdls: Seq<InjectionV>) -> Seq<
    PlanEntryV,
> {
    let p = plan_pos_from(plan, k, 0);
    if p < plan.len() {
        plan.update(p, PlanEntryV { position: k, mdls })
    } else {
        plan.push(PlanEntryV { position: k, mdls })
    }
}

/// Extends the insertion-ordered set `s` with `xs[i..]`, suppressing
/// duplicates of the full injection record.
pub open spec fn inj_set_extend(s: Seq<InjectionV>, xs: Seq<InjectionV>, i: int) -> Seq<
    InjectionV,
>
    decreases xs.len() - i,
{
    if i < 0 || i >= xs.len() {
        s
    } else {
        inj_set_extend(
            if s.contains(xs[i]) {
                s
            } else {
                s.push(xs[i])
            },
            xs,
            i + 1,
        )
    }
}

/// Registers the alias entries in order, each overwriting the previous
/// binding of its instance; a non-null alias that differs from a non-null
/// registered one is a conflict.
pub open spec fn register_aliases(
    aliases: Seq<AliasBindingV>,
    entries: Seq<AliasBindingV>,
    i: int,
) -> Result<Seq<AliasBindingV>, RuleConflictV>
    decreases entries.len() - i,
{
    if i < 0 || i >= entries.len() {
        Ok(aliases)
    } else {
        let e = entries[i];
        let conflict = match (e.alias, alias_lookup(aliases, e.instance)) {
            (Some(na), Some(Some(ca))) => na != ca,
            _ => false,
        };
        if conflict {
            Err(
                RuleConflictV {
                    instance: e.instance,
                    existing: alias_lookup(aliases, e.instance)->Some_0->Some_0,
                    requested: e.alias->Some_0,
                },
            )
        } else {
            register_aliases(alias_set(aliases, e.instance, e.alias), entries, i + 1)
        }
    }
}

/// One rule match applied to a chain: the injections are merged into the
/// plan at position `k` (first write seeds the set, later writes extend it),
/// and the alias entries are registered.
pub open spec fn add_to_plan(
    c: ChainV,
    entries: Seq<AliasBindingV>,
    inject: Seq<InjectionV>,
    k: usize,
) -> Result<ChainV, RuleConflictV> {
    let seeded = match plan_lookup(c.inject_plan, k) {
        Some(s) => s,
        None => Seq::empty(),
    };
    let merged = inj_set_extend(seeded, inject, 0);
    match register_aliases(c.aliases, entries, 0) {
        Err(e) => Err(e),
        Ok(al) => Ok(
            ChainV {
                interface: c.interface,
                chain: c.chain,
                aliases: al,
                inject_plan: plan_set(c.inject_plan, k, merged),
            },
        ),
    }
}

/// A `Between` rule applied to the sliding pairs of a chain from pair `i`
/// on: a pair whose inner and outer display names match has the injections
/// merged in front of its outer element.
pub open spec fn apply_between_from(
    g: CompositionGraphV,
    r: SpliceRuleV,
    c: ChainV,
    i: int,
) -> Result<ChainV, RuleConflictV>
    decreases c.chain.len() - i,
{
    if i < 0 || i + 1 >= c.chain.len() {
        Ok(c)
    } else {
        match r {
            SpliceRuleV::Between {
                interface,
                inner_name,
                inner_alias,
                outer_name,
                outer_alias,
                inject,
            } => {
                let hit = interface == c.interface && node_name(g.nodes, c.chain[i])
                    == inner_name && node_name(g.nodes, c.chain[i + 1]) == outer_name;
                let step = if hit {
                    add_to_plan(
                        c,
                        seq![
                            AliasBindingV { instance: c.chain[i], alias: inner_alias },
                            AliasBindingV { instance: c.chain[i + 1], alias: outer_alias },
                        ],
                        inject,
                        (i + 1) as usize,
                    )
                } else {
                    Ok(c)
                };
                match step {
                    Err(e) => Err(e),
                    Ok(c2) => apply_between_from(g, r, c2, i + 1),
                }
            },
            _ => Ok(c),
        }
    }
}

/// A `Before` rule applied to the positions of a chain from `i` on: every
/// position matches when no provider name is given, otherwise the positions
/// whose display name equals it; the injections go in front of the position
/// that consumes the provider's interface.
pub open spec fn apply_before_from(
    g: CompositionGraphV,
    r: SpliceRuleV,
    c: ChainV,
    i: int,
) -> Result<ChainV, RuleConflictV>
    decreases c.chain.len() - i,
{
    if i < 0 || i >= c.chain.len() {
        Ok(c)
    } else {
        match r {
            SpliceRuleV::Before { interface, provider_name, provider_alias, inject } => {
                let hit = interface == c.interface && (match provider_name {
                    None => true,
                    Some(p) => node_name(g.nodes, c.chain[i]) == p,
                });
                let step = if hit {
                    add_to_plan(
                        c,
                        seq![AliasBindingV { instance: c.chain[i], alias: provider_alias }],
                        inject,
                        (i + 1) as usize,
                    )
                } else {
                    Ok(c)
                };
                match step {
                    Err(e) => Err(e),
                    Ok(c2) => apply_before_from(g, r, c2, i + 1),
                }
            },
            _ => Ok(c),
        }
    }
}

/// One rule applied to one chain, `Between` pairs first, then `Before`
/// positions, as the planner does for each rule.
pub open spec fn apply_rule(g: CompositionGraphV, r: SpliceRuleV, c: ChainV) -> Result<
    ChainV,
    RuleConflictV,
> {
    match apply_between_from(g, r, c, 0) {
        Err(e) => Err(e),
        Ok(c2) => apply_before_from(g, r, c2, 0),
    }
}

/// The rules from `i` on applied to one chain, in declaration order.
pub open spec fn apply_chain_rules(
    g: CompositionGraphV,
    rs: Seq<SpliceRuleV>,
    c: ChainV,
    i: int,
) -> Result<ChainV, RuleConflictV>
    decreases rs.len() - i,
{
    if i < 0 || i >= rs.len() {
        Ok(c)
    } else {
        match apply_rule(g, rs[i], c) {
            Err(e) => Err(e),
            Ok(c2) => apply_chain_rules(g, rs, c2, i + 1),
        }
    }
}

/// All rules applied to the chains from position `j` on.
pub open spec fn apply_rules_from(
    g: CompositionGraphV,
    rs: Seq<SpliceRuleV>,
    cs: Seq<ChainV>,
    j: int,
) -> Result<Seq<ChainV>, RuleConflictV>
    decreases cs.len() - j,
{
    if j < 0 || j >= cs.len() {
        Ok(cs)
    } else {
        match apply_chain_rules(g, rs, cs[j], 0) {
            Err(e) => Err(e),
            Ok(c2) => apply_rules_from(g, rs, cs.update(j, c2), j + 1),
        }
    }
}

/// All rules applied to all chains.
pub open spec fn apply_rules_spec(
    g: CompositionGraphV,
    rs: Seq<SpliceRuleV>,
    cs: Seq<ChainV>,
) -> Result<Seq<ChainV>, RuleConflictV> {
    apply_rules_from(g, rs, cs, 0)
}

/// The display name of instance `id`, which must exist.
pub fn node_display<'a>(g: &'a CompositionGraph, id: u32) -> (r: &'a str)
    requires
        has_node(g@.nodes, id),
    ensures
        r@ == node_name(g@.nodes, id),
{
    match g.get_node(id) {
        Some(n) => n.display_label(),
        None => {
            proof {
                assert(false);
            }
            unreached()
        },
    }
}

/// Equality of two injections, by name and path.
pub fn injection_eq(a: &Injection, b: &Injection) -> (r: bool)
    ensures
        r == (a@ == b@),
{
    let names = str_eq(a.name.as_str(), b.name.as_str());
    let paths = opt_string_eq(&a.path, &b.path);
    proof {
        if a@.name == b@.name && a@.path == b@.path {
            assert(a@ =~= b@);
        }
    }
    names && paths
}

/// Whether an injection equal to `x` occurs in `v`.
fn contains_injection(v: &Vec<Injection>, x: &Injection) -> (r: bool)
    ensures
        r == views(v@).contains(x@),
{
    let mut i: usize = 0;
    while i < v.len()
        invariant
            i <= v.len(),
            forall|k: int| 0 <= k < i ==> views(v@)[k] != x@,
        decreases v.len() - i,
    {
        if injection_eq(&v[i], x) {
            assert(views(v@)[i as int] == x@);
            return true;
        }
        i = i + 1;
    }
    false
}

/// The first position carrying instance `id` in the alias list.
pub fn alias_pos(aliases: &Vec<AliasBinding>, id: u32) -> (r: usize)
    ensures
        r as int == alias_pos_from(views(aliases@), id, 0),
        r <= aliases.len(),
        r < aliases.len() ==> views(aliases@)[r as int].instance == id,
{
    let mut i: usize = 0;
    while i < aliases.len()
        invariant
            i <= aliases.len(),
            alias_pos_from(views(aliases@), id, 0) == alias_pos_from(
                views(aliases@),
                id,
                i as int,
            ),
        decreases aliases.len() - i,
    {
        if aliases[i].instance == id {
            return i;
        }
        i = i + 1;
    }
    aliases.len()
}

/// The first position carrying chain position `k` in the plan.
pub fn plan_pos(plan: &Vec<PlanEntry>, k: usize) -> (r: usize)
    ensures
        r as int == plan_pos_from(views(plan@), k, 0),
        r <= plan.len(),
        r < plan.len() ==> views(plan@)[r as int].position == k,
{
    let mut i: usize = 0;
    while i < plan.len()
        invariant
            i <= plan.len(),
            plan_pos_from(views(plan@), k, 0) == plan_pos_from(views(plan@), k, i as int),
        decreases plan.len() - i,
    {
        if plan[i].position == k {
            return i;
        }
        i = i + 1;
    }
    plan.len()
}

/// Extends `set` with the injections of `xs` that it does not yet hold,
/// in their order.
fn extend_injection_set(set: &mut Vec<Injection>, xs: &Vec<Injection>)
    ensures
        views(final(set)@) == inj_set_extend(views(old(set)@), views(xs@), 0),
{
    let ghost goal = inj_set_extend(views(set@), views(xs@), 0);
    let mut i: usize = 0;
    while i < xs.len()
        invariant
            i <= xs.len(),
            goal == inj_set_extend(views(set@), views(xs@), i as int),
            goal == inj_set_extend(views(old(set)@), views(xs@), 0),
        decreases xs.len() - i,
    {
        if !contains_injection(set, &xs[i]) {
            set.push(crate::parse::config::clone_injection(&xs[i]));
        }
        i = i + 1;
    }
}

/// A copy of an alias binding.
fn clone_alias(e: &AliasBinding) -> (r: AliasBinding)
    ensures
        r@ == e@,
{
    AliasBinding { instance: e.instance, alias: crate::text::clone_opt_string(&e.alias) }
}

/// Registers the alias entries on the chain, in order; a non-null alias that
/// differs from a registered non-null one is a conflict.
fn register_aliases_exec(aliases: &mut Vec<AliasBinding>, entries: &Vec<AliasBinding>) -> (r:
    Result<(), RuleConflict>)
    ensures
        match r {
            Ok(()) => register_aliases(views(old(aliases)@), views(entries@), 0) == Ok::<
                Seq<AliasBindingV>,
                RuleConflictV,
            >(views(final(aliases)@)),
            Err(e) => register_aliases(views(old(aliases)@), views(entries@), 0) == Err::<
                Seq<AliasBindingV>,
                RuleConflictV,
            >(e@),
        },
{
    let ghost goal = register_aliases(views(aliases@), views(entries@), 0);
    let mut i: usize = 0;
    while i < entries.len()
        invariant
            i <= entries.len(),
            goal == register_aliases(views(aliases@), views(entries@), i as int),
            goal == register_aliases(views(old(aliases)@), views(entries@), 0),
        decreases entries.len() - i,
    {
        let e = &entries[i];
        let ghost pre = views(aliases@);
        let p = alias_pos(aliases, e.instance);
        if p < aliases.len() {
            let conflict = match (&e.alias, &aliases[p].alias) {
                (Some(na), Some(ca)) => !str_eq(na.as_str(), ca.as_str()),
                _ => false,
            };
            if conflict {
                let existing = match &aliases[p].alias {
                    Some(ca) => ca.clone(),
                    None => {
                        proof {
                            assert(false);
                        }
                        unreached()
                    },
                };
                let requested = match &e.alias {
                    Some(na) => na.clone(),
                    None => {
                        proof {
                            assert(false);
                        }
                        unreached()
                    },
                };
                return Err(RuleConflict { instance: e.instance, existing, requested });
            }
            let slot = vstd::std_specs::vec::vec_index_mut(aliases, p);
            *slot = clone_alias(e);
            proof {
                assert(views(aliases@) =~= alias_set(pre, e@.instance, e@.alias));
            }
        } else {
            aliases.push(clone_alias(e));
            proof {
                assert(views(aliases@) =~= alias_set(pre, e@.instance, e@.alias));
            }
        }
        i = i + 1;
    }
    Ok(())
}

/// One rule match applied to the chain: merges the injections into the plan
/// at position `k` and registers the alias entries.
fn add_to_inject_plan(
    chain: &mut Chain,
    entries: &Vec<AliasBinding>,
    inject: &Vec<Injection>,
    k: usize,
) -> (r: Result<(), RuleConflict>)
    ensures
        match r {
            Ok(()) => add_to_plan(old(chain)@, views(entries@), views(inject@), k) == Ok::<
                ChainV,
                RuleConflictV,
            >(final(chain)@) && final(chain)@.chain == old(chain)@.chain
                && final(chain)@.interface == old(chain)@.interface,
            Err(e) => add_to_plan(old(chain)@, views(entries@), views(inject@), k) == Err::<
                ChainV,
                RuleConflictV,
            >(e@),
        },
{
    let p = plan_pos(&chain.inject_plan, k);
    let mut merged: Vec<Injection> = if p < chain.inject_plan.len() {
        crate::parse::config::clone_injections(&chain.inject_plan[p].mdls)
    } else {
        Vec::new()
    };
    proof {
        if p < chain.inject_plan.len() {
            assert(views(merged@) == plan_lookup(old(chain)@.inject_plan, k)->Some_0);
        } else {
            assert(plan_lookup(old(chain)@.inject_plan, k) is None);
            assert(views(merged@) =~= Seq::<InjectionV>::empty());
        }
    }
    extend_injection_set(&mut merged, inject);
    match register_aliases_exec(&mut chain.aliases, entries) {
        Err(e) => {
            return Err(e);
        },
        Ok(()) => {},
    }
    let ghost mergedv = views(merged@);
    if p < chain.inject_plan.len() {
        let slot = vstd::std_specs::vec::vec_index_mut(&mut chain.inject_plan, p);
        *slot = PlanEntry { position: k, mdls: merged };
        proof {
            assert(views(chain.inject_plan@) =~= plan_set(
                old(chain)@.inject_plan,
                k,
                mergedv,
            ));
            assert(chain@ =~= add_to_plan(old(chain)@, views(entries@), views(inject@), k)->Ok_0);
        }
    } else {
        chain.inject_plan.push(PlanEntry { position: k, mdls: merged });
        proof {
            assert(views(chain.inject_plan@) =~= plan_set(
                old(chain)@.inject_plan,
                k,
                mergedv,
            ));
            assert(chain@ =~= add_to_plan(old(chain)@, views(entries@), views(inject@), k)->Ok_0);
        }
    }
    Ok(())
}

/// Applies a `Between` rule to the sliding pairs of one chain; rules of the
/// other shape leave the chain untouched.
#[verifier::loop_isolation(false)]
pub fn apply_rule_between(g: &CompositionGraph, rule: &SpliceRule, chain: &mut Chain) -> (r:
    Result<(), RuleConflict>)
    requires
        crate::chains::chain_ids_ok(g@, old(chain)@),
    ensures
        match r {
            Ok(()) => apply_between_from(g@, rule@, old(chain)@, 0) == Ok::<
                ChainV,
                RuleConflictV,
            >(final(chain)@) && final(chain)@.chain == old(chain)@.chain
                && final(chain)@.interface == old(chain)@.interface,
            Err(e) => apply_between_from(g@, rule@, old(chain)@, 0) == Err::<
                ChainV,
                RuleConflictV,
            >(e@),
        },
{
    match rule {
        SpliceRule::Between {
            interface,
            inner_name,
            inner_alias,
            outer_name,
            outer_alias,
            inject,
        } => {
            let mut i: usize = 0;
            while i + 1 < chain.chain.len()
                invariant
                    i == 0 || i + 1 <= chain.chain.len(),
                    apply_between_from(g@, rule@, old(chain)@, 0) == apply_between_from(
                        g@,
                        rule@,
                        chain@,
                        i as int,
                    ),
                    chain@.chain == old(chain)@.chain,
                    chain@.interface == old(chain)@.interface,
                decreases chain.chain.len() - i,
            {
                let inner_id = chain.chain[i];
                let outer_id = chain.chain[i + 1];
                let hit = str_eq(interface.as_str(), chain.interface.as_str()) && str_eq(
                    node_display(g, inner_id),
                    inner_name.as_str(),
                ) && str_eq(node_display(g, outer_id), outer_name.as_str());
                if hit {
                    let mut entries: Vec<AliasBinding> = Vec::new();
                    entries.push(
                        AliasBinding {
                            instance: inner_id,
                            alias: crate::text::clone_opt_string(inner_alias),
                        },
                    );
                    entries.push(
                        AliasBinding {
                            instance: outer_id,
                            alias: crate::text::clone_opt_string(outer_alias),
                        },
                    );
                    proof {
                        assert(views(entries@) =~= seq![
                            AliasBindingV {
                                instance: inner_id,
                                alias: opt_str_view(*inner_alias),
                            },
                            AliasBindingV {
                                instance: outer_id,
                                alias: opt_str_view(*outer_alias),
                            },
                        ]);
                    }
                    let ghost cpre = chain@;
                    match add_to_inject_plan(chain, &entries, inject, i + 1) {
                        Ok(()) => {
                            proof {
                                assert(apply_between_from(g@, rule@, cpre, i as int)
                                    == apply_between_from(g@, rule@, chain@, i as int + 1));
                            }
                        },
                        Err(e) => {
                            return Err(e);
                        },
                    }
                } else {
                    proof {
                        assert(apply_between_from(g@, rule@, chain@, i as int)
                            == apply_between_from(g@, rule@, chain@, i as int + 1));
                    }
                }
                i = i + 1;
            }
        },
        _ => {},
    }
    Ok(())
}

/// Applies a `Before` rule to the positions of one chain; rules of the
/// other shape leave the chain untouched.
#[verifier::loop_isolation(false)]
pub fn apply_rule_before(g: &CompositionGraph, rule: &SpliceRule, chain: &mut Chain) -> (r:
    Result<(), RuleConflict>)
    requires
        crate::chains::chain_ids_ok(g@, old(chain)@),
    ensures
        match r {
            Ok(()) => apply_before_from(g@, rule@, old(chain)@, 0) == Ok::<
                ChainV,
                RuleConflictV,
            >(final(chain)@) && final(chain)@.chain == old(chain)@.chain
                && final(chain)@.interface == old(chain)@.interface,
            Err(e) => apply_before_from(g@, rule@, old(chain)@, 0) == Err::<
                ChainV,
                RuleConflictV,
            >(e@),
        },
{
    match rule {
        SpliceRule::Before { interface, provider_name, provider_alias, inject } => {
            let mut i: usize = 0;
            while i < chain.chain.len()
                invariant
                    i <= chain.chain.len(),
                    apply_before_from(g@, rule@, old(chain)@, 0) == apply_before_from(
                        g@,
                        rule@,
                        chain@,
                        i as int,
                    ),
                    chain@.chain == old(chain)@.chain,
                    chain@.interface == old(chain)@.interface,
                decreases chain.chain.len() - i,
            {
                let id = chain.chain[i];
                let iface_hit = str_eq(interface.as_str(), chain.interface.as_str());
                let prov_hit = match provider_name {
                    None => true,
                    Some(p) => str_eq(node_display(g, id), p.as_str()),
                };
                if iface_hit && prov_hit {
                    let mut entries: Vec<AliasBinding> = Vec::new();
                    entries.push(
                        AliasBinding {
                            instance: id,
                            alias: crate::text::clone_opt_string(provider_alias),
                        },
                    );
                    proof {
                        assert(views(entries@) =~= seq![
                            AliasBindingV { instance: id, alias: opt_str_view(*provider_alias) },
                        ]);
                    }
                    let ghost cpre = chain@;
                    match add_to_inject_plan(chain, &entries, inject, i + 1) {
                        Ok(()) => {
                            proof {
                                assert(apply_before_from(g@, rule@, cpre, i as int)
                                    == apply_before_from(g@, rule@, chain@, i as int + 1));
                            }
                        },
                        Err(e) => {
                            return Err(e);
                        },
                    }
                } else {
                    proof {
                        assert(apply_before_from(g@, rule@, chain@, i as int)
                            == apply_before_from(g@, rule@, chain@, i as int + 1));
                    }
                }
                i = i + 1;
            }
        },
        _ => {},
    }
    Ok(())
}

/// Applies every rule, in declaration order, to every chain. On success the
/// chains carry their final inject plans and alias bindings; a conflict
/// aborts the whole application.
#[verifier::loop_isolation(false)]
pub fn apply_rules(g: &CompositionGraph, rules: &[SpliceRule], chains: Vec<Chain>) -> (r: Result<
    Vec<Chain>,
    RuleConflict,
>)
    requires
        crate::chains::chains_ids_ok(g@, views(chains@)),
    ensures
        match r {
            Ok(cs) => apply_rules_spec(g@, views(rules@), views(chains@)) == Ok::<
                Seq<ChainV>,
                RuleConflictV,
            >(views(cs@)) && crate::chains::chains_ids_ok(g@, views(cs@)),
            Err(e) => apply_rules_spec(g@, views(rules@), views(chains@)) == Err::<
                Seq<ChainV>,
                RuleConflictV,
            >(e@),
        },
{
    let ghost input = views(chains@);
    let ghost rv = views(rules@);
    let ghost goal = apply_rules_from(g@, rv, input, 0);
    let mut work = chains;
    let mut out: Vec<Chain> = Vec::new();
    proof {
        assert(views(out@) + views(work@) =~= input);
    }
    while work.len() > 0
        invariant
            goal == apply_rules_from(g@, rv, views(out@) + views(work@), views(out@).len() as int),
            crate::chains::chains_ids_ok(g@, views(work@)),
            crate::chains::chains_ids_ok(g@, views(out@)),
        decreases work.len(),
    {
        let ghost j = views(out@).len() as int;
        let ghost full = views(out@) + views(work@);
        let mut c = work.remove(0);
        let ghost c0v = c@;
        proof {
            assert(full[j] == c0v);
            assert(views(work@) =~= full.skip(j + 1));
            assert(crate::chains::chain_ids_ok(g@, c@));
        }
        let mut t: usize = 0;
        while t < rules.len()
            invariant
                t <= rules.len(),
                apply_chain_rules(g@, rv, c0v, 0) == apply_chain_rules(g@, rv, c@, t as int),
                c@.chain == c0v.chain,
                c@.interface == c0v.interface,
            decreases rules.len() - t,
        {
            let rl = &rules[t];
            proof {
                assert(rv[t as int] == rl@);
                assert(crate::chains::chain_ids_ok(g@, c@));
            }
            let ghost cpre = c@;
            match apply_rule_between(g, rl, &mut c) {
                Ok(()) => {},
                Err(e) => {
                    proof {
                        assert(apply_rule(g@, rv[t as int], cpre) == Err::<
                            ChainV,
                            RuleConflictV,
                        >(e@));
                        assert(goal == Err::<Seq<ChainV>, RuleConflictV>(e@));
                    }
                    return Err(e);
                },
            }
            let ghost cmid = c@;
            match apply_rule_before(g, rl, &mut c) {
                Ok(()) => {},
                Err(e) => {
                    proof {
                        assert(apply_rule(g@, rv[t as int], cpre) == Err::<
                            ChainV,
                            RuleConflictV,
                        >(e@));
                        assert(goal == Err::<Seq<ChainV>, RuleConflictV>(e@));
                    }
                    return Err(e);
                },
            }
            proof {
                assert(apply_rule(g@, rv[t as int], cpre) == Ok::<ChainV, RuleConflictV>(c@));
            }
            t = t + 1;
        }
        let ghost cend = c@;
        proof {
            assert(apply_chain_rules(g@, rv, c0v, 0) == Ok::<ChainV, RuleConflictV>(cend));
        }
        out.push(c);
        proof {
            assert(views(out@) + views(work@) =~= full.update(j, cend));
            assert(crate::chains::chain_ids_ok(g@, cend));
        }
    }
    proof {
        assert(views(out@) + views(work@) =~= views(out@));
        assert(goal == Ok::<Seq<ChainV>, RuleConflictV>(views(out@)));
    }
    Ok(out)
}

} // verus!
