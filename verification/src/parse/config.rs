//! The rule model: the source form of a splice configuration and its
//! normalization into [`SpliceRule`] values.

use vstd::prelude::*;
use crate::seqs::views;
use crate::text::{clone_opt_string, opt_str_view};
use vstd::pervasive::unreached;

verus! {

broadcast use crate::seqs::group_views;

/// Mathematical view of an [`Injection`].
#[verifier::ext_equal]
pub ghost struct InjectionV {
    pub name: Seq<char>,
    pub path: Option<Seq<char>>,
}

/// A middleware to insert: its package name and, optionally, the on-disk
/// location of its component binary.
pub struct Injection {
    pub name: String,
    pub path: Option<String>,
}

impl View for Injection {
    type V = InjectionV;

    open spec fn view(&self) -> InjectionV {
        InjectionV { name: self.name@, path: opt_str_view(self.path) }
    }
}

/// Mathematical view of a [`SpliceRule`].
#[verifier::ext_equal]
pub ghost enum SpliceRuleV {
    Before {
        interface: Seq<char>,
        provider_name: Option<Seq<char>>,
        provider_alias: Option<Seq<char>>,
        inject: Seq<InjectionV>,
    },
    Between {
        interface: Seq<char>,
        inner_name: Seq<char>,
        inner_alias: Option<Seq<char>>,
        outer_name: Seq<char>,
        outer_alias: Option<Seq<char>>,
        inject: Seq<InjectionV>,
    },
}

/// A normalized splice rule.
///
/// `Before` matches every provider of `interface` (optionally filtered by
/// name) and inserts the injections between the provider and whatever
/// consumed its interface. `Between` matches adjacent chain pairs by the
/// inner and outer instance names and inserts the injections between them.
pub enum SpliceRule {
    Before {
        interface: String,
        provider_name: Option<String>,
        provider_alias: Option<String>,
        inject: Vec<Injection>,
    },
    Between {
        interface: String,
        inner_name: String,
        inner_alias: Option<String>,
        outer_name: String,
        outer_alias: Option<String>,
        inject: Vec<Injection>,
    },
}

impl View for SpliceRule {
    type V = SpliceRuleV;

    open spec fn view(&self) -> SpliceRuleV {
        match self {
            SpliceRule::Before { interface, provider_name, provider_alias, inject } => {
                SpliceRuleV::Before {
                    interface: interface@,
                    provider_name: opt_str_view(*provider_name),
                    provider_alias: opt_str_view(*provider_alias),
                    inject: views(inject@),
                }
            },
            SpliceRule::Between {
                interface,
                inner_name,
                inner_alias,
                outer_name,
                outer_alias,
                inject,
            } => {
                SpliceRuleV::Between {
                    interface: interface@,
                    inner_name: inner_name@,
                    inner_alias: opt_str_view(*inner_alias),
                    outer_name: outer_name@,
                    outer_alias: opt_str_view(*outer_alias),
                    inject: views(inject@),
                }
            },
        }
    }
}

/// Mathematical view of a [`YamlProviderReq`].
#[verifier::ext_equal]
pub ghost struct YamlProviderReqV {
    pub name: Seq<char>,
    pub alias: Option<Seq<char>>,
}

/// A provider requirement that must name an instance, with an optional alias
/// for the matched provider in the emitted script.
pub struct YamlProviderReq {
    pub name: String,
    pub alias: Option<String>,
}

impl View for YamlProviderReq {
    type V = YamlProviderReqV;

    open spec fn view(&self) -> YamlProviderReqV {
        YamlProviderReqV { name: self.name@, alias: opt_str_view(self.alias) }
    }
}

/// Mathematical view of a [`YamlProviderOpt`].
#[verifier::ext_equal]
pub ghost struct YamlProviderOptV {
    pub name: Option<Seq<char>>,
    pub alias: Option<Seq<char>>,
}

/// An optional provider filter, with an optional alias.
pub struct YamlProviderOpt {
    pub name: Option<String>,
    pub alias: Option<String>,
}

impl View for YamlProviderOpt {
    type V = YamlProviderOptV;

    open spec fn view(&self) -> YamlProviderOptV {
        YamlProviderOptV { name: opt_str_view(self.name), alias: opt_str_view(self.alias) }
    }
}

/// Mathematical view of a [`YamlStrategyBefore`].
#[verifier::ext_equal]
pub ghost struct YamlStrategyBeforeV {
    pub interface: Seq<char>,
    pub provider: Option<YamlProviderOptV>,
}

/// The source form of a `before` strategy.
pub struct YamlStrategyBefore {
    pub interface: String,
    pub provider: Option<YamlProviderOpt>,
}

impl View for YamlStrategyBefore {
    type V = YamlStrategyBeforeV;

    open spec fn view(&self) -> YamlStrategyBeforeV {
        YamlStrategyBeforeV {
            interface: self.interface@,
            provider: match self.provider {
                Some(p) => Some(p@),
                None => None,
            },
        }
    }
}

/// Mathematical view of a [`YamlStrategyBetween`].
#[verifier::ext_equal]
pub ghost struct YamlStrategyBetweenV {
    pub inner: YamlProviderReqV,
    pub outer: YamlProviderReqV,
    pub interface: Seq<char>,
}

/// The source form of a `between` strategy.
pub struct YamlStrategyBetween {
    pub inner: YamlProviderReq,
    pub outer: YamlProviderReq,
    pub interface: String,
}

impl View for YamlStrategyBetween {
    type V = YamlStrategyBetweenV;

    open spec fn view(&self) -> YamlStrategyBetweenV {
        YamlStrategyBetweenV {
            inner: self.inner@,
            outer: self.outer@,
            interface: self.interface@,
        }
    }
}

/// Mathematical view of a [`YamlRule`].
#[verifier::ext_equal]
pub ghost struct YamlRuleV {
    pub before: Option<YamlStrategyBeforeV>,
    pub between: Option<YamlStrategyBetweenV>,
    pub inject: Seq<InjectionV>,
}

/// One rule of the source configuration: exactly one of `before` / `between`
/// is expected to be present.
pub struct YamlRule {
    pub before: Option<YamlStrategyBefore>,
    pub between: Option<YamlStrategyBetween>,
    pub inject: Vec<Injection>,
}

impl View for YamlRule {
    type V = YamlRuleV;

    open spec fn view(&self) -> YamlRuleV {
        YamlRuleV {
            before: match self.before {
                Some(b) => Some(b@),
                None => None,
            },
            between: match self.between {
                Some(b) => Some(b@),
                None => None,
            },
            inject: views(self.inject@),
        }
    }
}

/// Mathematical view of a [`ConfigFile`].
#[verifier::ext_equal]
pub ghost struct ConfigFileV {
    pub version: u32,
    pub rules: Seq<YamlRuleV>,
}

/// A parsed splice configuration.
pub struct ConfigFile {
    pub version: u32,
    pub rules: Vec<YamlRule>,
}

impl View for ConfigFile {
    type V = ConfigFileV;

    open spec fn view(&self) -> ConfigFileV {
        ConfigFileV { version: self.version, rules: views(self.rules@) }
    }
}

/// A source rule is well-shaped when it carries exactly one of the two
/// strategies.
pub open spec fn rule_shaped(r: YamlRuleV) -> bool {
    (r.before is Some) != (r.between is Some)
}

/// The normalized form of a well-shaped source rule.
pub open spec fn splice_rule_of(r: YamlRuleV) -> SpliceRuleV {
    match r.before {
        Some(b) => SpliceRuleV::Before {
            interface: b.interface,
            provider_name: match b.provider {
                Some(p) => p.name,
                None => None,
            },
            provider_alias: match b.provider {
                Some(p) => p.alias,
                None => None,
            },
            inject: r.inject,
        },
        None => match r.between {
            Some(b) => SpliceRuleV::Between {
                interface: b.interface,
                inner_name: b.inner.name,
                inner_alias: b.inner.alias,
                outer_name: b.outer.name,
                outer_alias: b.outer.alias,
                inject: r.inject,
            },
            None => SpliceRuleV::Before {
                interface: Seq::empty(),
                provider_name: None,
                provider_alias: None,
                inject: Seq::empty(),
            },
        },
    }
}

/// The normalized rules of a source rule list, in order.
pub open spec fn normalize_rules(ys: Seq<YamlRuleV>) -> Seq<SpliceRuleV> {
    Seq::new(ys.len(), |i: int| splice_rule_of(ys[i]))
}

/// A copy of an injection with the same name and path.
pub fn clone_injection(inj: &Injection) -> (r: Injection)
    ensures
        r@ == inj@,
{
    Injection { name: inj.name.clone(), path: clone_opt_string(&inj.path) }
}

/// A copy of an injection list with the same views.
pub fn clone_injections(inject: &Vec<Injection>) -> (r: Vec<Injection>)
    ensures
        views(r@) == views(inject@),
{
    let mut out: Vec<Injection> = Vec::new();
    let mut i: usize = 0;
    while i < inject.len()
        invariant
            i <= inject.len(),
            views(out@) == views(inject@).take(i as int),
        decreases inject.len() - i,
    {
        let x = clone_injection(&inject[i]);
        out.push(x);
        proof {
            assert(views(out@) =~= views(inject@).take(i + 1));
        }
        i = i + 1;
    }
    proof {
        assert(views(inject@).take(inject@.len() as int) =~= views(inject@));
    }
    out
}

impl ConfigFile {
    /// Normalizes the source rules, in order, into [`SpliceRule`] values.
    pub fn to_splice_rules(&self) -> (r: Vec<SpliceRule>)
        requires
            forall|i: int| 0 <= i < self@.rules.len() ==> rule_shaped(#[trigger] self@.rules[i]),
        ensures
            views(r@) == normalize_rules(self@.rules),
    {
        let mut out: Vec<SpliceRule> = Vec::new();
        let mut i: usize = 0;
        while i < self.rules.len()
            invariant
                i <= self.rules.len(),
                forall|k: int|
                    0 <= k < self@.rules.len() ==> rule_shaped(#[trigger] self@.rules[k]),
                views(out@) == normalize_rules(self@.rules).take(i as int),
            decreases self.rules.len() - i,
        {
            let yr = &self.rules[i];
            let rule = if let Some(before) = &yr.before {
                SpliceRule::Before {
                    interface: before.interface.clone(),
                    provider_name: match &before.provider {
                        Some(p) => clone_opt_string(&p.name),
                        None => None,
                    },
                    provider_alias: match &before.provider {
                        Some(p) => clone_opt_string(&p.alias),
                        None => None,
                    },
                    inject: clone_injections(&yr.inject),
                }
            } else if let Some(between) = &yr.between {
                SpliceRule::Between {
                    interface: between.interface.clone(),
                    inner_name: between.inner.name.clone(),
                    inner_alias: clone_opt_string(&between.inner.alias),
                    outer_name: between.outer.name.clone(),
                    outer_alias: clone_opt_string(&between.outer.alias),
                    inject: clone_injections(&yr.inject),
                }
            } else {
                proof {
                    assert(rule_shaped(self@.rules[i as int]));
                    assert(false);
                }
                unreached()
            };
            proof {
                assert(self@.rules[i as int] == self.rules@[i as int]@);
                assert(rule@ == splice_rule_of(self@.rules[i as int]));
            }
            out.push(rule);
            proof {
                assert(views(out@) =~= normalize_rules(self@.rules).take(i + 1));
            }
            i = i + 1;
        }
        proof {
            assert(normalize_rules(self@.rules).take(self@.rules.len() as int) =~= normalize_rules(
                self@.rules,
            ));
        }
        out
    }
}

} // verus!
