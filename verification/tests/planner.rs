//! End-to-end planner tests: the seed graphs ONE, SHORT and LONG under
//! every rule shape, checked against the exact scripts the planner must
//! emit.

use splicer::model::CompositionGraph;
use splicer::parse::config::{
    ConfigFile, Injection, SpliceRule, YamlProviderOpt, YamlProviderReq, YamlRule,
    YamlStrategyBefore, YamlStrategyBetween,
};
use splicer::parse::json::{
    JsonCompositionGraph, JsonExport, JsonInterfaceConnection, JsonNode,
};
use splicer::wac::generate_wac;

fn host(iface: &str, src: u32) -> JsonInterfaceConnection {
    JsonInterfaceConnection {
        interface: iface.to_string(),
        short: iface.to_string(),
        source_instance: src,
        is_host_import: true,
    }
}

fn wired(iface: &str, short: &str, src: u32) -> JsonInterfaceConnection {
    JsonInterfaceConnection {
        interface: iface.to_string(),
        short: short.to_string(),
        source_instance: src,
        is_host_import: false,
    }
}

const HANDLER: &str = "wasi:http/handler@0.3.0-rc-2026-01-06";

fn common_host_imports() -> Vec<JsonInterfaceConnection> {
    vec![
        host("wasi:http/types@0.3.0-rc-2026-01-06", 0),
        host("wasi:cli/environment@0.2.6", 1),
        host("wasi:cli/exit@0.2.6", 2),
        host("wasi:io/error@0.2.6", 3),
        host("wasi:io/streams@0.2.6", 4),
        host("wasi:cli/stdin@0.2.6", 5),
        host("wasi:cli/stdout@0.2.6", 6),
        host("wasi:cli/stderr@0.2.6", 7),
        host("wasi:clocks/wall-clock@0.2.6", 8),
        host("wasi:filesystem/types@0.2.6", 9),
        host("wasi:filesystem/preopens@0.2.6", 10),
    ]
}

/// A single service exporting the handler interface from host-only imports.
fn graph_one() -> CompositionGraph {
    CompositionGraph::from_json_model(JsonCompositionGraph {
        nodes: vec![JsonNode {
            id: 12,
            name: "srv-b".to_string(),
            component_index: 0,
            imports: vec![
                host("import-func-handle", 16),
                host("import-type-request", 37),
                host("import-type-response", 38),
                host("import-type-DNS-error-payload", 39),
                host("import-type-TLS-alert-received-payload", 40),
                host("import-type-field-size-payload", 41),
                host("import-type-error-code", 42),
                host("import-type-request0", 23),
                host("import-type-response0", 24),
                host("import-type-error-code0", 25),
            ],
        }],
        exports: vec![JsonExport { interface: HANDLER.to_string(), source_instance: 12 }],
    })
}

/// An outer `srv` forwarding the handler interface from `srv-b`.
fn graph_short() -> CompositionGraph {
    let mut srv_imports = vec![wired(HANDLER, "handler", 11)];
    srv_imports.extend(common_host_imports());
    CompositionGraph::from_json_model(JsonCompositionGraph {
        nodes: vec![
            JsonNode {
                id: 11,
                name: "srv-b".to_string(),
                component_index: 0,
                imports: common_host_imports(),
            },
            JsonNode {
                id: 13,
                name: "srv".to_string(),
                component_index: 1,
                imports: srv_imports,
            },
        ],
        exports: vec![JsonExport { interface: HANDLER.to_string(), source_instance: 13 }],
    })
}

/// A further `srv-c` inner under `srv-b`.
fn graph_long() -> CompositionGraph {
    let mut b_imports = vec![wired(HANDLER, "handler", 11)];
    b_imports.extend(common_host_imports());
    let mut srv_imports = vec![wired(HANDLER, "handler", 12)];
    srv_imports.extend(common_host_imports());
    CompositionGraph::from_json_model(JsonCompositionGraph {
        nodes: vec![
            JsonNode {
                id: 11,
                name: "srv-c".to_string(),
                component_index: 0,
                imports: common_host_imports(),
            },
            JsonNode {
                id: 12,
                name: "srv-b".to_string(),
                component_index: 1,
                imports: b_imports,
            },
            JsonNode {
                id: 13,
                name: "srv".to_string(),
                component_index: 2,
                imports: srv_imports,
            },
        ],
        exports: vec![JsonExport { interface: HANDLER.to_string(), source_instance: 13 }],
    })
}

fn inject(names: &[&str]) -> Vec<Injection> {
    names.iter().map(|n| Injection { name: n.to_string(), path: None }).collect()
}

fn before_rule(provider: Option<(&str, Option<&str>)>, mdls: &[&str]) -> YamlRule {
    YamlRule {
        before: Some(YamlStrategyBefore {
            interface: HANDLER.to_string(),
            provider: provider.map(|(name, alias)| YamlProviderOpt {
                name: Some(name.to_string()),
                alias: alias.map(|a| a.to_string()),
            }),
        }),
        between: None,
        inject: inject(mdls),
    }
}

fn between_rule(
    inner: (&str, Option<&str>),
    outer: (&str, Option<&str>),
    mdls: &[&str],
) -> YamlRule {
    YamlRule {
        before: None,
        between: Some(YamlStrategyBetween {
            interface: HANDLER.to_string(),
            inner: YamlProviderReq {
                name: inner.0.to_string(),
                alias: inner.1.map(|a| a.to_string()),
            },
            outer: YamlProviderReq {
                name: outer.0.to_string(),
                alias: outer.1.map(|a| a.to_string()),
            },
        }),
        inject: inject(mdls),
    }
}

fn rules_of(rules: Vec<YamlRule>) -> Vec<SpliceRule> {
    ConfigFile { version: 1, rules }.to_splice_rules()
}

fn plan(graph: &CompositionGraph, rules: &Vec<SpliceRule>) -> String {
    match generate_wac(vec![], "./splits", graph, rules) {
        Ok((wac, _args)) => wac,
        Err(_) => panic!("planning failed unexpectedly"),
    }
}

fn run_all(rules: Vec<SpliceRule>, exp_one: &str, exp_short: &str, exp_long: &str) {
    for (name, graph, exp) in [
        ("one", graph_one(), exp_one),
        ("short", graph_short(), exp_short),
        ("long", graph_long(), exp_long),
    ] {
        let wac = plan(&graph, &rules);
        assert_eq!(wac.trim(), exp.trim(), "failed on test graph {name}");
    }
}

#[test]
fn before_on_all() {
    run_all(
        rules_of(vec![before_rule(Some(("srv-b", None)), &["middleware-a", "middleware-b"])]),
        r#"
package example:composition;

let srv-b = new my:srv-b {
    ...
};

let middleware-b = new my:middleware-b {
    "wasi:http/handler@0.3.0-rc-2026-01-06": srv-b["wasi:http/handler@0.3.0-rc-2026-01-06"], ...
};

let middleware-a = new my:middleware-a {
    "wasi:http/handler@0.3.0-rc-2026-01-06": middleware-b["wasi:http/handler@0.3.0-rc-2026-01-06"], ...
};

export middleware-a["wasi:http/handler@0.3.0-rc-2026-01-06"];
        "#,
        r#"
package example:composition;

let srv-b = new my:srv-b {
    ...
};

let middleware-b = new my:middleware-b {
    "wasi:http/handler@0.3.0-rc-2026-01-06": srv-b["wasi:http/handler@0.3.0-rc-2026-01-06"], ...
};

let middleware-a = new my:middleware-a {
    "wasi:http/handler@0.3.0-rc-2026-01-06": middleware-b["wasi:http/handler@0.3.0-rc-2026-01-06"], ...
};

let srv = new my:srv {
    "wasi:http/handler@0.3.0-rc-2026-01-06": middleware-a["wasi:http/handler@0.3.0-rc-2026-01-06"],
    ...
};

export srv["wasi:http/handler@0.3.0-rc-2026-01-06"];
        "#,
        r#"
package example:composition;

let srv-c = new my:srv-c {
    ...
};

let srv-b = new my:srv-b {
    "wasi:http/handler@0.3.0-rc-2026-01-06": srv-c["wasi:http/handler@0.3.0-rc-2026-01-06"],
    ...
};

let middleware-b = new my:middleware-b {
    "wasi:http/handler@0.3.0-rc-2026-01-06": srv-b["wasi:http/handler@0.3.0-rc-2026-01-06"], ...
};

let middleware-a = new my:middleware-a {
    "wasi:http/handler@0.3.0-rc-2026-01-06": middleware-b["wasi:http/handler@0.3.0-rc-2026-01-06"], ...
};

let srv = new my:srv {
    "wasi:http/handler@0.3.0-rc-2026-01-06": middleware-a["wasi:http/handler@0.3.0-rc-2026-01-06"],
    ...
};

export srv["wasi:http/handler@0.3.0-rc-2026-01-06"];
        "#,
    );
}

#[test]
fn before_noprov_on_all() {
    run_all(
        rules_of(vec![before_rule(None, &["middleware-a", "middleware-b"])]),
        r#"
package example:composition;

let srv-b = new my:srv-b {
    ...
};

let middleware-b = new my:middleware-b {
    "wasi:http/handler@0.3.0-rc-2026-01-06": srv-b["wasi:http/handler@0.3.0-rc-2026-01-06"], ...
};

let middleware-a = new my:middleware-a {
    "wasi:http/handler@0.3.0-rc-2026-01-06": middleware-b["wasi:http/handler@0.3.0-rc-2026-01-06"], ...
};

export middleware-a["wasi:http/handler@0.3.0-rc-2026-01-06"];
        "#,
        r#"
package example:composition;

let srv-b = new my:srv-b {
    ...
};

let middleware-b = new my:middleware-b {
    "wasi:http/handler@0.3.0-rc-2026-01-06": srv-b["wasi:http/handler@0.3.0-rc-2026-01-06"], ...
};

let middleware-a = new my:middleware-a {
    "wasi:http/handler@0.3.0-rc-2026-01-06": middleware-b["wasi:http/handler@0.3.0-rc-2026-01-06"], ...
};

let srv = new my:srv {
    "wasi:http/handler@0.3.0-rc-2026-01-06": middleware-a["wasi:http/handler@0.3.0-rc-2026-01-06"],
    ...
};

let middleware-b = new my:middleware-b {
    "wasi:http/handler@0.3.0-rc-2026-01-06": srv["wasi:http/handler@0.3.0-rc-2026-01-06"], ...
};

let middleware-a = new my:middleware-a {
    "wasi:http/handler@0.3.0-rc-2026-01-06": middleware-b["wasi:http/handler@0.3.0-rc-2026-01-06"], ...
};

export middleware-a["wasi:http/handler@0.3.0-rc-2026-01-06"];
        "#,
        r#"
package example:composition;

let srv-c = new my:srv-c {
    ...
};

let middleware-b = new my:middleware-b {
    "wasi:http/handler@0.3.0-rc-2026-01-06": srv-c["wasi:http/handler@0.3.0-rc-2026-01-06"], ...
};

let middleware-a = new my:middleware-a {
    "wasi:http/handler@0.3.0-rc-2026-01-06": middleware-b["wasi:http/handler@0.3.0-rc-2026-01-06"], ...
};

let srv-b = new my:srv-b {
    "wasi:http/handler@0.3.0-rc-2026-01-06": middleware-a["wasi:http/handler@0.3.0-rc-2026-01-06"],
    ...
};

let middleware-b = new my:middleware-b {
    "wasi:http/handler@0.3.0-rc-2026-01-06": srv-b["wasi:http/handler@0.3.0-rc-2026-01-06"], ...
};

let middleware-a = new my:middleware-a {
    "wasi:http/handler@0.3.0-rc-2026-01-06": middleware-b["wasi:http/handler@0.3.0-rc-2026-01-06"], ...
};

let srv = new my:srv {
    "wasi:http/handler@0.3.0-rc-2026-01-06": middleware-a["wasi:http/handler@0.3.0-rc-2026-01-06"],
    ...
};

let middleware-b = new my:middleware-b {
    "wasi:http/handler@0.3.0-rc-2026-01-06": srv["wasi:http/handler@0.3.0-rc-2026-01-06"], ...
};

let middleware-a = new my:middleware-a {
    "wasi:http/handler@0.3.0-rc-2026-01-06": middleware-b["wasi:http/handler@0.3.0-rc-2026-01-06"], ...
};

export middleware-a["wasi:http/handler@0.3.0-rc-2026-01-06"];
        "#,
    );
}

#[test]
fn before_long_on_all() {
    run_all(
        rules_of(vec![before_rule(Some(("srv-c", None)), &["middleware-a", "middleware-b"])]),
        r#"
package example:composition;

let srv-b = new my:srv-b {
    ...
};

export srv-b["wasi:http/handler@0.3.0-rc-2026-01-06"];
        "#,
        r#"
package example:composition;

let srv-b = new my:srv-b {
    ...
};

let srv = new my:srv {
    "wasi:http/handler@0.3.0-rc-2026-01-06": srv-b["wasi:http/handler@0.3.0-rc-2026-01-06"],
    ...
};

export srv["wasi:http/handler@0.3.0-rc-2026-01-06"];
        "#,
        r#"
package example:composition;

let srv-c = new my:srv-c {
    ...
};

let middleware-b = new my:middleware-b {
    "wasi:http/handler@0.3.0-rc-2026-01-06": srv-c["wasi:http/handler@0.3.0-rc-2026-01-06"], ...
};

let middleware-a = new my:middleware-a {
    "wasi:http/handler@0.3.0-rc-2026-01-06": middleware-b["wasi:http/handler@0.3.0-rc-2026-01-06"], ...
};

let srv-b = new my:srv-b {
    "wasi:http/handler@0.3.0-rc-2026-01-06": middleware-a["wasi:http/handler@0.3.0-rc-2026-01-06"],
    ...
};

let srv = new my:srv {
    "wasi:http/handler@0.3.0-rc-2026-01-06": srv-b["wasi:http/handler@0.3.0-rc-2026-01-06"],
    ...
};

export srv["wasi:http/handler@0.3.0-rc-2026-01-06"];
        "#,
    );
}

#[test]
fn before_nomatch_on_all() {
    run_all(
        rules_of(vec![before_rule(Some(("srv-NA", None)), &["middleware-a", "middleware-b"])]),
        r#"
package example:composition;

let srv-b = new my:srv-b {
    ...
};

export srv-b["wasi:http/handler@0.3.0-rc-2026-01-06"];
        "#,
        r#"
package example:composition;

let srv-b = new my:srv-b {
    ...
};

let srv = new my:srv {
    "wasi:http/handler@0.3.0-rc-2026-01-06": srv-b["wasi:http/handler@0.3.0-rc-2026-01-06"],
    ...
};

export srv["wasi:http/handler@0.3.0-rc-2026-01-06"];
        "#,
        r#"
package example:composition;

let srv-c = new my:srv-c {
    ...
};

let srv-b = new my:srv-b {
    "wasi:http/handler@0.3.0-rc-2026-01-06": srv-c["wasi:http/handler@0.3.0-rc-2026-01-06"],
    ...
};

let srv = new my:srv {
    "wasi:http/handler@0.3.0-rc-2026-01-06": srv-b["wasi:http/handler@0.3.0-rc-2026-01-06"],
    ...
};

export srv["wasi:http/handler@0.3.0-rc-2026-01-06"];
        "#,
    );
}

#[test]
fn splice_on_all() {
    run_all(
        rules_of(vec![between_rule(("srv-b", None), ("srv", None), &["middleware-a", "middleware-b"])]),
        r#"
package example:composition;

let srv-b = new my:srv-b {
    ...
};

export srv-b["wasi:http/handler@0.3.0-rc-2026-01-06"];
        "#,
        r#"
package example:composition;

let srv-b = new my:srv-b {
    ...
};

let middleware-b = new my:middleware-b {
    "wasi:http/handler@0.3.0-rc-2026-01-06": srv-b["wasi:http/handler@0.3.0-rc-2026-01-06"], ...
};

let middleware-a = new my:middleware-a {
    "wasi:http/handler@0.3.0-rc-2026-01-06": middleware-b["wasi:http/handler@0.3.0-rc-2026-01-06"], ...
};

let srv = new my:srv {
    "wasi:http/handler@0.3.0-rc-2026-01-06": middleware-a["wasi:http/handler@0.3.0-rc-2026-01-06"],
    ...
};

export srv["wasi:http/handler@0.3.0-rc-2026-01-06"];
        "#,
        r#"
package example:composition;

let srv-c = new my:srv-c {
    ...
};

let srv-b = new my:srv-b {
    "wasi:http/handler@0.3.0-rc-2026-01-06": srv-c["wasi:http/handler@0.3.0-rc-2026-01-06"],
    ...
};

let middleware-b = new my:middleware-b {
    "wasi:http/handler@0.3.0-rc-2026-01-06": srv-b["wasi:http/handler@0.3.0-rc-2026-01-06"], ...
};

let middleware-a = new my:middleware-a {
    "wasi:http/handler@0.3.0-rc-2026-01-06": middleware-b["wasi:http/handler@0.3.0-rc-2026-01-06"], ...
};

let srv = new my:srv {
    "wasi:http/handler@0.3.0-rc-2026-01-06": middleware-a["wasi:http/handler@0.3.0-rc-2026-01-06"],
    ...
};

export srv["wasi:http/handler@0.3.0-rc-2026-01-06"];
        "#,
    );
}

#[test]
fn splice_long_on_all() {
    run_all(
        rules_of(vec![between_rule(("srv-c", None), ("srv-b", None), &["middleware-a", "middleware-b"])]),
        r#"
package example:composition;

let srv-b = new my:srv-b {
    ...
};

export srv-b["wasi:http/handler@0.3.0-rc-2026-01-06"];
        "#,
        r#"
package example:composition;

let srv-b = new my:srv-b {
    ...
};

let srv = new my:srv {
    "wasi:http/handler@0.3.0-rc-2026-01-06": srv-b["wasi:http/handler@0.3.0-rc-2026-01-06"],
    ...
};

export srv["wasi:http/handler@0.3.0-rc-2026-01-06"];
        "#,
        r#"
package example:composition;

let srv-c = new my:srv-c {
    ...
};

let middleware-b = new my:middleware-b {
    "wasi:http/handler@0.3.0-rc-2026-01-06": srv-c["wasi:http/handler@0.3.0-rc-2026-01-06"], ...
};

let middleware-a = new my:middleware-a {
    "wasi:http/handler@0.3.0-rc-2026-01-06": middleware-b["wasi:http/handler@0.3.0-rc-2026-01-06"], ...
};

let srv-b = new my:srv-b {
    "wasi:http/handler@0.3.0-rc-2026-01-06": middleware-a["wasi:http/handler@0.3.0-rc-2026-01-06"],
    ...
};

let srv = new my:srv {
    "wasi:http/handler@0.3.0-rc-2026-01-06": srv-b["wasi:http/handler@0.3.0-rc-2026-01-06"],
    ...
};

export srv["wasi:http/handler@0.3.0-rc-2026-01-06"];
        "#,
    );
}

#[test]
fn splice_nomatch_on_all() {
    run_all(
        rules_of(vec![between_rule(("srv-NA", None), ("srv", None), &["middleware-a", "middleware-b"])]),
        r#"
package example:composition;

let srv-b = new my:srv-b {
    ...
};

export srv-b["wasi:http/handler@0.3.0-rc-2026-01-06"];
        "#,
        r#"
package example:composition;

let srv-b = new my:srv-b {
    ...
};

let srv = new my:srv {
    "wasi:http/handler@0.3.0-rc-2026-01-06": srv-b["wasi:http/handler@0.3.0-rc-2026-01-06"],
    ...
};

export srv["wasi:http/handler@0.3.0-rc-2026-01-06"];
        "#,
        r#"
package example:composition;

let srv-c = new my:srv-c {
    ...
};

let srv-b = new my:srv-b {
    "wasi:http/handler@0.3.0-rc-2026-01-06": srv-c["wasi:http/handler@0.3.0-rc-2026-01-06"],
    ...
};

let srv = new my:srv {
    "wasi:http/handler@0.3.0-rc-2026-01-06": srv-b["wasi:http/handler@0.3.0-rc-2026-01-06"],
    ...
};

export srv["wasi:http/handler@0.3.0-rc-2026-01-06"];
        "#,
    );
}

#[test]
fn multi_rule_on_all() {
    run_all(
        rules_of(vec![
            before_rule(None, &["middleware-a"]),
            before_rule(Some(("srv-b", None)), &["middleware-b", "middleware-c"]),
            between_rule(("srv-c", None), ("srv-b", None), &["middleware-d", "middleware-e"]),
        ]),
        r#"
package example:composition;

let srv-b = new my:srv-b {
    ...
};

let middleware-c = new my:middleware-c {
    "wasi:http/handler@0.3.0-rc-2026-01-06": srv-b["wasi:http/handler@0.3.0-rc-2026-01-06"], ...
};

let middleware-b = new my:middleware-b {
    "wasi:http/handler@0.3.0-rc-2026-01-06": middleware-c["wasi:http/handler@0.3.0-rc-2026-01-06"], ...
};

let middleware-a = new my:middleware-a {
    "wasi:http/handler@0.3.0-rc-2026-01-06": middleware-b["wasi:http/handler@0.3.0-rc-2026-01-06"], ...
};

export middleware-a["wasi:http/handler@0.3.0-rc-2026-01-06"];
        "#,
        r#"
package example:composition;

let srv-b = new my:srv-b {
    ...
};

let middleware-c = new my:middleware-c {
    "wasi:http/handler@0.3.0-rc-2026-01-06": srv-b["wasi:http/handler@0.3.0-rc-2026-01-06"], ...
};

let middleware-b = new my:middleware-b {
    "wasi:http/handler@0.3.0-rc-2026-01-06": middleware-c["wasi:http/handler@0.3.0-rc-2026-01-06"], ...
};

let middleware-a = new my:middleware-a {
    "wasi:http/handler@0.3.0-rc-2026-01-06": middleware-b["wasi:http/handler@0.3.0-rc-2026-01-06"], ...
};

let srv = new my:srv {
    "wasi:http/handler@0.3.0-rc-2026-01-06": middleware-a["wasi:http/handler@0.3.0-rc-2026-01-06"],
    ...
};

let middleware-a = new my:middleware-a {
    "wasi:http/handler@0.3.0-rc-2026-01-06": srv["wasi:http/handler@0.3.0-rc-2026-01-06"], ...
};

export middleware-a["wasi:http/handler@0.3.0-rc-2026-01-06"];
        "#,
        r#"
package example:composition;

let srv-c = new my:srv-c {
    ...
};

let middleware-e = new my:middleware-e {
    "wasi:http/handler@0.3.0-rc-2026-01-06": srv-c["wasi:http/handler@0.3.0-rc-2026-01-06"], ...
};

let middleware-d = new my:middleware-d {
    "wasi:http/handler@0.3.0-rc-2026-01-06": middleware-e["wasi:http/handler@0.3.0-rc-2026-01-06"], ...
};

let middleware-a = new my:middleware-a {
    "wasi:http/handler@0.3.0-rc-2026-01-06": middleware-d["wasi:http/handler@0.3.0-rc-2026-01-06"], ...
};

let srv-b = new my:srv-b {
    "wasi:http/handler@0.3.0-rc-2026-01-06": middleware-a["wasi:http/handler@0.3.0-rc-2026-01-06"],
    ...
};

let middleware-c = new my:middleware-c {
    "wasi:http/handler@0.3.0-rc-2026-01-06": srv-b["wasi:http/handler@0.3.0-rc-2026-01-06"], ...
};

let middleware-b = new my:middleware-b {
    "wasi:http/handler@0.3.0-rc-2026-01-06": middleware-c["wasi:http/handler@0.3.0-rc-2026-01-06"], ...
};

let middleware-a = new my:middleware-a {
    "wasi:http/handler@0.3.0-rc-2026-01-06": middleware-b["wasi:http/handler@0.3.0-rc-2026-01-06"], ...
};

let srv = new my:srv {
    "wasi:http/handler@0.3.0-rc-2026-01-06": middleware-a["wasi:http/handler@0.3.0-rc-2026-01-06"],
    ...
};

let middleware-a = new my:middleware-a {
    "wasi:http/handler@0.3.0-rc-2026-01-06": srv["wasi:http/handler@0.3.0-rc-2026-01-06"], ...
};

export middleware-a["wasi:http/handler@0.3.0-rc-2026-01-06"];
        "#,
    );
}

#[test]
fn alias_in_before() {
    run_all(
        rules_of(vec![before_rule(Some(("srv-b", Some("other-name"))), &["middleware-a", "middleware-b"])]),
        r#"
package example:composition;

let other-name = new my:other-name {
    ...
};

let middleware-b = new my:middleware-b {
    "wasi:http/handler@0.3.0-rc-2026-01-06": other-name["wasi:http/handler@0.3.0-rc-2026-01-06"], ...
};

let middleware-a = new my:middleware-a {
    "wasi:http/handler@0.3.0-rc-2026-01-06": middleware-b["wasi:http/handler@0.3.0-rc-2026-01-06"], ...
};

export middleware-a["wasi:http/handler@0.3.0-rc-2026-01-06"];
        "#,
        r#"
package example:composition;

let other-name = new my:other-name {
    ...
};

let middleware-b = new my:middleware-b {
    "wasi:http/handler@0.3.0-rc-2026-01-06": other-name["wasi:http/handler@0.3.0-rc-2026-01-06"], ...
};

let middleware-a = new my:middleware-a {
    "wasi:http/handler@0.3.0-rc-2026-01-06": middleware-b["wasi:http/handler@0.3.0-rc-2026-01-06"], ...
};

let srv = new my:srv {
    "wasi:http/handler@0.3.0-rc-2026-01-06": middleware-a["wasi:http/handler@0.3.0-rc-2026-01-06"],
    ...
};

export srv["wasi:http/handler@0.3.0-rc-2026-01-06"];
        "#,
        r#"
package example:composition;

let srv-c = new my:srv-c {
    ...
};

let other-name = new my:other-name {
    "wasi:http/handler@0.3.0-rc-2026-01-06": srv-c["wasi:http/handler@0.3.0-rc-2026-01-06"],
    ...
};

let middleware-b = new my:middleware-b {
    "wasi:http/handler@0.3.0-rc-2026-01-06": other-name["wasi:http/handler@0.3.0-rc-2026-01-06"], ...
};

let middleware-a = new my:middleware-a {
    "wasi:http/handler@0.3.0-rc-2026-01-06": middleware-b["wasi:http/handler@0.3.0-rc-2026-01-06"], ...
};

let srv = new my:srv {
    "wasi:http/handler@0.3.0-rc-2026-01-06": middleware-a["wasi:http/handler@0.3.0-rc-2026-01-06"],
    ...
};

export srv["wasi:http/handler@0.3.0-rc-2026-01-06"];
        "#,
    );
}

#[test]
fn alias_in_between_inner() {
    run_all(
        rules_of(vec![between_rule(("srv-b", Some("other-b")), ("srv", None), &["middleware-a", "middleware-b"])]),
        r#"
package example:composition;

let srv-b = new my:srv-b {
    ...
};

export srv-b["wasi:http/handler@0.3.0-rc-2026-01-06"];
        "#,
        r#"
package example:composition;

let other-b = new my:other-b {
    ...
};

let middleware-b = new my:middleware-b {
    "wasi:http/handler@0.3.0-rc-2026-01-06": other-b["wasi:http/handler@0.3.0-rc-2026-01-06"], ...
};

let middleware-a = new my:middleware-a {
    "wasi:http/handler@0.3.0-rc-2026-01-06": middleware-b["wasi:http/handler@0.3.0-rc-2026-01-06"], ...
};

let srv = new my:srv {
    "wasi:http/handler@0.3.0-rc-2026-01-06": middleware-a["wasi:http/handler@0.3.0-rc-2026-01-06"],
    ...
};

export srv["wasi:http/handler@0.3.0-rc-2026-01-06"];
        "#,
        r#"
package example:composition;

let srv-c = new my:srv-c {
    ...
};

let other-b = new my:other-b {
    "wasi:http/handler@0.3.0-rc-2026-01-06": srv-c["wasi:http/handler@0.3.0-rc-2026-01-06"],
    ...
};

let middleware-b = new my:middleware-b {
    "wasi:http/handler@0.3.0-rc-2026-01-06": other-b["wasi:http/handler@0.3.0-rc-2026-01-06"], ...
};

let middleware-a = new my:middleware-a {
    "wasi:http/handler@0.3.0-rc-2026-01-06": middleware-b["wasi:http/handler@0.3.0-rc-2026-01-06"], ...
};

let srv = new my:srv {
    "wasi:http/handler@0.3.0-rc-2026-01-06": middleware-a["wasi:http/handler@0.3.0-rc-2026-01-06"],
    ...
};

export srv["wasi:http/handler@0.3.0-rc-2026-01-06"];
        "#,
    );
}

#[test]
fn alias_in_between_outer() {
    run_all(
        rules_of(vec![between_rule(("srv-b", None), ("srv", Some("other")), &["middleware-a", "middleware-b"])]),
        r#"
package example:composition;

let srv-b = new my:srv-b {
    ...
};

export srv-b["wasi:http/handler@0.3.0-rc-2026-01-06"];
        "#,
        r#"
package example:composition;

let srv-b = new my:srv-b {
    ...
};

let middleware-b = new my:middleware-b {
    "wasi:http/handler@0.3.0-rc-2026-01-06": srv-b["wasi:http/handler@0.3.0-rc-2026-01-06"], ...
};

let middleware-a = new my:middleware-a {
    "wasi:http/handler@0.3.0-rc-2026-01-06": middleware-b["wasi:http/handler@0.3.0-rc-2026-01-06"], ...
};

let other = new my:other {
    "wasi:http/handler@0.3.0-rc-2026-01-06": middleware-a["wasi:http/handler@0.3.0-rc-2026-01-06"],
    ...
};

export other["wasi:http/handler@0.3.0-rc-2026-01-06"];
        "#,
        r#"
package example:composition;

let srv-c = new my:srv-c {
    ...
};

let srv-b = new my:srv-b {
    "wasi:http/handler@0.3.0-rc-2026-01-06": srv-c["wasi:http/handler@0.3.0-rc-2026-01-06"],
    ...
};

let middleware-b = new my:middleware-b {
    "wasi:http/handler@0.3.0-rc-2026-01-06": srv-b["wasi:http/handler@0.3.0-rc-2026-01-06"], ...
};

let middleware-a = new my:middleware-a {
    "wasi:http/handler@0.3.0-rc-2026-01-06": middleware-b["wasi:http/handler@0.3.0-rc-2026-01-06"], ...
};

let other = new my:other {
    "wasi:http/handler@0.3.0-rc-2026-01-06": middleware-a["wasi:http/handler@0.3.0-rc-2026-01-06"],
    ...
};

export other["wasi:http/handler@0.3.0-rc-2026-01-06"];
        "#,
    );
}

#[test]
fn alias_in_between_inner_and_outer() {
    run_all(
        rules_of(vec![between_rule(("srv-b", Some("other-b")), ("srv", Some("other")), &["middleware-a", "middleware-b"])]),
        r#"
package example:composition;

let srv-b = new my:srv-b {
    ...
};

export srv-b["wasi:http/handler@0.3.0-rc-2026-01-06"];
        "#,
        r#"
package example:composition;

let other-b = new my:other-b {
    ...
};

let middleware-b = new my:middleware-b {
    "wasi:http/handler@0.3.0-rc-2026-01-06": other-b["wasi:http/handler@0.3.0-rc-2026-01-06"], ...
};

let middleware-a = new my:middleware-a {
    "wasi:http/handler@0.3.0-rc-2026-01-06": middleware-b["wasi:http/handler@0.3.0-rc-2026-01-06"], ...
};

let other = new my:other {
    "wasi:http/handler@0.3.0-rc-2026-01-06": middleware-a["wasi:http/handler@0.3.0-rc-2026-01-06"],
    ...
};

export other["wasi:http/handler@0.3.0-rc-2026-01-06"];
        "#,
        r#"
package example:composition;

let srv-c = new my:srv-c {
    ...
};

let other-b = new my:other-b {
    "wasi:http/handler@0.3.0-rc-2026-01-06": srv-c["wasi:http/handler@0.3.0-rc-2026-01-06"],
    ...
};

let middleware-b = new my:middleware-b {
    "wasi:http/handler@0.3.0-rc-2026-01-06": other-b["wasi:http/handler@0.3.0-rc-2026-01-06"], ...
};

let middleware-a = new my:middleware-a {
    "wasi:http/handler@0.3.0-rc-2026-01-06": middleware-b["wasi:http/handler@0.3.0-rc-2026-01-06"], ...
};

let other = new my:other {
    "wasi:http/handler@0.3.0-rc-2026-01-06": middleware-a["wasi:http/handler@0.3.0-rc-2026-01-06"],
    ...
};

export other["wasi:http/handler@0.3.0-rc-2026-01-06"];
        "#,
    );
}

#[test]
fn empty_rules_are_identity() {
    run_all(
        rules_of(vec![]),
        r#"
package example:composition;

let srv-b = new my:srv-b {
    ...
};

export srv-b["wasi:http/handler@0.3.0-rc-2026-01-06"];
        "#,
        r#"
package example:composition;

let srv-b = new my:srv-b {
    ...
};

let srv = new my:srv {
    "wasi:http/handler@0.3.0-rc-2026-01-06": srv-b["wasi:http/handler@0.3.0-rc-2026-01-06"],
    ...
};

export srv["wasi:http/handler@0.3.0-rc-2026-01-06"];
        "#,
        r#"
package example:composition;

let srv-c = new my:srv-c {
    ...
};

let srv-b = new my:srv-b {
    "wasi:http/handler@0.3.0-rc-2026-01-06": srv-c["wasi:http/handler@0.3.0-rc-2026-01-06"],
    ...
};

let srv = new my:srv {
    "wasi:http/handler@0.3.0-rc-2026-01-06": srv-b["wasi:http/handler@0.3.0-rc-2026-01-06"],
    ...
};

export srv["wasi:http/handler@0.3.0-rc-2026-01-06"];
        "#,
    );
}
