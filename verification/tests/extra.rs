//! Tests of the planner's edges: structured errors, compose arguments, the
//! shim heuristic, split paths, and the small model helpers.

use splicer::model::{ComponentNode, CompositionGraph, InterfaceConnection};
use splicer::parse::config::{
    ConfigFile, Injection, SpliceRule, YamlProviderOpt, YamlRule, YamlStrategyBefore,
};
use splicer::parse::json::{
    GraphError, JsonCompositionGraph, JsonExport, JsonInterfaceConnection, JsonNode,
};
use splicer::split::{gen_split_path, SplitTracker};
use splicer::wac::{generate_wac, PlanError};

const HANDLER: &str = "wasi:http/handler@0.3.0-rc-2026-01-06";

fn wired(iface: &str, src: u32) -> JsonInterfaceConnection {
    JsonInterfaceConnection {
        interface: iface.to_string(),
        short: iface.to_string(),
        source_instance: src,
        is_host_import: false,
    }
}

fn single_service() -> CompositionGraph {
    CompositionGraph::from_json_model(JsonCompositionGraph {
        nodes: vec![JsonNode {
            id: 12,
            name: "srv-b".to_string(),
            component_index: 0,
            imports: vec![],
        }],
        exports: vec![JsonExport { interface: HANDLER.to_string(), source_instance: 12 }],
    })
}

fn before_rules(provider: &str, alias: Option<&str>, mdls: &[&str]) -> Vec<SpliceRule> {
    ConfigFile {
        version: 1,
        rules: vec![YamlRule {
            before: Some(YamlStrategyBefore {
                interface: HANDLER.to_string(),
                provider: Some(YamlProviderOpt {
                    name: Some(provider.to_string()),
                    alias: alias.map(|a| a.to_string()),
                }),
            }),
            between: None,
            inject: mdls
                .iter()
                .map(|n| Injection { name: n.to_string(), path: None })
                .collect(),
        }],
    }
    .to_splice_rules()
}

#[test]
fn identity_args_name_the_used_component() {
    let graph = single_service();
    let (_, args) = generate_wac(vec![], "./splits", &graph, &[]).ok().unwrap();
    assert_eq!(args.len(), 1);
    assert_eq!(args[0].0, "srv-b");
    assert_eq!(args[0].1, "./splits/split1.wasm");
}

#[test]
fn middleware_args_follow_component_args() {
    let graph = single_service();
    let rules = before_rules("srv-b", None, &["middleware-a", "middleware-b"]);
    let (_, args) = generate_wac(vec![], "./splits", &graph, &rules).ok().unwrap();
    assert_eq!(args.len(), 3);
    assert_eq!(args[0], ("srv-b".to_string(), "./splits/split1.wasm".to_string()));
    assert_eq!(
        args[1],
        ("middleware-b".to_string(), "/path/to/comp.wasm".to_string())
    );
    assert_eq!(
        args[2],
        ("middleware-a".to_string(), "/path/to/comp.wasm".to_string())
    );
}

#[test]
fn middleware_path_is_carried_through() {
    let graph = single_service();
    let rules = ConfigFile {
        version: 1,
        rules: vec![YamlRule {
            before: Some(YamlStrategyBefore {
                interface: HANDLER.to_string(),
                provider: None,
            }),
            between: None,
            inject: vec![Injection {
                name: "middleware-a".to_string(),
                path: Some("/opt/mw/a.wasm".to_string()),
            }],
        }],
    }
    .to_splice_rules();
    let (_, args) = generate_wac(vec![], "./splits", &graph, &rules).ok().unwrap();
    assert_eq!(args.len(), 2);
    assert_eq!(args[1], ("middleware-a".to_string(), "/opt/mw/a.wasm".to_string()));
}

#[test]
fn shim_heuristic_lowers_the_split_number() {
    let graph = single_service();
    let (_, args) = generate_wac(vec![1], "./splits", &graph, &[]).ok().unwrap();
    assert_eq!(args[0].1, "./splits/split0.wasm");
}

#[test]
fn dangling_export_is_reported() {
    let graph = CompositionGraph::from_json_model(JsonCompositionGraph {
        nodes: vec![],
        exports: vec![JsonExport { interface: HANDLER.to_string(), source_instance: 99 }],
    });
    match generate_wac(vec![], "./splits", &graph, &[]) {
        Err(PlanError::Graph(GraphError::MissingExportSource { interface, instance })) => {
            assert_eq!(interface, HANDLER);
            assert_eq!(instance, 99);
        },
        _ => panic!("expected a missing-export-source error"),
    }
}

#[test]
fn dangling_import_is_reported() {
    let graph = CompositionGraph::from_json_model(JsonCompositionGraph {
        nodes: vec![JsonNode {
            id: 1,
            name: "srv".to_string(),
            component_index: 0,
            imports: vec![wired(HANDLER, 99)],
        }],
        exports: vec![JsonExport { interface: HANDLER.to_string(), source_instance: 1 }],
    });
    match generate_wac(vec![], "./splits", &graph, &[]) {
        Err(PlanError::Graph(GraphError::MissingImportSource { instance, interface, source })) => {
            assert_eq!(instance, 1);
            assert_eq!(interface, HANDLER);
            assert_eq!(source, 99);
        },
        _ => panic!("expected a missing-import-source error"),
    }
}

#[test]
fn cyclic_imports_are_reported() {
    let graph = CompositionGraph::from_json_model(JsonCompositionGraph {
        nodes: vec![
            JsonNode {
                id: 1,
                name: "a".to_string(),
                component_index: 0,
                imports: vec![wired("loop", 2)],
            },
            JsonNode {
                id: 2,
                name: "b".to_string(),
                component_index: 1,
                imports: vec![wired("loop", 1)],
            },
        ],
        exports: vec![],
    });
    match generate_wac(vec![], "./splits", &graph, &[]) {
        Err(PlanError::CyclicImports { interface }) => {
            assert_eq!(interface, "loop");
        },
        _ => panic!("expected a cyclic-imports error"),
    }
}

#[test]
fn conflicting_aliases_are_reported() {
    let graph = single_service();
    let mut rules = before_rules("srv-b", Some("first"), &["middleware-a"]);
    rules.extend(before_rules("srv-b", Some("second"), &["middleware-b"]));
    match generate_wac(vec![], "./splits", &graph, &rules) {
        Err(PlanError::AliasConflict(c)) => {
            assert_eq!(c.instance, 12);
            assert_eq!(c.existing, "first");
            assert_eq!(c.requested, "second");
        },
        _ => panic!("expected an alias-conflict error"),
    }
}

#[test]
fn equal_aliases_do_not_conflict() {
    let graph = single_service();
    let mut rules = before_rules("srv-b", Some("other"), &["middleware-a"]);
    rules.extend(before_rules("srv-b", Some("other"), &["middleware-b"]));
    assert!(generate_wac(vec![], "./splits", &graph, &rules).is_ok());
}

#[test]
fn duplicate_injections_are_suppressed() {
    let graph = single_service();
    let mut rules = before_rules("srv-b", None, &["middleware-a"]);
    rules.extend(before_rules("srv-b", None, &["middleware-a"]));
    let (wac, args) = generate_wac(vec![], "./splits", &graph, &rules).ok().unwrap();
    assert_eq!(wac.matches("let middleware-a").count(), 1);
    assert_eq!(args.len(), 2);
}

#[test]
fn split_path_formats_the_number() {
    assert_eq!(gen_split_path("./splits", 0), "./splits/split0.wasm");
    assert_eq!(gen_split_path("./splits", 3), "./splits/split3.wasm");
    assert_eq!(gen_split_path("out", 1230456), "out/split1230456.wasm");
}

#[test]
fn split_tracker_flags_single_split_wrappers() {
    let mut t = SplitTracker::new();
    assert_eq!(t.enter_component(), 0);
    assert_eq!(t.enter_component(), 1);
    t.exit_component();
    t.exit_component();
    assert_eq!(t.shim_comps, vec![1]);
    assert_eq!(t.curr_comp_num, 2);
}

#[test]
fn split_tracker_ignores_multi_split_components() {
    let mut t = SplitTracker::new();
    t.enter_component();
    t.enter_component();
    t.exit_component();
    t.enter_component();
    t.exit_component();
    t.exit_component();
    assert_eq!(t.shim_comps, vec![1, 2]);
    let mut u = SplitTracker::new();
    u.enter_component();
    u.enter_component();
    u.enter_component();
    u.exit_component();
    u.exit_component();
    u.exit_component();
    assert_eq!(u.shim_comps, vec![2]);
}

#[test]
fn display_label_strips_the_sigil() {
    assert_eq!(ComponentNode::new("$srv-b".to_string(), 0).display_label(), "srv-b");
    assert_eq!(ComponentNode::new("$$x".to_string(), 0).display_label(), "x");
    assert_eq!(ComponentNode::new("plain".to_string(), 0).display_label(), "plain");
}

#[test]
fn add_import_keeps_order() {
    let mut n = ComponentNode::new("$srv".to_string(), 0);
    n.add_import(InterfaceConnection {
        interface_name: "a".to_string(),
        source_instance: 1,
        is_host_import: false,
    });
    n.add_import(InterfaceConnection {
        interface_name: "b".to_string(),
        source_instance: 2,
        is_host_import: true,
    });
    assert_eq!(n.imports.len(), 2);
    assert_eq!(n.imports[0].interface_name, "a");
    assert_eq!(n.imports[1].interface_name, "b");
    assert!(n.imports[1].is_host_import);
}

#[test]
fn validate_accepts_wired_graphs() {
    assert!(single_service().validate().is_ok());
}

#[test]
fn normalization_carries_every_field() {
    let rules = before_rules("srv-b", Some("other"), &["middleware-a"]);
    assert_eq!(rules.len(), 1);
    match &rules[0] {
        SpliceRule::Before { interface, provider_name, provider_alias, inject } => {
            assert_eq!(interface, HANDLER);
            assert_eq!(provider_name.as_deref(), Some("srv-b"));
            assert_eq!(provider_alias.as_deref(), Some("other"));
            assert_eq!(inject.len(), 1);
            assert_eq!(inject[0].name, "middleware-a");
            assert!(inject[0].path.is_none());
        },
        _ => panic!("expected a Before rule"),
    }
}

#[test]
fn wac_cmd_lists_each_dependency() {
    let cmd = splicer::wac::gen_wac_cmd(
        "output.wac",
        vec![
            ("srv-b".to_string(), "./splits/split1.wasm".to_string()),
            ("middleware-a".to_string(), "/path/to/comp.wasm".to_string()),
        ],
    );
    assert_eq!(
        cmd,
        "wac compose output.wac \\\n    --dep my:srv-b=\"./splits/split1.wasm\" \\\n    --dep my:middleware-a=\"/path/to/comp.wasm\" "
    );
}

#[test]
fn bare_export_wires_declared_providers() {
    // `svc` is forwarded from instance 1 to instance 3 (one chain); instance
    // 2 consumes `svc` from instance 1 as well, sits on no chain, and is
    // only materialized for its own export. Its import of `svc` must still
    // be wired to instance 1's declaration.
    let graph = CompositionGraph::from_json_model(JsonCompositionGraph {
        nodes: vec![
            JsonNode {
                id: 1,
                name: "n1".to_string(),
                component_index: 0,
                imports: vec![],
            },
            JsonNode {
                id: 2,
                name: "n2".to_string(),
                component_index: 1,
                imports: vec![wired("svc", 1)],
            },
            JsonNode {
                id: 3,
                name: "n3".to_string(),
                component_index: 2,
                imports: vec![
                    wired("svc", 1),
                    JsonInterfaceConnection {
                        interface: "other".to_string(),
                        short: "other".to_string(),
                        source_instance: 99,
                        is_host_import: true,
                    },
                ],
            },
        ],
        exports: vec![
            JsonExport { interface: "svc".to_string(), source_instance: 3 },
            JsonExport { interface: "other".to_string(), source_instance: 2 },
        ],
    });
    let (wac, _) = generate_wac(vec![], "./splits", &graph, &[]).ok().unwrap();
    let expected = r#"package example:composition;

let n1 = new my:n1 {
    ...
};

let n3 = new my:n3 {
    "svc": n1["svc"],
    ...
};

export n3["svc"];

let n2 = new my:n2 {
    "svc": n1["svc"],
    ...
};

export n2["other"];"#;
    assert_eq!(wac.trim(), expected.trim());
}
