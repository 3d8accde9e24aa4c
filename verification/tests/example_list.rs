use cube_api::endpoint::list_examples;
use cube_api::examples::{
    list_visible, list_visible_of, resolve_visible, resolve_visible_of,
};
use cube_api::registry::{file_languages, scenario_registry, FileSpec, ScenarioSpec};
use cube_api::topology::{topology_for, topology_with_status};

const SCENARIOS: [&str; 8] = [
    "code-sandbox-quickstart",
    "network-policy",
    "host-mount",
    "browser-sandbox",
    "snapshot-rollback-clone",
    "e2b-dev-sidecar",
    "cubesandbox-base-nginx",
    "cube-bench",
];

fn scenario(id: &'static str, hidden: bool, files: Vec<FileSpec>) -> ScenarioSpec {
    ScenarioSpec {
        id,
        category: "c",
        hidden,
        files,
        timeout_secs: None,
        topology: topology_for(id),
        store_item_id: None,
    }
}

fn file(id: &'static str, language: &'static str) -> FileSpec {
    FileSpec {
        id,
        filename: "f.py",
        title: "t",
        description: "d",
        language,
    }
}

#[test]
fn every_visible_example_is_listed() {
    let metas = list_visible();
    assert_eq!(metas.len(), 26);
    assert_eq!(list_examples().len(), 26);
    assert_eq!(metas[0].id, "code-sandbox-quickstart:create");
    assert_eq!(metas[0].scenario, "code-sandbox-quickstart");
    assert_eq!(metas[0].filename, "create.py");
    assert_eq!(metas[0].category, "basics");
    assert_eq!(metas[0].language, "python");
    assert_eq!(metas[0].store_item_id.as_deref(), Some("sandbox-code"));
    assert_eq!(metas[25].id, "cube-bench:main");
    assert_eq!(metas[25].language, "go");
    for meta in &metas {
        assert!(SCENARIOS.contains(&meta.scenario.as_str()));
    }
}

#[test]
fn what_is_listed_can_be_resolved() {
    for meta in list_visible() {
        let (found, scenario, file) = resolve_visible(&meta.id).unwrap();
        assert_eq!(found.id, meta.id);
        assert_eq!(found.language, meta.language);
        assert_eq!(scenario.id, meta.scenario);
        assert_eq!(file.filename, meta.filename);
        assert_eq!(file.language, meta.language);
        assert!(!scenario.hidden);
    }
}

#[test]
fn what_is_not_offered_is_not_found() {
    for id in [
        "",
        "create",
        "code-sandbox-quickstart",
        "code-sandbox-quickstart:",
        "code-sandbox-quickstart:creat",
        "code-sandbox-quickstart:create:",
        "code-sandbox-quickstart/create",
        ":create",
        "openclaw-integration:main",
        "mini-rl-training:",
    ] {
        assert!(resolve_visible(id).is_none());
    }
}

#[test]
fn hidden_scenarios_are_passed_over() {
    let langs = vec![("open:a", "bash")];
    let make = || {
        vec![
            scenario("shut", true, vec![file("a", "python")]),
            scenario("open", false, vec![file("a", "python"), file("b", "go")]),
        ]
    };
    let metas = list_visible_of(&make(), &langs);
    assert_eq!(metas.len(), 2);
    assert_eq!(metas[0].id, "open:a");
    assert_eq!(metas[0].language, "bash");
    assert_eq!(metas[1].language, "go");
    assert_eq!(metas[1].store_item_id, None);
    assert!(resolve_visible_of(make(), &langs, "shut:a").is_none());
    let (meta, scenario, file) = resolve_visible_of(make(), &langs, "open:b").unwrap();
    assert_eq!(meta.id, "open:b");
    assert_eq!(scenario.id, "open");
    assert_eq!(file.id, "b");
}

#[test]
fn a_later_scenario_of_the_same_name_is_searched_too() {
    let scenarios = vec![
        scenario("same", false, vec![file("a", "python")]),
        scenario("same", false, vec![file("b", "python")]),
    ];
    let (_, _, found) = resolve_visible_of(scenarios, &Vec::new(), "same:b").unwrap();
    assert_eq!(found.id, "b");
}

#[test]
fn the_registry_knows_hidden_scenarios() {
    let registry = scenario_registry();
    assert_eq!(registry.len(), 12);
    assert_eq!(registry.iter().filter(|s| s.hidden).count(), 4);
    let browser = registry.iter().find(|s| s.id == "browser-sandbox").unwrap();
    assert_eq!(browser.timeout_secs, Some(600));
    assert_eq!(browser.store_item_id, Some("sandbox-browser"));
    assert_eq!(file_languages().len(), 26);
}

#[test]
fn graphs_have_nodes_for_their_edges() {
    for id in SCENARIOS {
        let graph = topology_for(id);
        assert!(!graph.nodes.is_empty());
        for edge in &graph.edges {
            assert!(graph.nodes.iter().any(|node| node.id == edge.from));
            assert!(graph.nodes.iter().any(|node| node.id == edge.to));
        }
    }
}

#[test]
fn a_run_marks_the_graph() {
    for (success, mark) in [(true, "[ok] "), (false, "[err] ")] {
        for id in SCENARIOS {
            let before = topology_for(id);
            let after = topology_with_status(topology_for(id), success);
            assert_eq!(before.nodes.len(), after.nodes.len());
            assert_eq!(before.edges.len(), after.edges.len());
            for (old, new) in before.nodes.iter().zip(&after.nodes) {
                let shows = ["user", "runner", "playwright"].contains(&old.id.as_str());
                let expected = if shows {
                    format!("{}{}", mark, old.description)
                } else {
                    old.description.clone()
                };
                assert_eq!(new.description, expected);
                assert_eq!(new.kind, old.kind);
            }
        }
    }
}

#[test]
fn no_identifier_stands_twice() {
    let langs = file_languages();
    for (i, (key, language)) in langs.iter().enumerate() {
        assert!(!langs[..i].iter().any(|(other, _)| other == key));
        let (_, _, file) = resolve_visible(key).unwrap();
        assert_eq!(&file.language, language);
    }
    let metas = list_visible();
    for (i, meta) in metas.iter().enumerate() {
        assert!(!metas[..i].iter().any(|other| other.id == meta.id));
    }
}

#[test]
fn scenarios_want_items_of_the_catalog() {
    let catalog = cube_api::store::fallback_catalog();
    for scenario in scenario_registry() {
        if !scenario.hidden {
            let wanted = scenario.store_item_id.unwrap();
            assert!(catalog.iter().any(|item| item.id == wanted));
        }
    }
}

#[test]
fn the_language_table_lists_the_offered_examples() {
    let langs = file_languages();
    let mut expected: Vec<(String, &'static str)> = Vec::new();
    for scenario in scenario_registry() {
        if scenario.hidden {
            continue;
        }
        for file in &scenario.files {
            let extension = if file.language == "go" { "go" } else { "py" };
            assert_eq!(file.filename, format!("{}.{}", file.id, extension));
            expected.push((format!("{}:{}", scenario.id, file.id), file.language));
        }
    }
    let listed: Vec<(String, &'static str)> =
        langs.iter().map(|(key, language)| (key.to_string(), *language)).collect();
    assert_eq!(listed, expected);
}
