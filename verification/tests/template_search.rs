use cube_api::store::StoreTemplateRecord;
use cube_api::templates::{
    start_endpoint_search, start_service_search, Ask, Hints, Reply, Search, TemplateInfo,
};

struct World {
    valid: Vec<&'static str>,
    templates: Option<Vec<(&'static str, &'static str, Option<String>)>>,
    rows: Option<Vec<(&'static str, &'static str)>>,
}

fn record(id: &str, image: &str) -> StoreTemplateRecord {
    StoreTemplateRecord {
        item_id: id.to_string(),
        name_key: String::new(),
        description_key: String::new(),
        image_cn: image.to_string(),
        image_intl: String::new(),
        digest: None,
        tags: Vec::new(),
        category: String::new(),
        size_mb: 0,
        expose_ports: Vec::new(),
        probe_port: 0,
        probe_path: String::new(),
        writable_layer_size: String::new(),
        official: false,
        dns: Vec::new(),
        sort_order: 0,
    }
}

fn code_image() -> String {
    cube_api::store::fallback_catalog()[0].image_cn.clone()
}

fn answer(world: &World, ask: &Ask) -> Option<Reply> {
    match ask {
        Ask::Validate(id) => Some(Reply::Valid(world.valid.contains(&id.as_str()))),
        Ask::ListTemplates => Some(Reply::Templates(world.templates.as_ref().map(|list| {
            list.iter()
                .map(|(id, status, image)| TemplateInfo {
                    template_id: id.to_string(),
                    status: status.to_string(),
                    image_info: image.clone(),
                })
                .collect()
        }))),
        Ask::ListCatalog => Some(Reply::Catalog(
            world
                .rows
                .as_ref()
                .map(|rows| rows.iter().map(|(id, image)| record(id, image)).collect()),
        )),
        Ask::Done(_) => None,
    }
}

fn follow(mut search: Search, world: &World) -> Option<String> {
    for _ in 0..50 {
        let ask = search.ask();
        match answer(world, &ask) {
            Some(reply) => search = search.after(reply),
            None => match ask {
                Ask::Done(found) => return found,
                _ => unreachable!(),
            },
        }
    }
    panic!("the search does not end")
}

fn hints(asked: Option<&str>, configured: Option<&str>, environment: Option<&str>) -> Hints {
    Hints {
        asked: asked.map(|s| s.to_string()),
        configured: configured.map(|s| s.to_string()),
        environment: environment.map(|s| s.to_string()),
        store_item: Some("sandbox-code".to_string()),
    }
}

fn world(valid: &[&'static str]) -> World {
    World {
        valid: valid.to_vec(),
        templates: Some(vec![
            ("t-broken", "failed", Some(code_image())),
            ("t-other", "ready", Some("other".to_string())),
            ("t-code", "healthy", Some(code_image())),
            ("t-code2", "ready", Some(code_image())),
        ]),
        rows: Some(vec![("sandbox-browser", "browser"), ("sandbox-code", "other")]),
    }
}

#[test]
fn the_template_of_the_request_comes_first() {
    let world = world(&["asked", "configured", "environment"]);
    let all = || hints(Some("asked"), Some("configured"), Some("environment"));
    assert_eq!(follow(start_endpoint_search(all()), &world).as_deref(), Some("asked"));
    assert_eq!(follow(start_service_search(all(), true), &world).as_deref(), Some("asked"));
}

#[test]
fn the_endpoint_prefers_the_wanted_image_to_the_configured_template() {
    let world = world(&["configured", "environment"]);
    let search = start_endpoint_search(hints(Some("unknown"), Some("configured"), None));
    assert_eq!(follow(search, &world).as_deref(), Some("t-code"));
}

#[test]
fn the_endpoint_falls_back_to_the_configured_template() {
    let mut world = world(&["environment"]);
    world.templates = None;
    let search = start_endpoint_search(hints(Some(" \t"), Some("configured"), Some("environment")));
    assert_eq!(follow(search, &world).as_deref(), Some("environment"));
    let mut none = hints(None, Some("environment"), Some(""));
    none.store_item = Some("no-such-item".to_string());
    assert_eq!(follow(start_endpoint_search(none), &world).as_deref(), Some("environment"));
}

#[test]
fn the_endpoint_takes_any_ready_template_in_the_end() {
    let mut world = world(&["t-broken", "t-other"]);
    let mut start = hints(None, None, None);
    start.store_item = None;
    assert_eq!(follow(start_endpoint_search(start), &world).as_deref(), Some("t-other"));
    world.valid = vec!["t-broken"];
    let mut start = hints(None, None, None);
    start.store_item = None;
    assert_eq!(follow(start_endpoint_search(start), &world), None);
}

#[test]
fn templates_that_are_not_ready_are_not_taken() {
    let mut world = world(&["t-broken"]);
    world.templates = Some(vec![("t-broken", "failed", Some(code_image()))]);
    let all = || hints(Some("asked"), Some("configured"), Some("environment"));
    assert_eq!(follow(start_endpoint_search(all()), &world), None);
    assert_eq!(follow(start_service_search(all(), true), &world), None);
}

#[test]
fn an_empty_identifier_counts_as_none_at_the_endpoint() {
    let mut world = world(&["", "t-other"]);
    world.templates = Some(vec![("t-other", "ready", None)]);
    let search = start_endpoint_search(hints(None, Some(""), Some("t-other")));
    assert_eq!(follow(search, &world).as_deref(), Some("t-other"));
    let search = start_service_search(hints(None, Some(""), Some("t-other")), false);
    assert_eq!(follow(search, &world).as_deref(), Some(""));
}

#[test]
fn the_service_prefers_the_configured_template() {
    let world = world(&["configured", "environment"]);
    let search = start_service_search(hints(Some("unknown"), Some("configured"), None), true);
    assert_eq!(follow(search, &world).as_deref(), Some("configured"));
    let search = start_service_search(hints(None, Some("unknown"), Some("environment")), true);
    assert_eq!(follow(search, &world).as_deref(), Some("environment"));
}

#[test]
fn the_service_matches_the_image_of_the_stored_catalog() {
    let world = world(&[]);
    let search = start_service_search(hints(None, None, None), true);
    assert_eq!(follow(search, &world).as_deref(), Some("t-other"));
    // Without a store the catalog is not asked for, and nothing is valid.
    let search = start_service_search(hints(None, None, None), false);
    assert_eq!(follow(search, &world), None);
}

#[test]
fn the_service_takes_ready_templates_only() {
    let mut world = world(&["t-broken", "t-code2"]);
    world.rows = None;
    let search = start_service_search(hints(None, None, None), true);
    assert_eq!(follow(search, &world).as_deref(), Some("t-code2"));
    world.valid = vec!["t-broken"];
    let search = start_service_search(hints(None, None, None), true);
    assert_eq!(follow(search, &world), None);
    world.templates = None;
    let search = start_service_search(hints(None, None, None), true);
    assert_eq!(follow(search, &world), None);
}

#[test]
fn a_reply_to_another_question_changes_nothing() {
    let search = start_endpoint_search(hints(Some("asked"), None, None));
    let search = search.after(Reply::Templates(None));
    assert!(matches!(search.ask(), Ask::Validate(id) if id == "asked"));
    let search = search.after(Reply::Valid(true));
    let search = search.after(Reply::Valid(false));
    assert!(matches!(search.ask(), Ask::Done(Some(id)) if id == "asked"));
}
