use cube_api::images::{
    collect_store_images, describe_image, get_store_meta, inspect_args, inspect_json, pull_args,
    InspectResult,
};
use cube_api::store::{
    create_store_catalog_item, created_reply, default_probe_path, default_writable_layer_size,
    delete_store_catalog_item, deleted_reply, fallback_catalog, list_store_catalog,
    update_store_catalog_item, updated_reply, StoreCatalogItem, StoreReply, StoreTemplateRecord,
    UpsertStoreCatalogRequest,
};

fn body(id: &str) -> UpsertStoreCatalogRequest {
    UpsertStoreCatalogRequest {
        id: id.to_string(),
        name_key: "n".to_string(),
        description_key: "d".to_string(),
        image_cn: "cn/repo:1".to_string(),
        image_intl: "intl/repo:1".to_string(),
        digest: Some("sha256:1".to_string()),
        tags: vec!["t1".to_string(), "t2".to_string()],
        category: "code".to_string(),
        size_mb: 12,
        expose_ports: vec![80, 443],
        probe_port: 80,
        probe_path: "/".to_string(),
        writable_layer_size: "1G".to_string(),
        official: true,
        dns: vec!["8.8.8.8".to_string()],
        sort_order: 4,
    }
}

fn record(id: &str) -> StoreTemplateRecord {
    StoreTemplateRecord::from(&body(id))
}

#[test]
fn the_built_in_catalog_has_five_items() {
    let catalog = fallback_catalog();
    let ids: Vec<&str> = catalog.iter().map(|item| item.id.as_str()).collect();
    assert_eq!(
        ids,
        vec!["sandbox-code", "sandbox-browser", "openclaw", "cubesandbox-base", "sandbox-nginx"]
    );
    for item in &catalog {
        assert_eq!(item.image, item.image_cn);
        assert!(item.expose_ports.contains(&49983));
        assert!(item.expose_ports.contains(&item.probe_port));
        assert!(item.official);
        assert!(["code", "browser", "ai", "base"].contains(&item.category.as_str()));
    }
    assert_eq!(catalog[4].category, "base");
}

#[test]
fn defaults_of_a_request() {
    assert_eq!(default_probe_path(), "/");
    assert_eq!(default_writable_layer_size(), "1G");
}

#[test]
fn a_request_becomes_a_record_and_an_item() {
    let record = record("mine");
    assert_eq!(record.item_id, "mine");
    assert_eq!(record.sort_order, 4);
    let item = StoreCatalogItem::from(record);
    assert_eq!(item.id, "mine");
    assert_eq!(item.name_key, "n");
    assert_eq!(item.description_key, "d");
    assert_eq!(item.image, "cn/repo:1");
    assert_eq!(item.image_cn, "cn/repo:1");
    assert_eq!(item.image_intl, "intl/repo:1");
    assert_eq!(item.digest.as_deref(), Some("sha256:1"));
    assert_eq!(item.tags, vec!["t1", "t2"]);
    assert_eq!(item.category, "code");
    assert_eq!(item.size_mb, 12);
    assert_eq!(item.expose_ports, vec![80, 443]);
    assert_eq!(item.probe_port, 80);
    assert_eq!(item.probe_path, "/");
    assert_eq!(item.writable_layer_size, "1G");
    assert!(item.official);
    assert_eq!(item.dns, vec!["8.8.8.8"]);
}

#[test]
fn the_catalog_is_that_of_the_database_where_there_is_one() {
    let shown = list_store_catalog(Some(vec![record("a"), record("b")])).items;
    assert_eq!(shown.len(), 2);
    assert_eq!(shown[0].id, "a");
    assert_eq!(shown[1].id, "b");
    assert_eq!(list_store_catalog(Some(Vec::new())).items.len(), 0);
    assert_eq!(list_store_catalog(None).items.len(), 5);
}

fn failed(reply: StoreReply) -> (u16, String) {
    match reply {
        StoreReply::Failed { status, error } => (status, error),
        _ => panic!("a failure was expected"),
    }
}

#[test]
fn without_a_database_nothing_changes() {
    let expected = (503, "Database not configured".to_string());
    assert_eq!(failed(create_store_catalog_item(false, &body("x")).err().unwrap()), expected);
    let updated = update_store_catalog_item(false, "x".to_string(), &body("x"));
    assert_eq!(failed(updated.err().unwrap()), expected);
    assert_eq!(failed(delete_store_catalog_item(false).err().unwrap()), expected);
}

#[test]
fn what_is_created_is_shown() {
    let record = create_store_catalog_item(true, &body("x")).ok().unwrap();
    let reply = created_reply(record, Ok(()));
    assert_eq!(reply.status(), 201);
    match reply {
        StoreReply::Item { item, .. } => assert_eq!(item.id, "x"),
        _ => panic!("an item was expected"),
    }
}

#[test]
fn an_update_goes_by_the_path() {
    let record = update_store_catalog_item(true, "path".to_string(), &body("body")).ok().unwrap();
    assert_eq!(record.item_id, "path");
    assert_eq!(record.name_key, "n");
    let reply = updated_reply(record, Ok(()));
    assert_eq!(reply.status(), 200);
}

#[test]
fn a_database_that_fails_is_reported() {
    let reason = || Err("locked".to_string());
    assert_eq!(failed(created_reply(record("x"), reason())), (500, "locked".to_string()));
    assert_eq!(failed(updated_reply(record("x"), reason())), (500, "locked".to_string()));
    assert_eq!(failed(deleted_reply(reason())), (500, "locked".to_string()));
    assert!(delete_store_catalog_item(true).is_ok());
    assert_eq!(deleted_reply(Ok(())).status(), 204);
}

#[test]
fn an_inspection_may_come_in_a_list() {
    assert_eq!(inspect_json(b"  [ {\"Id\":1} ]\n"), "{\"Id\":1}");
    assert_eq!(inspect_json(b"{\"Id\":1}\n"), "{\"Id\":1}");
    assert_eq!(inspect_json(b"[[x]]]"), "x");
    assert_eq!(inspect_json(b""), "");
    assert_eq!(inspect_json(b"\xff"), "\u{fffd}");
}

fn info(size: u64, digests: &[&str]) -> InspectResult {
    InspectResult {
        id: "sha256:id".to_string(),
        size,
        repo_digests: digests.iter().map(|s| s.to_string()).collect(),
    }
}

#[test]
fn the_digest_is_that_of_the_registry() {
    let meta = describe_image("reg.io/a/b:1", &info(1, &["other/x@sha256:1", "reg.io/a/b@sha256:2"]));
    assert_eq!(meta.image, "reg.io/a/b:1");
    assert_eq!(meta.digest.as_deref(), Some("reg.io/a/b@sha256:2"));
    assert_eq!(meta.digest_short.as_deref(), Some("sha256:2"));
    let meta = describe_image("reg.io/a/b:1", &info(1, &["other/x@sha256:1@z"]));
    assert_eq!(meta.digest.as_deref(), Some("other/x@sha256:1@z"));
    assert_eq!(meta.digest_short.as_deref(), Some("sha256:1"));
    let meta = describe_image("plain", &info(1, &["plainly"]));
    assert_eq!(meta.digest.as_deref(), Some("plainly"));
    assert_eq!(meta.digest_short, None);
    let meta = describe_image("plain", &info(1, &[]));
    assert_eq!(meta.digest, None);
    assert_eq!(meta.digest_short, None);
}

#[test]
fn sizes_are_rounded_to_tenths() {
    for size in [0u64, 1, 52428, 52429, 104857, 1048576, 1_500_000_000, 10_000_000_000_000] {
        let mib = (size as f64) / (1024.0 * 1024.0);
        let expected = (mib * 10.0).round() / 10.0;
        let meta = describe_image("x", &info(size, &[]));
        assert_eq!(meta.size_bytes, size);
        assert_eq!(meta.size_tenths as f64 / 10.0, expected);
    }
    assert_eq!(describe_image("x", &info(1_500_000_000, &[])).size_tenths, 14305);
}

#[test]
fn images_are_those_of_the_catalog_that_is_shown() {
    let images = collect_store_images(Some(vec![record("a"), record("b")]));
    assert_eq!(images, vec!["cn/repo:1", "cn/repo:1"]);
    let images = collect_store_images(None);
    assert_eq!(images.len(), 5);
    assert_eq!(images[0], fallback_catalog()[0].image_cn);
}

#[test]
fn images_that_are_not_there_are_left_out() {
    let a = describe_image("a", &info(1, &[]));
    let b = describe_image("b", &info(2, &[]));
    let meta = get_store_meta(vec![None, Some(a), None, Some(b)]);
    assert_eq!(meta.images.len(), 2);
    assert_eq!(meta.images[0].image, "a");
    assert_eq!(meta.images[1].image, "b");
}

#[test]
fn the_container_engine_is_asked_in_its_own_words() {
    assert_eq!(pull_args("x:1"), vec!["pull", "--quiet", "x:1"]);
    assert_eq!(
        inspect_args("x:1"),
        vec!["image", "inspect", "--format", "{{json .}}", "x:1"]
    );
}
