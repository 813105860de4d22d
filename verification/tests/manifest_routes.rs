use bird_routes::manifest::accept_manifest;
use bird_routes::reply::Reply;

fn s(t: &str) -> String {
    String::from(t)
}

fn post(content_type: &str, body: &str) -> Reply {
    let ct = s(content_type);
    let b = s(body);
    accept_manifest(Some(&ct), Some(&b))
}

const GOOD_TOML: &str = "[package]\nname = \"not-a-gift-order\"\nauthors = [\"Not Santa\"]\nkeywords = [\"Christmas 2024\"]\n\n[[package.metadata.orders]]\nitem = \"Toy car\"\nquantity = 2\n\n[[package.metadata.orders]]\nitem = \"Lego brick\"\nquantity = 230\n";

#[test]
fn toml_orders_are_listed() {
    let r = post("application/toml", GOOD_TOML);
    assert_eq!(r.status, 200);
    assert_eq!(r.body, "Toy car: 2\nLego brick: 230");
}

#[test]
fn malformed_entries_are_dropped() {
    let body = "{\"package\":{\"name\":\"gift\",\"keywords\":[\"Christmas 2024\"],\"metadata\":{\"orders\":[{\"item\":\"Toy Train\",\"quantity\":5},{\"item\":\"Bad\",\"quantity\":\"not-a-number\"}]}}}";
    let r = post("application/json", body);
    assert_eq!(r.status, 200);
    assert_eq!(r.body, "Toy Train: 5");
}

#[test]
fn quantity_out_of_range_is_dropped() {
    let body = "{\"package\":{\"name\":\"gift\",\"keywords\":[\"Christmas 2024\"],\"metadata\":{\"orders\":[{\"item\":\"Over\",\"quantity\":4294967296},{\"item\":\"Under\",\"quantity\":-1},{\"item\":\"Max\",\"quantity\":4294967295}]}}}";
    let r = post("application/json", body);
    assert_eq!(r.status, 200);
    assert_eq!(r.body, "Max: 4294967295");
}

#[test]
fn malformed_json_is_invalid_manifest() {
    let r = post("application/json", "{ not json");
    assert_eq!(r.status, 400);
    assert_eq!(r.body, "Invalid manifest");
}

#[test]
fn malformed_toml_is_invalid_manifest() {
    let r = post("application/toml", "[package\nname=");
    assert_eq!(r.status, 400);
    assert_eq!(r.body, "Invalid manifest");
}

#[test]
fn missing_keywords_is_rejected_in_every_format() {
    let toml_body = "[package]\nname = \"gift\"\n";
    let r = post("application/toml", toml_body);
    assert_eq!(r.status, 400);
    assert_eq!(r.body, "Magic keyword not provided");
    let yaml_body = "package:\n  name: gift\n";
    let r = post("application/yaml", yaml_body);
    assert_eq!(r.status, 400);
    assert_eq!(r.body, "Magic keyword not provided");
    let json_body = "{\"package\":{\"name\":\"gift\"}}";
    let r = post("application/json", json_body);
    assert_eq!(r.status, 400);
    assert_eq!(r.body, "Magic keyword not provided");
}

#[test]
fn wrong_keyword_is_rejected_in_every_format() {
    let toml_body = "[package]\nname = \"gift\"\nkeywords = [\"Christmas 2023\"]\n";
    let r = post("application/toml", toml_body);
    assert_eq!(r.status, 400);
    assert_eq!(r.body, "Magic keyword not provided");
    let yaml_body = "package:\n  name: gift\n  keywords:\n    - Christmas 2023\n";
    let r = post("application/yaml", yaml_body);
    assert_eq!(r.status, 400);
    assert_eq!(r.body, "Magic keyword not provided");
    let json_body = "{\"package\":{\"name\":\"gift\",\"keywords\":[\"Christmas 2023\"]}}";
    let r = post("application/json", json_body);
    assert_eq!(r.status, 400);
    assert_eq!(r.body, "Magic keyword not provided");
}

#[test]
fn inherited_keywords_are_rejected() {
    let toml_body = "[package]\nname = \"gift\"\nkeywords.workspace = true\n";
    let r = post("application/toml", toml_body);
    assert_eq!(r.status, 400);
    assert_eq!(r.body, "Magic keyword not provided");
}

#[test]
fn keyword_without_metadata_is_no_content() {
    let toml_body = "[package]\nname = \"gift\"\nkeywords = [\"Christmas 2024\"]\n";
    let r = post("application/toml", toml_body);
    assert_eq!(r.status, 204);
    assert_eq!(r.body, "");
}

#[test]
fn metadata_without_orders_is_no_content() {
    let toml_body = "[package]\nname = \"gift\"\nkeywords = [\"Christmas 2024\"]\n\n[package.metadata]\nstuff = 1\n";
    let r = post("application/toml", toml_body);
    assert_eq!(r.status, 204);
    assert_eq!(r.body, "");
}

#[test]
fn empty_orders_list_is_no_content() {
    let body = "{\"package\":{\"name\":\"gift\",\"keywords\":[\"Christmas 2024\"],\"metadata\":{\"orders\":[]}}}";
    let r = post("application/json", body);
    assert_eq!(r.status, 204);
    assert_eq!(r.body, "");
}

#[test]
fn only_malformed_orders_is_no_content() {
    let body = "{\"package\":{\"name\":\"gift\",\"keywords\":[\"Christmas 2024\"],\"metadata\":{\"orders\":[{\"item\":7,\"quantity\":5},{\"quantity\":5},{\"item\":\"x\"}]}}}";
    let r = post("application/json", body);
    assert_eq!(r.status, 204);
    assert_eq!(r.body, "");
}

#[test]
fn manifest_without_package_is_no_content() {
    let r = post("application/json", "{}");
    assert_eq!(r.status, 204);
    assert_eq!(r.body, "");
    let r = post("application/toml", "[workspace]\n");
    assert_eq!(r.status, 204);
    assert_eq!(r.body, "");
}

#[test]
fn yaml_orders_are_listed() {
    let yaml_body = "package:\n  name: gift\n  keywords:\n    - Christmas 2024\n  metadata:\n    orders:\n      - item: Sled\n        quantity: 3\n";
    let r = post("application/yaml", yaml_body);
    assert_eq!(r.status, 200);
    assert_eq!(r.body, "Sled: 3");
}

#[test]
fn unknown_content_type_is_unsupported() {
    let r = post("text/plain", GOOD_TOML);
    assert_eq!(r.status, 415);
    assert_eq!(r.body, "");
    let b = s(GOOD_TOML);
    let r = accept_manifest(None, Some(&b));
    assert_eq!(r.status, 415);
    assert_eq!(r.body, "");
}

#[test]
fn unreadable_body_is_no_content() {
    let ct = s("application/toml");
    let r = accept_manifest(Some(&ct), None);
    assert_eq!(r.status, 204);
    assert_eq!(r.body, "");
}

#[test]
fn formats_agree_with_metadata_present() {
    let toml_r = post("application/toml", GOOD_TOML);
    let yaml_body = "package:\n  name: not-a-gift-order\n  authors:\n    - Not Santa\n  keywords:\n    - Christmas 2024\n  metadata:\n    orders:\n      - item: Toy car\n        quantity: 2\n      - item: Lego brick\n        quantity: 230\n";
    let yaml_r = post("application/yaml", yaml_body);
    let json_body = "{\"package\":{\"name\":\"not-a-gift-order\",\"authors\":[\"Not Santa\"],\"keywords\":[\"Christmas 2024\"],\"metadata\":{\"orders\":[{\"item\":\"Toy car\",\"quantity\":2},{\"item\":\"Lego brick\",\"quantity\":230}]}}}";
    let json_r = post("application/json", json_body);
    assert_eq!(toml_r.status, 200);
    assert_eq!(yaml_r.status, toml_r.status);
    assert_eq!(json_r.status, toml_r.status);
    assert_eq!(yaml_r.body, toml_r.body);
    assert_eq!(json_r.body, toml_r.body);
}
