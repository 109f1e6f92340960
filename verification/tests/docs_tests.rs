use launcher_meta::docs::api_docs;
use launcher_meta::handling::{route_request, JsonValue, RequestMethod, Route};

fn field<'a>(v: &'a JsonValue, name: &str) -> Option<&'a JsonValue> {
    match v {
        JsonValue::Object(fields) => fields.iter().find(|(k, _)| k == name).map(|(_, v)| v),
        _ => None,
    }
}

fn text(v: Option<&JsonValue>) -> Option<&str> {
    match v {
        Some(JsonValue::Text(t)) => Some(t.as_str()),
        _ => None,
    }
}

fn number(v: Option<&JsonValue>) -> Option<&str> {
    match v {
        Some(JsonValue::Number(t)) => Some(t.as_str()),
        _ => None,
    }
}

fn endpoint_paths(docs: &JsonValue) -> Vec<&str> {
    let endpoints = match field(docs, "endpoints") {
        Some(JsonValue::Array(items)) => items,
        _ => panic!("endpoints should be an array"),
    };
    endpoints.iter().map(|e| text(field(e, "path")).unwrap()).collect()
}

#[test]
fn docs_include_all_public_endpoints() {
    let docs = api_docs();
    let paths = endpoint_paths(&docs);

    assert!(paths.contains(&"/v1"));
    assert!(paths.contains(&"/v1/health"));
    assert!(paths.contains(&"/v1/minecraft/versions"));
    assert!(paths.contains(&"/v1/loaders/{minecraft}"));
    assert!(paths.contains(&"/v1/dependencies/{minecraft}"));
    assert!(paths.contains(&"/v1/mods/compatibility"));
}

#[test]
fn documented_paths_are_routed() {
    let docs = api_docs();
    for path in endpoint_paths(&docs) {
        let route = route_request(RequestMethod::Get, path);
        assert!(route != Route::Unknown && route != Route::OutsideApi, "{path}");
    }
}

#[test]
fn docs_state_the_limits() {
    let docs = api_docs();
    let limits = field(&docs, "request_limits");
    let mods = limits.and_then(|l| field(l, "mods"));
    assert_eq!(number(mods.and_then(|m| field(m, "max_entries"))), Some("32"));
    assert_eq!(number(mods.and_then(|m| field(m, "max_id_length"))), Some("128"));
    let versions = limits.and_then(|l| field(l, "compatibility_minecraft_versions"));
    assert_eq!(number(versions.and_then(|v| field(v, "max_entries"))), Some("16"));
    let rates = field(&docs, "rate_limits");
    let general = rates.and_then(|r| field(r, "general_api"));
    assert_eq!(number(general.and_then(|g| field(g, "limit"))), Some("300"));
    let refresh = rates.and_then(|r| field(r, "refresh"));
    assert_eq!(number(refresh.and_then(|g| field(g, "limit"))), Some("30"));
    let cache = field(&docs, "cache");
    assert_eq!(text(cache.and_then(|c| field(c, "loaders"))), Some("1800 seconds"));
    let mc = cache.and_then(|c| field(c, "minecraft_versions"));
    assert_eq!(text(mc.and_then(|m| field(m, "normal"))), Some("21600 seconds"));
    assert_eq!(text(mc.and_then(|m| field(m, "tuesday_utc"))), Some("300 seconds"));
    assert_eq!(text(field(&docs, "name")), Some("launcher-meta"));
}
