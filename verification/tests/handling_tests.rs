use launcher_meta::handling::{
    allowed_query_keys, authorization_header, cache_control, cache_setting, cache_url,
    client_rate_limit_id, compatibility_request, contains_error_status, dependencies_request,
    health_checks, health_data, loaders_cache_key, needs_rate_limit, payload_is_cacheable,
    refresh_requested, route_request, ttl_from_var, upstream_status_error,
    validate_compatibility_minecraft_versions, validate_mods, validate_query_keys, JsonValue,
    RequestMethod, Route,
};
use launcher_meta::service::UpstreamConfig;
use launcher_meta::handling::{
    rate_limit_outcome, refresh_limit_applies, replay_cached, store_response, BUILD_FAILURE_STATUS,
};

const TIMESTAMP: &str = "2026-05-28T00:00:00.000Z";

fn text(s: &str) -> JsonValue {
    JsonValue::Text(s.to_string())
}

fn object(fields: Vec<(&str, JsonValue)>) -> JsonValue {
    JsonValue::Object(fields.into_iter().map(|(k, v)| (k.to_string(), v)).collect())
}

fn strings(items: &[&str]) -> Vec<String> {
    items.iter().map(|s| s.to_string()).collect()
}

/// The serialized envelope of a successful response around `data`.
fn success_envelope(data: JsonValue) -> JsonValue {
    object(vec![
        ("success", JsonValue::Bool(true)),
        ("data", data),
        ("timestamp", text(TIMESTAMP)),
        ("cached_at", text(TIMESTAMP)),
    ])
}

/// The serialized form of a Forge loader item with the given status.
fn forge_loader_json(status: &str, error: Option<&str>) -> JsonValue {
    let mut fields = vec![
        ("loader", text("forge")),
        ("status", text(status)),
        ("version", JsonValue::Null),
        ("maven", JsonValue::Null),
        (
            "source",
            text("https://files.minecraftforge.net/net/minecraftforge/forge/maven-metadata.json"),
        ),
    ];
    if let Some(e) = error {
        fields.push(("error", text(e)));
    }
    object(fields)
}

#[test]
fn cacheable_payload_rejects_item_level_errors() {
    let payload = success_envelope(object(vec![(
        "dependencies",
        JsonValue::Array(vec![object(vec![
            ("id", text("loom")),
            ("status", text("error")),
            ("error", text("TimeoutError")),
        ])]),
    )]));
    assert!(!payload_is_cacheable(true, Some(&payload)));
}

#[test]
fn cacheable_payload_allows_unavailable_items() {
    let payload = success_envelope(object(vec![(
        "dependencies",
        JsonValue::Array(vec![object(vec![
            ("id", text("rei")),
            ("status", text("unavailable")),
        ])]),
    )]));
    assert!(payload_is_cacheable(true, Some(&payload)));
}

#[test]
fn cacheable_payload_rejects_route_errors() {
    let payload = object(vec![
        ("success", JsonValue::Bool(false)),
        ("error", text("upstream aggregation failure")),
        ("timestamp", text(TIMESTAMP)),
    ]);
    assert!(!payload_is_cacheable(false, Some(&payload)));
}

#[test]
fn cacheable_payload_rejects_loader_item_errors() {
    let payload = success_envelope(object(vec![
        ("minecraft", text("26.1.2")),
        (
            "loaders",
            JsonValue::Array(vec![forge_loader_json("error", Some("TimeoutError"))]),
        ),
    ]));
    assert!(!payload_is_cacheable(true, Some(&payload)));
}

#[test]
fn cacheable_payload_allows_unavailable_loader_items() {
    let payload = success_envelope(object(vec![
        ("minecraft", text("26.1.2")),
        ("loaders", JsonValue::Array(vec![forge_loader_json("unavailable", None)])),
    ]));
    assert!(payload_is_cacheable(true, Some(&payload)));
}

#[test]
fn unserializable_payload_is_not_cacheable() {
    assert!(!payload_is_cacheable(true, None));
}

#[test]
fn error_status_is_found_at_any_depth() {
    let deep = JsonValue::Array(vec![
        JsonValue::Number("1".to_string()),
        object(vec![("a", object(vec![("b", JsonValue::Array(vec![object(vec![("status", text("error"))])]))]))]),
    ]);
    assert!(contains_error_status(&deep));
    assert!(!contains_error_status(&text("error")));
    assert!(!contains_error_status(&object(vec![("status", JsonValue::Bool(true))])));
    assert!(!contains_error_status(&object(vec![("state", text("error"))])));
    assert!(!contains_error_status(&JsonValue::Null));
}

#[test]
fn health_counts_errors() {
    let results = vec![
        ("mojang".to_string(), "ok".to_string()),
        ("fabric".to_string(), "error".to_string()),
        ("forge".to_string(), "error".to_string()),
        ("neoforge".to_string(), "error".to_string()),
    ];
    let health = health_data(results.clone());
    assert_eq!(health.status, "ok");
    assert_eq!(health.upstream[0], ("fabric".to_string(), "error".to_string()));
    assert_eq!(health.upstream.len(), 4);
    let mut worse = results;
    worse.push(("modrinth".to_string(), "error".to_string()));
    assert_eq!(health_data(worse).status, "degraded");
    let repeated = vec![
        ("a".to_string(), "error".to_string()),
        ("a".to_string(), "error".to_string()),
        ("a".to_string(), "error".to_string()),
        ("a".to_string(), "error".to_string()),
        ("b".to_string(), "ok".to_string()),
    ];
    let health = health_data(repeated);
    assert_eq!(health.status, "ok");
    assert_eq!(health.upstream.len(), 2);
}

#[test]
fn client_ids_come_from_headers() {
    assert_eq!(client_rate_limit_id(Some(" 1.2.3.4 , 5.6.7.8"), Some("9.9.9.9")), "1.2.3.4");
    assert_eq!(client_rate_limit_id(None, Some("9.9.9.9, 1.1.1.1")), "9.9.9.9");
    assert_eq!(client_rate_limit_id(Some(" "), Some("9.9.9.9")), "local");
    assert_eq!(client_rate_limit_id(None, None), "local");
}

#[test]
fn ttl_settings() {
    assert_eq!(ttl_from_var(Some("120"), 5), 120);
    assert_eq!(ttl_from_var(Some("-1"), 5), 5);
    assert_eq!(ttl_from_var(Some("abc"), 5), 5);
    assert_eq!(ttl_from_var(Some("18446744073709551616"), 5), 5);
    assert_eq!(ttl_from_var(None, 5), 5);
}

#[test]
fn cache_urls_and_headers() {
    assert_eq!(
        cache_url("loaders/1.21.1"),
        "https://launcher-meta-cache.invalid/v1/loaders/1.21.1"
    );
    assert_eq!(cache_control(1800), "public, max-age=1800, stale-while-revalidate=1800");
    assert_eq!(cache_control(0), "public, max-age=0, stale-while-revalidate=0");
    assert!(refresh_requested(Some("1")));
    assert!(!refresh_requested(Some("true")));
    assert!(!refresh_requested(None));
}

#[test]
fn authorization_only_for_modrinth() {
    let config = UpstreamConfig { modrinth_token: Some("abc".to_string()) };
    assert_eq!(
        authorization_header("https://api.modrinth.com/v2/project/amber", &config).as_deref(),
        Some("Bearer abc")
    );
    assert_eq!(authorization_header("https://meta.fabricmc.net/v2", &config), None);
    assert_eq!(
        authorization_header("https://api.modrinth.com/v2", &UpstreamConfig { modrinth_token: None }),
        None
    );
}

#[test]
fn upstream_statuses() {
    assert_eq!(upstream_status_error(200), None);
    assert_eq!(upstream_status_error(299), None);
    assert_eq!(upstream_status_error(404).as_deref(), Some("upstream returned HTTP 404"));
    assert_eq!(upstream_status_error(199).as_deref(), Some("upstream returned HTTP 199"));
}

#[test]
fn routes() {
    assert_eq!(route_request(RequestMethod::Options, "/anything"), Route::Preflight);
    assert_eq!(route_request(RequestMethod::Other, "/v1"), Route::MethodNotAllowed);
    assert_eq!(route_request(RequestMethod::Get, "/"), Route::OutsideApi);
    assert_eq!(route_request(RequestMethod::Get, "/v2/health"), Route::OutsideApi);
    assert_eq!(route_request(RequestMethod::Get, "/v1"), Route::Docs);
    assert_eq!(route_request(RequestMethod::Get, "/v1/"), Route::Docs);
    assert_eq!(route_request(RequestMethod::Get, "/v1/health"), Route::Health);
    assert_eq!(
        route_request(RequestMethod::Get, "/v1/minecraft/versions"),
        Route::MinecraftVersions
    );
    assert_eq!(
        route_request(RequestMethod::Get, "/v1/loaders/1.21.1"),
        Route::Loaders("1.21.1".to_string())
    );
    assert_eq!(
        route_request(RequestMethod::Get, "/v1/dependencies/1.20.1/"),
        Route::Dependencies("1.20.1".to_string())
    );
    assert_eq!(
        route_request(RequestMethod::Get, "/v1/mods/compatibility"),
        Route::Compatibility
    );
    assert_eq!(route_request(RequestMethod::Get, "/v1/mods"), Route::Unknown);
    assert_eq!(route_request(RequestMethod::Get, "/v1/loaders/a/b"), Route::Unknown);
}

#[test]
fn query_keys() {
    assert_eq!(validate_query_keys(&strings(&["mods"]), &["mods"]), Ok(()));
    assert_eq!(validate_query_keys(&[], &[]), Ok(()));
    assert_eq!(
        validate_query_keys(&strings(&["mods", "x", "y"]), &["mods"]),
        Err("unsupported query parameter: x".to_string())
    );
}

#[test]
fn mod_limits() {
    assert_eq!(validate_mods(&strings(&["amber", "fabric-api", "a_b"])), Ok(()));
    assert_eq!(validate_mods(&[]), Ok(()));
    let too_many: Vec<String> = (0..33).map(|i| format!("m{i}")).collect();
    assert_eq!(validate_mods(&too_many), Err("at most 32 mods may be requested".to_string()));
    let bad = "mod ids must be 1 to 128 ASCII letters, digits, hyphens or underscores".to_string();
    assert_eq!(validate_mods(&strings(&["ok", "no.dots"])), Err(bad.clone()));
    assert_eq!(validate_mods(&["x".repeat(129)]), Err(bad.clone()));
    assert_eq!(validate_mods(&["x".repeat(128)]), Ok(()));
    assert_eq!(validate_mods(&strings(&[""])), Err(bad));
}

#[test]
fn compatibility_version_limits() {
    assert_eq!(validate_compatibility_minecraft_versions(&strings(&["1.21.1", "1.20.1"])), Ok(()));
    let too_many: Vec<String> = (0..17).map(|i| format!("1.{i}")).collect();
    assert_eq!(
        validate_compatibility_minecraft_versions(&too_many),
        Err("at most 16 Minecraft versions may be requested".to_string())
    );
    assert_eq!(
        validate_compatibility_minecraft_versions(&strings(&["1.21.1", "../x", ""])),
        Err("Minecraft version contains unsupported characters".to_string())
    );
}

#[test]
fn dependency_requests_default_to_the_default_projects() {
    assert_eq!(
        dependencies_request(None),
        Ok(strings(&[
            "amber",
            "fabric-api",
            "modmenu",
            "rei",
            "architectury-api",
            "forge-config-api-port"
        ]))
    );
    assert_eq!(dependencies_request(Some("sodium, sodium,iris")), Ok(strings(&["sodium", "iris"])));
    assert_eq!(dependencies_request(Some("")), Ok(Vec::new()));
    assert_eq!(
        dependencies_request(Some("bad/id")),
        Err("mod ids must be 1 to 128 ASCII letters, digits, hyphens or underscores".to_string())
    );
}

#[test]
fn compatibility_requests() {
    assert_eq!(
        compatibility_request(Some("modmenu, amber"), Some("1.21.4,1.21.1,1.21.4")),
        Ok((strings(&["modmenu", "amber"]), strings(&["1.21.4", "1.21.1"])))
    );
    assert_eq!(
        compatibility_request(None, Some("1.21.4")),
        Err("mods query parameter is required".to_string())
    );
    assert_eq!(
        compatibility_request(None, None),
        Err("mods query parameter is required".to_string())
    );
    assert_eq!(
        compatibility_request(Some("amber"), None),
        Err("minecraft query parameter is required".to_string())
    );
    assert_eq!(
        compatibility_request(Some(" , "), Some("1.21.4")),
        Err("mods and minecraft query parameters must not be empty".to_string())
    );
    assert_eq!(
        compatibility_request(Some("a.b"), Some("../x")),
        Err("mod ids must be 1 to 128 ASCII letters, digits, hyphens or underscores".to_string())
    );
    assert_eq!(
        compatibility_request(Some("amber"), Some("../x")),
        Err("Minecraft version contains unsupported characters".to_string())
    );
}

#[test]
fn route_settings() {
    assert!(allowed_query_keys(&Route::Docs).is_empty());
    assert_eq!(allowed_query_keys(&Route::Dependencies("1.21.1".to_string())), vec!["mods"]);
    assert_eq!(allowed_query_keys(&Route::Compatibility), vec!["minecraft", "mods"]);
    assert!(needs_rate_limit(&Route::Health));
    assert!(needs_rate_limit(&Route::Unknown));
    assert!(!needs_rate_limit(&Route::Preflight));
    assert!(!needs_rate_limit(&Route::OutsideApi));
    assert_eq!(cache_setting(&Route::Docs), None);
    assert_eq!(cache_setting(&Route::Health), None);
    assert_eq!(cache_setting(&Route::MinecraftVersions), Some(("CACHE_TTL_MINECRAFT", 21_600)));
    assert_eq!(
        cache_setting(&Route::Loaders("1.21.1".to_string())),
        Some(("CACHE_TTL_LOADERS", 1_800))
    );
    assert_eq!(cache_setting(&Route::Compatibility), Some(("CACHE_TTL_COMPATIBILITY", 1_800)));
    assert_eq!(loaders_cache_key("1.21.1"), "loaders/1.21.1");
}

#[test]
fn health_checks_cover_every_upstream() {
    let names: Vec<&str> = health_checks().iter().map(|(name, _)| *name).collect();
    assert_eq!(
        names,
        vec!["mojang", "fabric", "forge", "neoforge", "modrinth", "parchment", "maven_plugins"]
    );
    assert_eq!(health_checks()[4].1, "https://api.modrinth.com/v2/tag/game_version");
}

#[test]
fn every_api_get_is_rate_limited() {
    for path in ["/v1", "/v1/health", "/v1/nothing/here", "/v1/loaders/x"] {
        assert!(needs_rate_limit(&route_request(RequestMethod::Get, path)));
        assert!(!needs_rate_limit(&route_request(RequestMethod::Options, path)));
    }
}

#[test]
fn ttl_accepts_a_leading_plus() {
    assert_eq!(ttl_from_var(Some("+7"), 5), 7);
}

#[test]
fn rate_limit_refusals() {
    assert_eq!(
        rate_limit_outcome(false, None).as_deref(),
        Some("rate limit exceeded: 300 requests per minute")
    );
    assert_eq!(
        rate_limit_outcome(false, Some(false)).as_deref(),
        Some("rate limit exceeded: 300 requests per minute")
    );
    assert_eq!(
        rate_limit_outcome(true, Some(false)).as_deref(),
        Some("rate limit exceeded: 30 refreshes per minute")
    );
    assert_eq!(rate_limit_outcome(true, Some(true)), None);
    assert_eq!(rate_limit_outcome(true, None), None);
    assert!(refresh_limit_applies(true, Some("1")));
    assert!(!refresh_limit_applies(false, Some("1")));
    assert!(!refresh_limit_applies(true, Some("0")));
    assert!(!refresh_limit_applies(true, None));
}

#[test]
fn cache_steps() {
    assert!(replay_cached(false, true));
    assert!(!replay_cached(true, true));
    assert!(!replay_cached(false, false));
    assert!(store_response(200, true));
    assert!(!store_response(200, false));
    assert!(!store_response(500, true));
    assert_eq!(BUILD_FAILURE_STATUS, 500);
}
