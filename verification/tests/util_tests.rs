use launcher_meta::util::{
    compatibility_cache_key, dependency_cache_key, minecraft_manifest_ttl_for_utc_day,
    normalize_list, now_iso, rate_limit_key, sorted_cache_list, unique_preserving_order,
    validate_minecraft,
};

fn strings(items: &[&str]) -> Vec<String> {
    items.iter().map(|s| s.to_string()).collect()
}

#[test]
fn normalizes_and_sorts_cache_lists() {
    let values = normalize_list(Some("modmenu, amber,modmenu"), &[]);
    assert_eq!(values, vec!["modmenu", "amber"]);
    assert_eq!(sorted_cache_list(&values), "amber,modmenu");
}

#[test]
fn builds_order_independent_cache_keys() {
    let left = vec!["modmenu".to_string(), "amber".to_string()];
    let right = vec!["amber".to_string(), "modmenu".to_string()];
    assert_eq!(
        dependency_cache_key("1.21.4", &left),
        dependency_cache_key("1.21.4", &right)
    );
    assert!(dependency_cache_key("1.21.4", &left).contains("mods="));

    let versions_left = vec!["1.21.4".to_string(), "1.20.1".to_string()];
    let versions_right = vec!["1.20.1".to_string(), "1.21.4".to_string()];
    assert_eq!(
        compatibility_cache_key(&left, &versions_left),
        compatibility_cache_key(&right, &versions_right)
    );
    assert!(compatibility_cache_key(&left, &versions_left).contains("mods="));
}

#[test]
fn validates_minecraft_versions() {
    assert!(validate_minecraft("1.21.4").is_ok());
    assert!(validate_minecraft("25w14craftmine").is_ok());
    assert!(validate_minecraft("../bad").is_err());
}

#[test]
fn minecraft_manifest_ttl_tracks_likely_release_days() {
    assert_eq!(minecraft_manifest_ttl_for_utc_day(2, 21_600), 300);
    assert_eq!(minecraft_manifest_ttl_for_utc_day(3, 21_600), 600);
    assert_eq!(minecraft_manifest_ttl_for_utc_day(4, 21_600), 1_800);
    assert_eq!(minecraft_manifest_ttl_for_utc_day(5, 21_600), 21_600);
}

#[test]
fn builds_stable_rate_limit_keys() {
    assert_eq!(rate_limit_key(" 203.0.113.10 ", "api"), "api:203.0.113.10");
}

#[test]
fn normalize_list_uses_defaults_without_input() {
    let values = normalize_list(None, &["forge", "neoforge", "forge"]);
    assert_eq!(values, vec!["forge", "neoforge"]);
}

#[test]
fn normalize_list_drops_empty_items() {
    let values = normalize_list(Some(" , a,,b , "), &["ignored"]);
    assert_eq!(values, vec!["a", "b"]);
    let none: Vec<String> = normalize_list(Some(""), &["ignored"]);
    assert!(none.is_empty());
}

#[test]
fn unique_preserving_order_keeps_first_occurrences() {
    let values = unique_preserving_order(strings(&["b", "a", "b", "c", "a"]));
    assert_eq!(values, vec!["b", "a", "c"]);
}

#[test]
fn normalized_list_has_no_duplicates() {
    let values = normalize_list(Some("x,y,x, y ,z,z"), &[]);
    assert_eq!(values, vec!["x", "y", "z"]);
}

#[test]
fn empty_cache_list_is_underscore() {
    assert_eq!(sorted_cache_list(&[]), "_");
    assert_eq!(dependency_cache_key("1.21.4", &[]), "dependencies/1.21.4?mods=_");
}

#[test]
fn cache_keys_have_exact_shapes() {
    let mods = strings(&["modmenu", "amber"]);
    let versions = strings(&["1.21.4", "1.20.1"]);
    assert_eq!(
        dependency_cache_key("1.21.4", &mods),
        "dependencies/1.21.4?mods=amber,modmenu"
    );
    assert_eq!(
        compatibility_cache_key(&mods, &versions),
        "compatibility?mods=amber,modmenu&minecraft=1.20.1,1.21.4"
    );
}

#[test]
fn sorted_cache_list_orders_by_text() {
    let values = strings(&["b", "B", "a", "ab", "a"]);
    assert_eq!(sorted_cache_list(&values), "B,a,a,ab,b");
}

#[test]
fn rate_limit_key_lowercases_ascii() {
    assert_eq!(rate_limit_key("\t2001:DB8::1\n", "refresh"), "refresh:2001:db8::1");
    assert_eq!(
        rate_limit_key("203.0.113.10", "api"),
        rate_limit_key("  203.0.113.10  ", "api")
    );
}

#[test]
fn validate_minecraft_reports_each_problem() {
    assert_eq!(
        validate_minecraft(""),
        Err("Minecraft version must be non-empty and at most 64 characters".to_string())
    );
    assert_eq!(
        validate_minecraft(&"1".repeat(65)),
        Err("Minecraft version must be non-empty and at most 64 characters".to_string())
    );
    assert!(validate_minecraft(&"1".repeat(64)).is_ok());
    assert_eq!(
        validate_minecraft("1.21 4"),
        Err("Minecraft version contains unsupported characters".to_string())
    );
    assert!(validate_minecraft("1.21.4-pre_1").is_ok());
}

#[test]
fn validate_minecraft_counts_bytes() {
    // 32 two-byte characters are 64 bytes but fail for the characters;
    // 33 of them are 66 bytes and fail for the length.
    assert_eq!(
        validate_minecraft(&"é".repeat(32)),
        Err("Minecraft version contains unsupported characters".to_string())
    );
    assert_eq!(
        validate_minecraft(&"é".repeat(33)),
        Err("Minecraft version must be non-empty and at most 64 characters".to_string())
    );
}

#[test]
fn other_days_keep_the_normal_ttl() {
    assert_eq!(minecraft_manifest_ttl_for_utc_day(0, 7), 7);
    assert_eq!(minecraft_manifest_ttl_for_utc_day(1, 7), 7);
    assert_eq!(minecraft_manifest_ttl_for_utc_day(6, 7), 7);
}

#[test]
fn now_iso_without_a_clock_is_the_epoch() {
    assert_eq!(now_iso(), "1970-01-01T00:00:00.000Z");
}
