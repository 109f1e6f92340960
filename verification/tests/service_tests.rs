use launcher_meta::service::{
    compatibility_data, compatibility_nulls, dependency_error, dependency_ids, dependency_plan,
    fabric_loader_item, fabric_loader_url, forge_loader_item, is_unobfuscated_minecraft,
    latest_maven_item, loader_dependency, loader_error, loom_item, maven_dependency_item,
    modrinth_item, modrinth_project_url, modrinth_versions_url, neoforge_loader_item,
    neoform_item, newest_version_number, parchment_candidate_item, parchment_candidates,
    parchment_not_found, parchment_unavailable, parchment_urls, best_listed_version,
    DependencyPlan, ModrinthVersion, UpstreamConfig, VersionFilter,
};
use launcher_meta::service::{dependency_kind, forgegradle_item, loader_plan_item, moddev_gradle_item};
use launcher_meta::types::{ItemStatus, LoaderItem, LoaderVersions};
use launcher_meta::versioning::{FabricComponent, FabricMetadata};

fn strings(items: &[&str]) -> Vec<String> {
    items.iter().map(|s| s.to_string()).collect()
}

fn version(number: &str, date: &str, loaders: &[&str]) -> ModrinthVersion {
    ModrinthVersion {
        version_number: number.to_string(),
        date_published: date.to_string(),
        loaders: strings(loaders),
    }
}

#[test]
fn compatibility_null_shape_contains_requested_entries() {
    let mods = vec!["amber".to_string()];
    let versions = vec!["1.21.1".to_string(), "1.21.4".to_string()];
    let data = compatibility_nulls(&mods, &versions);
    assert!(data.get("amber", "1.21.1").unwrap().fabric.is_none());
    assert!(data.get("amber", "1.21.4").unwrap().forge.is_none());
}

#[test]
fn detects_unobfuscated_minecraft_versions() {
    assert!(!is_unobfuscated_minecraft("1.21.4"));
    assert!(!is_unobfuscated_minecraft("26.0"));
    assert!(is_unobfuscated_minecraft("26.1"));
    assert!(is_unobfuscated_minecraft("26.1.2"));
    assert!(is_unobfuscated_minecraft("26.2-pre-1"));
    assert!(is_unobfuscated_minecraft("27.0"));
}

#[test]
fn unobfuscated_needs_two_numbers() {
    assert!(!is_unobfuscated_minecraft("27"));
    assert!(!is_unobfuscated_minecraft("26.x"));
    assert!(!is_unobfuscated_minecraft("25w14craftmine"));
    assert!(!is_unobfuscated_minecraft(""));
}

#[test]
fn compatibility_nulls_lists_every_pair() {
    let mods = strings(&["modmenu", "amber"]);
    let versions = strings(&["1.21.4", "1.20.1"]);
    let data = compatibility_nulls(&mods, &versions);
    assert_eq!(data.projects.len(), 2);
    assert_eq!(data.projects[0].0, "amber");
    assert_eq!(data.projects[1].0, "modmenu");
    assert_eq!(data.projects[0].1[0].0, "1.20.1");
    assert_eq!(data.get("modmenu", "1.20.1"), Some(&LoaderVersions::default()));
    assert_eq!(data.get("modmenu", "1.19.2"), None);
    assert_eq!(data.get("rei", "1.20.1"), None);
}

#[test]
fn compatibility_data_keeps_the_last_entry_per_pair() {
    let first = LoaderVersions { forge: Some("1".to_string()), neoforge: None, fabric: None };
    let second = LoaderVersions { forge: None, neoforge: None, fabric: Some("2".to_string()) };
    let entries = vec![
        ("amber".to_string(), "1.21.1".to_string(), first.clone()),
        ("amber".to_string(), "1.21.1".to_string(), second.clone()),
        ("rei".to_string(), "1.20.1".to_string(), first.clone()),
    ];
    let data = compatibility_data(entries);
    assert_eq!(data.get("amber", "1.21.1"), Some(&second));
    assert_eq!(data.get("rei", "1.20.1"), Some(&first));
    assert_eq!(data.get("rei", "1.21.1"), None);
}

#[test]
fn error_items_carry_their_message() {
    let item = dependency_error(
        "bad-project",
        "mod",
        "https://modrinth.com/mod/bad-project",
        "not found",
    );
    assert_eq!(item.status, ItemStatus::Error);
    assert_eq!(item.error.as_deref(), Some("not found"));
    assert_eq!(item.id, "bad-project");
    assert_eq!(item.loader_versions, LoaderVersions::default());
    let loader = loader_error("forge", "src", "boom".to_string());
    assert_eq!(loader.status, ItemStatus::Error);
    assert_eq!(loader.error.as_deref(), Some("boom"));
    assert_eq!(loader.version, None);
}

#[test]
fn loader_dependency_records_the_loader_version() {
    let loader = LoaderItem {
        loader: "neoforge".to_string(),
        status: ItemStatus::Okay,
        version: Some("21.1.1".to_string()),
        maven: Some("net.neoforged:neoforge:21.1.1:installer".to_string()),
        source: "src".to_string(),
        error: None,
    };
    let item = loader_dependency("neoforge", "loader", loader);
    assert_eq!(item.loader_versions.neoforge.as_deref(), Some("21.1.1"));
    assert_eq!(item.loader_versions.forge, None);
    assert_eq!(item.coordinates.as_deref(), Some("net.neoforged:neoforge:21.1.1:installer"));
    assert_eq!(item.id, "neoforge");
    assert_eq!(item.kind, "loader");
}

#[test]
fn parchment_candidates_count_down_the_patch() {
    assert_eq!(
        parchment_candidates("1.21.4"),
        vec!["1.21.4", "1.21.3", "1.21.2", "1.21.1", "1.21.0"]
    );
    assert_eq!(parchment_candidates("1.21"), vec!["1.21"]);
    assert_eq!(parchment_candidates("1.20.1-pre2"), vec!["1.20.1-pre2", "1.20.0"]);
    assert_eq!(parchment_candidates("1.20.x"), vec!["1.20.x"]);
}

#[test]
fn parchment_urls_follow_the_candidates() {
    assert_eq!(parchment_urls("26.1"), None);
    let urls = parchment_urls("1.20.1").unwrap();
    assert_eq!(
        urls,
        vec![
            "https://ldtteam.jfrog.io/artifactory/parchmentmc-public/org/parchmentmc/data/parchment-1.20.1/maven-metadata.xml",
            "https://ldtteam.jfrog.io/artifactory/parchmentmc-public/org/parchmentmc/data/parchment-1.20.0/maven-metadata.xml",
        ]
    );
}

#[test]
fn parchment_candidate_skips_nightlies_and_snapshots() {
    let body = "<version>2024.06.16</version><version>2024.07.28</version><version>2024.08.01-nightly-SNAPSHOT</version>";
    let item = parchment_candidate_item("u", Ok(body.to_string())).unwrap();
    assert_eq!(item.version.as_deref(), Some("2024.07.28"));
    assert_eq!(item.status, ItemStatus::Okay);
    assert_eq!(item.source, "u");
    assert!(parchment_candidate_item("u", Err("down".to_string())).is_none());
    assert!(parchment_candidate_item("u", Ok("<version>1-SNAPSHOT</version>".to_string())).is_none());
    assert_eq!(parchment_unavailable().status, ItemStatus::Unavailable);
    assert_eq!(parchment_not_found().error.as_deref(), Some("no Parchment version found"));
}

#[test]
fn fabric_items_from_metadata() {
    assert_eq!(
        fabric_loader_url("1.21.1"),
        "https://meta.fabricmc.net/v2/versions/loader/1.21.1"
    );
    let metadata = FabricMetadata {
        loader: FabricComponent {
            maven: "net.fabricmc:fabric-loader:0.16.14".to_string(),
            version: Some("0.16.14".to_string()),
        },
    };
    let item = fabric_loader_item("1.21.1", Ok(metadata));
    assert_eq!(item.status, ItemStatus::Okay);
    assert_eq!(item.version.as_deref(), Some("0.16.14"));
    assert_eq!(item.maven.as_deref(), Some("net.fabricmc:fabric-loader:0.16.14"));
    assert_eq!(item.source, "https://meta.fabricmc.net/v2/versions/loader/1.21.1");
    let failed = fabric_loader_item("1.21.1", Err("timeout".to_string()));
    assert_eq!(failed.status, ItemStatus::Error);
    assert_eq!(failed.error.as_deref(), Some("timeout"));
}

#[test]
fn forge_item_uses_the_installer_version() {
    let body = r#"{"1.21.1": ["52.0.1", "52.1.0"]}"#.to_string();
    let item = forge_loader_item("1.21.1", Ok(body.clone()));
    assert_eq!(item.version.as_deref(), Some("1.21.1-52.1.0"));
    assert_eq!(item.maven.as_deref(), Some("net.minecraftforge:forge:1.21.1-52.1.0:installer"));
    let missing = forge_loader_item("1.20.1", Ok(body));
    assert_eq!(missing.error.as_deref(), Some("no Forge loader found for Minecraft 1.20.1"));
    let failed = forge_loader_item("1.20.1", Err("upstream returned HTTP 500".to_string()));
    assert_eq!(failed.error.as_deref(), Some("upstream returned HTTP 500"));
}

#[test]
fn neoforge_item_uses_the_source_group() {
    let modern = "<version>21.1.5</version><version>21.1.231</version>".to_string();
    let item = neoforge_loader_item("1.21.1", Ok(modern));
    assert_eq!(item.version.as_deref(), Some("21.1.231"));
    assert_eq!(item.maven.as_deref(), Some("net.neoforged:neoforge:21.1.231:installer"));
    let legacy = "<version>47.1.82</version><version>1.20.1-47.1.106</version>".to_string();
    let item = neoforge_loader_item("1.20.1", Ok(legacy));
    assert_eq!(item.version.as_deref(), Some("1.20.1-47.1.106"));
    assert_eq!(item.maven.as_deref(), Some("net.neoforged:forge:1.20.1-47.1.106:installer"));
    assert!(item.source.contains("net/neoforged/forge"));
    let none = neoforge_loader_item("1.19.2", Ok("<version>21.1.5</version>".to_string()));
    assert_eq!(none.error.as_deref(), Some("no NeoForge loader found for Minecraft 1.19.2"));
}

#[test]
fn maven_items_choose_the_greatest_kept_version() {
    let body = "<version>1.21.1-20240808.144430</version><version>1.21.1-20241011.000000</version><version>1.21.4-20241203.161809</version>";
    assert_eq!(
        best_listed_version(body, &VersionFilter::Prefix("1.21.1-".to_string())).as_deref(),
        Some("1.21.1-20241011.000000")
    );
    let item = neoform_item("1.21.1", Ok(body.to_string()));
    assert_eq!(item.version.as_deref(), Some("1.21.1-20241011.000000"));
    let missing = neoform_item("1.19.2", Ok(body.to_string()));
    assert_eq!(missing.error.as_deref(), Some("no matching Maven version found"));
    let with_group = maven_dependency_item(
        "x",
        "tool",
        "s",
        &VersionFilter::Release,
        Some("g:a"),
        "none",
        Ok("<version>1.0</version><version>2.0-SNAPSHOT</version>".to_string()),
    );
    assert_eq!(with_group.version.as_deref(), Some("1.0"));
    assert_eq!(with_group.coordinates.as_deref(), Some("g:a:1.0"));
}

#[test]
fn latest_maven_and_loom_items() {
    let item = latest_maven_item("forgegradle", "tool", "s", Ok("<latest>6.0.36</latest>".to_string()));
    assert_eq!(item.version.as_deref(), Some("6.0.36"));
    let none = latest_maven_item("forgegradle", "tool", "s", Ok("".to_string()));
    assert_eq!(none.error.as_deref(), Some("no Maven version found"));
    let loom = loom_item(Ok(
        "<version>1.9-SNAPSHOT</version><version>1.10-SNAPSHOT</version><version>1.11</version>".to_string(),
    ));
    assert_eq!(loom.version.as_deref(), Some("1.10-SNAPSHOT"));
    assert_eq!(loom.loader_versions.fabric.as_deref(), Some("1.10-SNAPSHOT"));
    let none = loom_item(Ok("<version>1.11</version>".to_string()));
    assert_eq!(none.error.as_deref(), Some("no Loom SNAPSHOT version found"));
}

#[test]
fn dependency_ids_put_built_ins_first() {
    let ids = dependency_ids(&strings(&["amber", "loom", "amber"]));
    assert_eq!(
        ids,
        vec![
            "forge",
            "neoforge",
            "fabric-loader",
            "parchment",
            "neoform",
            "forgegradle",
            "moddev-gradle",
            "loom",
            "amber"
        ]
    );
}

#[test]
fn dependency_plans() {
    assert_eq!(dependency_plan("forge"), DependencyPlan::ForgeLoader);
    assert_eq!(dependency_plan("fabric-loader"), DependencyPlan::FabricLoader);
    assert_eq!(dependency_plan("fabric"), DependencyPlan::Modrinth);
    assert_eq!(dependency_plan("moddev-gradle"), DependencyPlan::ModDevGradle);
    assert_eq!(dependency_plan("loom"), DependencyPlan::Loom);
}

#[test]
fn modrinth_urls() {
    assert_eq!(
        modrinth_versions_url("amber", "1.21.1"),
        "https://api.modrinth.com/v2/project/amber/version?game_versions=%5B%221.21.1%22%5D"
    );
    assert_eq!(modrinth_project_url("amber"), "https://api.modrinth.com/v2/project/amber");
}

#[test]
fn modrinth_item_picks_newest_versions_per_loader() {
    let versions = vec![
        version("1.0.0", "2024-01-01T00:00:00Z", &["forge", "fabric"]),
        version("1.1.0", "2024-03-01T00:00:00Z", &["fabric"]),
        version("1.0.5", "2024-02-01T00:00:00Z", &["forge"]),
    ];
    assert_eq!(newest_version_number(&versions, None).as_deref(), Some("1.1.0"));
    assert_eq!(newest_version_number(&versions, Some("neoforge")), None);
    let item = modrinth_item("amber", Ok(versions), Some("amber-lib".to_string()));
    assert_eq!(item.id, "amber-lib");
    assert_eq!(item.status, ItemStatus::Okay);
    assert_eq!(item.version.as_deref(), Some("1.1.0"));
    assert_eq!(item.loader_versions.forge.as_deref(), Some("1.0.5"));
    assert_eq!(item.loader_versions.fabric.as_deref(), Some("1.1.0"));
    assert_eq!(item.loader_versions.neoforge, None);
    assert_eq!(item.coordinates.as_deref(), Some("maven.modrinth:amber:1.1.0"));
    assert_eq!(item.source, "https://modrinth.com/mod/amber");

    let empty = modrinth_item("amber", Ok(Vec::new()), None);
    assert_eq!(empty.error.as_deref(), Some("no Modrinth versions found"));
    assert_eq!(empty.id, "amber");
    let failed = modrinth_item("amber", Err("not found".to_string()), None);
    assert_eq!(failed.error.as_deref(), Some("not found"));
}

#[test]
fn newest_keeps_the_last_of_equal_dates() {
    let versions = vec![
        version("a", "2024-01-01", &["fabric"]),
        version("b", "2024-01-01", &["fabric"]),
    ];
    assert_eq!(newest_version_number(&versions, None).as_deref(), Some("b"));
}

#[test]
fn upstream_config_defaults_to_no_token() {
    assert_eq!(UpstreamConfig::default().modrinth_token, None);
}

#[test]
fn dependency_kinds_follow_the_plan() {
    for id in ["forge", "neoforge", "fabric-loader"] {
        assert_eq!(dependency_kind(id), "loader");
    }
    for id in ["parchment", "neoform"] {
        assert_eq!(dependency_kind(id), "mapping");
    }
    for id in ["forgegradle", "moddev-gradle", "loom"] {
        assert_eq!(dependency_kind(id), "tool");
    }
    assert_eq!(dependency_kind("sodium"), "mod");
    assert_eq!(dependency_kind("fabric"), "mod");
}

#[test]
fn loader_plan_items_carry_id_and_kind() {
    let loader = LoaderItem {
        loader: "fabric".to_string(),
        status: ItemStatus::Okay,
        version: Some("0.16.14".to_string()),
        maven: Some("net.fabricmc:fabric-loader:0.16.14".to_string()),
        source: "src".to_string(),
        error: None,
    };
    let item = loader_plan_item("fabric-loader", loader);
    assert_eq!(item.id, "fabric-loader");
    assert_eq!(item.kind, "loader");
    assert_eq!(item.loader_versions.fabric.as_deref(), Some("0.16.14"));
    let failed = loader_plan_item("forge", loader_error("forge", "s", "down".to_string()));
    assert_eq!(failed.id, "forge");
    assert_eq!(failed.kind, "loader");
    assert_eq!(failed.status, ItemStatus::Error);
}

#[test]
fn tool_items_carry_id_kind_and_source() {
    let fg = forgegradle_item(Ok("<latest>6.0.36</latest>".to_string()));
    assert_eq!(fg.id, "forgegradle");
    assert_eq!(fg.kind, "tool");
    assert_eq!(fg.version.as_deref(), Some("6.0.36"));
    assert_eq!(fg.source, "https://plugins.gradle.org/plugin/net.minecraftforge.gradle");
    let mdg = moddev_gradle_item(Ok("<version>2.0.1</version><version>2.0.10</version>".to_string()));
    assert_eq!(mdg.id, "moddev-gradle");
    assert_eq!(mdg.kind, "tool");
    assert_eq!(mdg.version.as_deref(), Some("2.0.10"));
    assert_eq!(
        mdg.source,
        "https://maven.neoforged.net/releases/net/neoforged/moddev-gradle/"
    );
    let failed = moddev_gradle_item(Err("timeout".to_string()));
    assert_eq!(failed.error.as_deref(), Some("timeout"));
}

#[test]
fn partial_failure_serializes_as_error_item() {
    let item = dependency_error(
        "bad-project",
        "mod",
        "https://modrinth.com/mod/bad-project",
        "not found",
    );
    // Serialized, the item carries `"status":"error"` and `"error":"not found"`.
    assert_eq!(item.status, ItemStatus::Error);
    assert_eq!(item.error.as_deref(), Some("not found"));
}
