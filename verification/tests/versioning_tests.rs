use launcher_meta::order::Rank;
use launcher_meta::versioning::{
    compare_loader_versions, fabric_metadata_from_attempts, find_xml_tag,
    installer_artifact_version, latest_forge_version, latest_forge_version_in,
    latest_maven_version, latest_neoforge_version, latest_of, loader_version_for_ordering,
    loader_version_key, maven_metadata_versions, neoforge_minecraft_version, neoforge_source,
    rank_versions, sort_semverish, FabricComponent, FabricMetadata,
};
use std::cmp::Ordering;

fn strings(items: &[&str]) -> Vec<String> {
    items.iter().map(|s| s.to_string()).collect()
}

#[test]
fn selects_latest_forge_version_for_minecraft() {
    let metadata = r#"{
            "1.21.1": ["52.0.1", "52.1.0"],
            "1.20.1": ["47.1.82", "1.20.1-47.1.106"]
        }"#;

    assert_eq!(
        latest_forge_version(metadata, "1.21.1").as_deref(),
        Some("52.1.0")
    );
    assert_eq!(
        latest_forge_version(metadata, "1.20.1").as_deref(),
        Some("1.20.1-47.1.106")
    );
}

#[test]
fn selects_latest_neoforge_modern_and_legacy_versions() {
    let modern = r#"<metadata><versioning><versions>
<version>21.1.231</version>
<version>26.1.2.21-beta</version>
<version>26.1.2.66-beta</version>
</versions></versioning></metadata>"#;
    let legacy = r#"<metadata><versioning><versions>
<version>47.1.82</version>
<version>1.20.1-47.1.106</version>
</versions></versioning></metadata>"#;

    assert_eq!(
        latest_neoforge_version(modern, neoforge_source("26.1.2"), "26.1.2").as_deref(),
        Some("26.1.2.66-beta")
    );
    assert_eq!(
        latest_neoforge_version(legacy, neoforge_source("1.20.1"), "1.20.1").as_deref(),
        Some("1.20.1-47.1.106")
    );
}

#[test]
fn maps_neoforge_versions_to_minecraft_versions() {
    assert_eq!(
        neoforge_minecraft_version("21.1.231").as_deref(),
        Some("1.21.1")
    );
    assert_eq!(
        neoforge_minecraft_version("26.1.2.66-beta").as_deref(),
        Some("26.1.2")
    );
    assert_eq!(
        neoforge_minecraft_version("0.25w14craftmine.5-beta").as_deref(),
        Some("1.0.25w14craftmine")
    );
}

#[test]
fn forge_manifest_edge_cases() {
    let metadata = r#"{"1.21.1": [], "1.20.1": ["47.1.82", "47.1.9"]}"#;
    assert_eq!(latest_forge_version(metadata, "1.21.1"), None);
    assert_eq!(latest_forge_version(metadata, "1.19.2"), None);
    assert_eq!(latest_forge_version(metadata, "1.20.1").as_deref(), Some("47.1.82"));
    assert_eq!(latest_forge_version("not json", "1.20.1"), None);
    assert_eq!(latest_forge_version(r#"["47.1.82"]"#, "1.20.1"), None);
}

#[test]
fn forge_selection_from_entries() {
    let entries = vec![
        ("1.20.1".to_string(), strings(&["47.1.106", "1.20.1-47.1.106", "47.1.9"])),
        ("1.21.1".to_string(), strings(&["52.0.1"])),
    ];
    // Equal keys: the last one listed wins.
    assert_eq!(
        latest_forge_version_in(&entries, "1.20.1").as_deref(),
        Some("1.20.1-47.1.106")
    );
    assert_eq!(latest_forge_version_in(&entries, "1.21.1").as_deref(), Some("52.0.1"));
    assert_eq!(latest_forge_version_in(&entries, "1.18.2"), None);
}

#[test]
fn neoforge_source_marks_only_1_20_1_as_legacy() {
    let legacy = neoforge_source("1.20.1");
    assert!(legacy.legacy_1201);
    assert_eq!(legacy.artifact_kind, "neoforge-legacy");
    let modern = neoforge_source("1.21.1");
    assert!(!modern.legacy_1201);
    assert_eq!(modern.artifact_kind, "neoforge");
}

#[test]
fn neoforge_filters_by_minecraft_version() {
    let modern = "<version>21.1.231</version><version>21.4.10</version><version>21.1.5</version>";
    assert_eq!(
        latest_neoforge_version(modern, neoforge_source("1.21.1"), "1.21.1").as_deref(),
        Some("21.1.231")
    );
    assert_eq!(
        latest_neoforge_version(modern, neoforge_source("1.21.4"), "1.21.4").as_deref(),
        Some("21.4.10")
    );
    assert_eq!(latest_neoforge_version(modern, neoforge_source("1.19.2"), "1.19.2"), None);
}

#[test]
fn neoforge_minecraft_version_forms() {
    assert_eq!(neoforge_minecraft_version("21.0.1").as_deref(), Some("1.21"));
    assert_eq!(neoforge_minecraft_version("20.4.190").as_deref(), Some("1.20.4"));
    assert_eq!(neoforge_minecraft_version("26.1.0.5").as_deref(), Some("26.1"));
    assert_eq!(neoforge_minecraft_version("26.1"), None);
    assert_eq!(neoforge_minecraft_version("abc"), None);
    assert_eq!(neoforge_minecraft_version("21"), None);
    assert_eq!(neoforge_minecraft_version("25w14a").as_deref(), Some("1.0.25w14a"));
}

#[test]
fn maven_metadata_versions_reads_each_version_tag() {
    let metadata = "<versions><version> 1.0 </version><version></version><version>2.0</version><version>3.0";
    assert_eq!(maven_metadata_versions(metadata), vec!["1.0", "2.0"]);
    assert!(maven_metadata_versions("<metadata/>").is_empty());
}

#[test]
fn find_xml_tag_reads_the_first_tag() {
    assert_eq!(find_xml_tag("<latest> 1.2 </latest>", "latest").as_deref(), Some("1.2"));
    assert_eq!(
        find_xml_tag("<latest>a</latest><latest>b</latest>", "latest").as_deref(),
        Some("a")
    );
    assert_eq!(find_xml_tag("<release>1</release>", "latest"), None);
    assert_eq!(find_xml_tag("<latest>  </latest>", "latest"), None);
    assert_eq!(find_xml_tag("<latest>1.0", "latest"), None);
}

#[test]
fn latest_maven_version_prefers_the_latest_tag() {
    let with_latest = "<latest>1.5</latest><version>1.5</version><version>1.10</version>";
    assert_eq!(latest_maven_version(with_latest).as_deref(), Some("1.5"));
    let without = "<version>1.9</version><version>1.10</version><version>1.2</version>";
    assert_eq!(latest_maven_version(without).as_deref(), Some("1.10"));
    assert_eq!(latest_maven_version("<metadata/>"), None);
}

#[test]
fn compares_versions_numerically() {
    assert_eq!(compare_loader_versions("1.10", "1.9"), Ordering::Greater);
    assert_eq!(compare_loader_versions("1.0", "1.0.0"), Ordering::Less);
    assert_eq!(compare_loader_versions("1.20.1-47.1.106", "47.1.82"), Ordering::Greater);
    assert_eq!(compare_loader_versions("a", ""), Ordering::Equal);
    assert_eq!(compare_loader_versions("1.09", "1.9"), Ordering::Equal);
    assert_eq!(rank_versions("2.0", "10.0"), Rank::Below);
    assert_eq!(rank_versions("v2", "2"), Rank::Same);
    assert_eq!(rank_versions("3", "2.9"), Rank::Above);
}

#[test]
fn version_keys_read_digit_runs() {
    assert_eq!(loader_version_key("1.20.1-47.1.106"), vec![47, 1, 106]);
    assert_eq!(loader_version_key("0.16.14+build.3"), vec![0, 16, 14, 3]);
    assert_eq!(loader_version_key("99999999999.1"), vec![0, 1]);
    assert!(loader_version_key("beta").is_empty());
}

#[test]
fn ordering_part_strips_a_minecraft_prefix() {
    assert_eq!(loader_version_for_ordering("1.20.1-47.1.106"), "47.1.106");
    assert_eq!(loader_version_for_ordering("26.1.2.66-beta"), "26.1.2.66-beta");
    assert_eq!(loader_version_for_ordering("1.20.1-pre1"), "1.20.1-pre1");
    assert_eq!(loader_version_for_ordering("x-1"), "x-1");
    assert_eq!(loader_version_for_ordering("-5"), "5");
    assert_eq!(loader_version_for_ordering("52.1.0"), "52.1.0");
}

#[test]
fn installer_versions_prefix_plain_forge_versions() {
    assert_eq!(installer_artifact_version("forge", "1.21.1", "52.1.0"), "1.21.1-52.1.0");
    assert_eq!(
        installer_artifact_version("forge", "1.20.1", "1.20.1-47.1.106"),
        "1.20.1-47.1.106"
    );
    assert_eq!(installer_artifact_version("neoforge", "1.21.1", "21.1.1"), "21.1.1");
    // Applying it twice gives the same artifact version.
    let once = installer_artifact_version("forge", "1.21.1", "52.1.0");
    assert_eq!(installer_artifact_version("forge", "1.21.1", &once), once);
}

#[test]
fn sort_semverish_is_stable() {
    let sorted = sort_semverish(strings(&["1.10", "1.9", "1.9.0", "a1", "1.09"]));
    assert_eq!(sorted, vec!["a1", "1.9", "1.09", "1.9.0", "1.10"]);
    assert!(sort_semverish(Vec::new()).is_empty());
}

#[test]
fn latest_is_the_last_of_the_greatest() {
    assert_eq!(latest_of(&strings(&["1.0", "01.0", "0.9"])).as_deref(), Some("01.0"));
    assert_eq!(latest_of(&strings(&["2", "10", "9"])).as_deref(), Some("10"));
    assert_eq!(latest_of(&Vec::new()), None);
    // The last of a sorted list is the latest.
    let input = strings(&["3.1", "3.01", "2.9"]);
    let sorted = sort_semverish(input.clone());
    assert_eq!(sorted.last().cloned(), latest_of(&input));
}

#[test]
fn fabric_metadata_prefers_the_object_form() {
    let a = FabricMetadata {
        loader: FabricComponent { maven: "m:a".to_string(), version: Some("1".to_string()) },
    };
    let b = FabricMetadata {
        loader: FabricComponent { maven: "m:b".to_string(), version: None },
    };
    assert_eq!(
        fabric_metadata_from_attempts(Ok(a.clone()), Some(vec![b.clone()])),
        Ok(a.clone())
    );
    assert_eq!(
        fabric_metadata_from_attempts(Err("bad".to_string()), Some(vec![b.clone(), a.clone()])),
        Ok(b)
    );
    assert_eq!(
        fabric_metadata_from_attempts(Err("bad".to_string()), Some(Vec::new())),
        Err("Fabric metadata did not include any versions".to_string())
    );
    assert_eq!(
        fabric_metadata_from_attempts(Err("bad".to_string()), None),
        Err("failed to parse Fabric metadata: bad".to_string())
    );
}

/// Fabric metadata read from a JSON value.
fn read_fabric(v: &serde_json::Value) -> Result<FabricMetadata, String> {
    let loader = v.get("loader").ok_or_else(|| "missing field `loader`".to_string())?;
    let maven = loader
        .get("maven")
        .and_then(|m| m.as_str())
        .ok_or_else(|| "missing field `maven`".to_string())?;
    let version = loader.get("version").and_then(|m| m.as_str()).map(str::to_string);
    Ok(FabricMetadata {
        loader: FabricComponent { maven: maven.to_string(), version },
    })
}

/// The two attempts made on Fabric's metadata text: as one object, and
/// (only when that fails) as a list of objects.
fn fabric_attempts(text: &str) -> (Result<FabricMetadata, String>, Option<Vec<FabricMetadata>>) {
    let value: serde_json::Value = serde_json::from_str(text).unwrap();
    let object = read_fabric(&value);
    let list = match object {
        Ok(_) => None,
        Err(_) => value
            .as_array()
            .and_then(|items| items.iter().map(read_fabric).collect::<Result<Vec<_>, _>>().ok()),
    };
    (object, list)
}

#[test]
fn parses_fabric_object_and_array_metadata() {
    let object =
        r#"{"loader":{"maven":"net.fabricmc:fabric-loader:0.16.14","version":"0.16.14"}}"#;
    let array = format!("[{object}]");

    let (o, l) = fabric_attempts(object);
    assert_eq!(
        fabric_metadata_from_attempts(o, l)
            .unwrap()
            .loader
            .version
            .as_deref(),
        Some("0.16.14")
    );
    let (o, l) = fabric_attempts(&array);
    assert_eq!(
        fabric_metadata_from_attempts(o, l).unwrap().loader.maven,
        "net.fabricmc:fabric-loader:0.16.14"
    );
}
