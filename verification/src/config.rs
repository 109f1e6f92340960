//! Service configuration: names, limits, cache lifetimes and upstream URLs.

use vstd::prelude::*;

verus! {

pub const RESPONSE_CACHE_VERSION: &'static str = "v1";

pub const CACHE_BASE_URL: &'static str = "https://launcher-meta-cache.invalid";

pub const REFRESH_HEADER: &'static str = "X-Launcher-Meta-Refresh";

pub const PUBLIC_API_RATE_LIMIT_BINDING: &'static str = "PUBLIC_API_RATE_LIMIT";

pub const REFRESH_RATE_LIMIT_BINDING: &'static str = "REFRESH_RATE_LIMIT";

pub const PUBLIC_API_RATE_LIMIT_PER_MINUTE: u64 = 300;

pub const REFRESH_RATE_LIMIT_PER_MINUTE: u64 = 30;

pub const USER_AGENT: &'static str = "launcher-meta/0.1.0 (https://github.com/iamkaf/launcher-meta)";

pub const MODRINTH_TOKEN_SECRET: &'static str = "MODRINTH_TOKEN";

pub const UPSTREAM_TIMEOUT_MS: u32 = 10_000;

pub const DEFAULT_CACHE_TTL_MINECRAFT: u64 = 6 * 60 * 60;

pub const MINECRAFT_TUESDAY_TTL: u64 = 5 * 60;

pub const MINECRAFT_WEDNESDAY_TTL: u64 = 10 * 60;

pub const MINECRAFT_THURSDAY_TTL: u64 = 30 * 60;

pub const DEFAULT_CACHE_TTL_LOADERS: u64 = 30 * 60;

pub const DEFAULT_CACHE_TTL_DEPENDENCIES: u64 = 30 * 60;

pub const DEFAULT_CACHE_TTL_COMPATIBILITY: u64 = 30 * 60;

pub const MOJANG_MANIFEST_URL: &'static str = "https://piston-meta.mojang.com/mc/game/version_manifest_v2.json";

pub const FABRIC_LOADER_BASE_URL: &'static str = "https://meta.fabricmc.net/v2/versions/loader";

pub const FORGE_METADATA_URL: &'static str =
    "https://files.minecraftforge.net/net/minecraftforge/forge/maven-metadata.json";

pub const NEOFORGE_METADATA_URL: &'static str =
    "https://maven.neoforged.net/releases/net/neoforged/neoforge/maven-metadata.xml";

pub const NEOFORGE_LEGACY_METADATA_URL: &'static str =
    "https://maven.neoforged.net/releases/net/neoforged/forge/maven-metadata.xml";

pub const MODRINTH_PROJECT_BASE_URL: &'static str = "https://api.modrinth.com/v2/project";

pub const PARCHMENT_REPOSITORY_URL: &'static str = "https://ldtteam.jfrog.io/artifactory/parchmentmc-public/";

pub const PARCHMENT_BASE_URL: &'static str = "https://ldtteam.jfrog.io/artifactory/parchmentmc-public/org/parchmentmc/data/parchment-{version}/maven-metadata.xml";

pub const NEOFORM_METADATA_URL: &'static str =
    "https://maven.neoforged.net/releases/net/neoforged/neoform/maven-metadata.xml";

pub const FORGEGRADLE_METADATA_URL: &'static str = "https://plugins.gradle.org/m2/net/minecraftforge/gradle/net.minecraftforge.gradle.gradle.plugin/maven-metadata.xml";

pub const MODDEV_GRADLE_METADATA_URL: &'static str =
    "https://maven.neoforged.net/releases/net/neoforged/moddev-gradle/maven-metadata.xml";

pub const LOOM_METADATA_URL: &'static str = "https://maven.fabricmc.net/net/fabricmc/fabric-loom/maven-metadata.xml";

/// The views of a list of string slices.
pub open spec fn str_texts(v: Seq<&str>) -> Seq<Seq<char>> {
    v.map_values(|s: &str| s@)
}

/// The dependencies that every dependency listing includes, in order.
pub open spec fn built_in_ids() -> Seq<Seq<char>> {
    seq![
        "forge"@,
        "neoforge"@,
        "fabric-loader"@,
        "parchment"@,
        "neoform"@,
        "forgegradle"@,
        "moddev-gradle"@,
        "loom"@,
    ]
}

/// The Modrinth projects listed when a request names none, in order.
pub open spec fn default_project_ids() -> Seq<Seq<char>> {
    seq![
        "amber"@,
        "fabric-api"@,
        "modmenu"@,
        "rei"@,
        "architectury-api"@,
        "forge-config-api-port"@,
    ]
}

/// The built-in dependency ids.
pub fn built_ins() -> (r: Vec<&'static str>)
    ensures
        str_texts(r@) == built_in_ids(),
{
    let r = vec![
        "forge",
        "neoforge",
        "fabric-loader",
        "parchment",
        "neoform",
        "forgegradle",
        "moddev-gradle",
        "loom",
    ];
    assert(str_texts(r@) =~= built_in_ids());
    r
}

/// The default Modrinth project ids.
pub fn default_projects() -> (r: Vec<&'static str>)
    ensures
        str_texts(r@) == default_project_ids(),
{
    let r = vec!["amber", "fabric-api", "modmenu", "rei", "architectury-api", "forge-config-api-port"];
    assert(str_texts(r@) =~= default_project_ids());
    r
}

} // verus!
