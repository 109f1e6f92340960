//! Building loader and dependency items from upstream metadata. The network
//! requests themselves are made by the worker; every decision about what a
//! response means is made here.

use vstd::prelude::*;
use crate::config::{
    built_in_ids, built_ins, str_texts, FABRIC_LOADER_BASE_URL, FORGE_METADATA_URL, MODRINTH_PROJECT_BASE_URL,
    NEOFORGE_LEGACY_METADATA_URL, NEOFORGE_METADATA_URL,
};
use crate::text::{
    chars_of, contains_text, decimal_text, field_before, find_from_exec, field_before_chars, nth_field, nth_field_chars, opt_text,
    owned, parse_i32_chars, parse_i32_text, parse_u32_chars, parse_u32_text, push_all, push_char,
    push_decimal, string_of, lemma_find_char_at, lemma_find_char_none, lemma_decimal_text,
    lemma_parse_i32_decimal, is_digit,
};
use crate::maps::{ascending, has_key, lemma_lookup_at, lookup, map_get, map_insert, map_take};
use crate::types::{CompatibilityData, DependencyItem, ItemStatus, LoaderItem, LoaderVersions};
use crate::util::unique_preserving_order;
use crate::order::{lemma_text_order, text_le, text_le_exec, text_lt};
use crate::versioning::{
    FabricMetadata, NeoForgeSource, forge_manifest, installer_artifact_version, installer_version,
    last_max, latest_forge_in, latest_forge_version, latest_maven_version, latest_neoforge_version,
    law_sorted_last_is_latest, maven_metadata_versions, maven_versions, neoforge_keeps,
    neoforge_source, sort_semverish, texts, xml_tag_value,
};

verus! {

broadcast use vstd::string::group_string_axioms;

/// Settings for upstream requests.
#[derive(Clone, Debug)]
pub struct UpstreamConfig {
    pub modrinth_token: Option<String>,
}

impl Default for UpstreamConfig {
    fn default() -> (r: Self)
        ensures
            r.modrinth_token is None,
    {
        UpstreamConfig { modrinth_token: None }
    }
}

/// A loader that could not be resolved.
pub fn loader_error(loader: &str, source: &str, error: String) -> (r: LoaderItem)
    ensures
        r.loader@ == loader@,
        r.status == ItemStatus::Error,
        r.version is None,
        r.maven is None,
        r.source@ == source@,
        r.error == Some(error),
{
    LoaderItem {
        loader: owned(loader),
        status: ItemStatus::Error,
        version: None,
        maven: None,
        source: owned(source),
        error: Some(error),
    }
}

/// A dependency that could not be resolved.
pub fn dependency_error(id: &str, kind: &str, source: &str, error: &str) -> (r: DependencyItem)
    ensures
        r.id@ == id@,
        r.kind@ == kind@,
        r.status == ItemStatus::Error,
        r.version is None,
        r.loader_versions.is_empty(),
        r.coordinates is None,
        r.source@ == source@,
        r.error matches Some(e) && e@ == error@,
{
    DependencyItem {
        id: owned(id),
        kind: owned(kind),
        status: ItemStatus::Error,
        version: None,
        loader_versions: LoaderVersions::default(),
        coordinates: None,
        source: owned(source),
        error: Some(owned(error)),
    }
}

/// A loader item restated as a dependency item; its version is recorded
/// under its own loader (`forge`, `neoforge` or `fabric`).
pub fn loader_dependency(id: &str, kind: &str, loader: LoaderItem) -> (r: DependencyItem)
    ensures
        r.id@ == id@,
        r.kind@ == kind@,
        r.status == loader.status,
        r.version == loader.version,
        r.coordinates == loader.maven,
        r.source == loader.source,
        r.error == loader.error,
        r.loader_versions.forge == if loader.loader@ == "forge"@ {
            loader.version
        } else {
            None
        },
        r.loader_versions.neoforge == if loader.loader@ == "neoforge"@ {
            loader.version
        } else {
            None
        },
        r.loader_versions.fabric == if loader.loader@ == "fabric"@ {
            loader.version
        } else {
            None
        },
{
    let name = chars_of(loader.loader.as_str());
    let mut loader_versions = LoaderVersions::default();
    let forge = chars_of("forge");
    let neoforge = chars_of("neoforge");
    let fabric = chars_of("fabric");
    proof {
        reveal_strlit("forge");
        reveal_strlit("neoforge");
        reveal_strlit("fabric");
        assert("forge"@.len() != "neoforge"@.len());
        assert("forge"@.len() != "fabric"@.len());
        assert("neoforge"@.len() != "fabric"@.len());
    }
    if crate::text::same_text(name.as_slice(), forge.as_slice()) {
        loader_versions.forge = copy_opt(&loader.version);
    } else if crate::text::same_text(name.as_slice(), neoforge.as_slice()) {
        loader_versions.neoforge = copy_opt(&loader.version);
    } else if crate::text::same_text(name.as_slice(), fabric.as_slice()) {
        loader_versions.fabric = copy_opt(&loader.version);
    }
    DependencyItem {
        id: owned(id),
        kind: owned(kind),
        status: loader.status,
        version: loader.version,
        loader_versions,
        coordinates: loader.maven,
        source: loader.source,
        error: loader.error,
    }
}

/// A copy of an optional string.
pub fn copy_opt(v: &Option<String>) -> (r: Option<String>)
    ensures
        r == *v,
{
    match v {
        Some(s) => Some(s.clone()),
        None => None,
    }
}

// ---------------------------------------------------------------------------
// Minecraft version rules.
// ---------------------------------------------------------------------------

/// Minecraft ships unobfuscated from 26.1 on: the major and minor numbers of
/// the part before the first `-` are read, and the version counts from 26.1.
/// A version whose first two parts are not numbers does not count.
pub open spec fn unobfuscated(minecraft: Seq<char>) -> bool {
    let core = field_before(minecraft, '-');
    match (parse_u32_text(field_before(core, '.')), nth_field(core, '.', 1)) {
        (Some(major), Some(minor_text)) => match parse_u32_text(minor_text) {
            Some(minor) => major > 26 || (major == 26 && minor >= 1),
            None => false,
        },
        _ => false,
    }
}

/// Whether a Minecraft version ships unobfuscated (26.1 or later).
pub fn is_unobfuscated_minecraft(minecraft: &str) -> (r: bool)
    ensures
        r == unobfuscated(minecraft@),
{
    let cs = chars_of(minecraft);
    let core = field_before_chars(cs.as_slice(), '-');
    let major = match parse_u32_chars(field_before_chars(core, '.')) {
        Some(m) => m,
        None => {
            return false;
        },
    };
    let minor = match nth_field_chars(core, '.', 1) {
        Some(t) => match parse_u32_chars(t) {
            Some(m) => m,
            None => {
                return false;
            },
        },
        None => {
            return false;
        },
    };
    major > 26 || (major == 26 && minor >= 1)
}

/// The Parchment versions to try for a Minecraft version: the version
/// itself, then, for `major.minor.patch...`, `major.minor.p` for every `p`
/// from `patch - 1` down to 0 (where `patch` is the number before any `-`
/// in the third part, 0 when it is not a number).
pub open spec fn parchment_candidate_list(minecraft: Seq<char>) -> Seq<Seq<char>> {
    match (nth_field(minecraft, '.', 0), nth_field(minecraft, '.', 1), nth_field(minecraft, '.', 2)) {
        (Some(major), Some(minor), Some(third)) => {
            let patch: int = match parse_i32_text(field_before(third, '-')) {
                Some(p) => p as int,
                None => 0,
            };
            let n: int = if patch > 0 { patch } else { 0 };
            seq![minecraft] + Seq::new(
                n as nat,
                |k: int| major + seq!['.'] + minor + seq!['.'] + decimal_text((n - 1 - k) as nat),
            )
        },
        _ => seq![minecraft],
    }
}

/// The Parchment versions to try for a Minecraft version, newest first.
pub fn parchment_candidates(minecraft: &str) -> (r: Vec<String>)
    ensures
        texts(r@) == parchment_candidate_list(minecraft@),
{
    let cs = chars_of(minecraft);
    let mut out: Vec<String> = Vec::new();
    out.push(owned(minecraft));
    let parts = (
        nth_field_chars(cs.as_slice(), '.', 0),
        nth_field_chars(cs.as_slice(), '.', 1),
        nth_field_chars(cs.as_slice(), '.', 2),
    );
    match parts {
        (Some(major), Some(minor), Some(third)) => {
            let patch: i32 = match parse_i32_chars(field_before_chars(third, '-')) {
                Some(p) => p,
                None => 0,
            };
            let n: u64 = if patch > 0 {
                patch as u64
            } else {
                0
            };
            let ghost expected = parchment_candidate_list(minecraft@);
            let mut k: u64 = 0;
            assert(texts(out@) =~= expected.take(1));
            while k < n
                invariant
                    k <= n,
                    n < 0x8000_0000,
                    expected == parchment_candidate_list(minecraft@),
                    expected.len() == n + 1,
                    texts(out@) == expected.take(k as int + 1),
                    forall|j: int|
                        0 <= j < n ==> #[trigger] expected[j + 1] == major@ + seq!['.'] + minor@
                            + seq!['.'] + decimal_text((n - 1 - j) as nat),
                decreases n - k,
            {
                let mut s = String::new();
                push_all(&mut s, major);
                push_char(&mut s, '.');
                push_all(&mut s, minor);
                push_char(&mut s, '.');
                push_decimal(&mut s, n - 1 - k);
                let ghost before = texts(out@);
                out.push(s);
                proof {
                    assert(expected[k as int + 1] == major@ + seq!['.'] + minor@ + seq!['.']
                        + decimal_text((n - 1 - k) as nat));
                    assert(s@ =~= expected[k as int + 1]);
                    assert(texts(out@) =~= before.push(s@));
                    assert(expected.take(k as int + 2) =~= expected.take(k as int + 1).push(
                        expected[k as int + 1],
                    ));
                }
                k = k + 1;
            }
            assert(expected.take(n as int + 1) =~= expected);
            out
        },
        _ => {
            assert(texts(out@) =~= parchment_candidate_list(minecraft@));
            out
        },
    }
}

} // verus!

verus! {

// ---------------------------------------------------------------------------
// Loaders.
// ---------------------------------------------------------------------------

/// Fabric's loader metadata URL for a Minecraft version.
pub open spec fn fabric_url_text(minecraft: Seq<char>) -> Seq<char> {
    FABRIC_LOADER_BASE_URL@ + seq!['/'] + minecraft
}

/// Fabric's loader metadata URL for a Minecraft version.
pub fn fabric_loader_url(minecraft: &str) -> (r: String)
    ensures
        r@ == fabric_url_text(minecraft@),
{
    let mut r = owned(FABRIC_LOADER_BASE_URL);
    push_char(&mut r, '/');
    r.append(minecraft);
    r
}

/// The Fabric loader item, from the metadata read (or the error met) for a
/// Minecraft version.
pub fn fabric_loader_item(minecraft: &str, metadata: Result<FabricMetadata, String>) -> (r:
    LoaderItem)
    ensures
        r.loader@ == "fabric"@,
        r.source@ == fabric_url_text(minecraft@),
        match metadata {
            Ok(m) => {
                &&& r.status == ItemStatus::Okay
                &&& r.version == m.loader.version
                &&& r.maven == Some(m.loader.maven)
                &&& r.error is None
            },
            Err(e) => {
                &&& r.status == ItemStatus::Error
                &&& r.version is None
                &&& r.maven is None
                &&& r.error == Some(e)
            },
        },
{
    let url = fabric_loader_url(minecraft);
    match metadata {
        Ok(m) => LoaderItem {
            loader: owned("fabric"),
            status: ItemStatus::Okay,
            version: m.loader.version,
            maven: Some(m.loader.maven),
            source: url,
            error: None,
        },
        Err(e) => loader_error("fabric", url.as_str(), e),
    }
}

/// `<prefix><minecraft>`.
fn prefixed(prefix: &str, minecraft: &str) -> (r: String)
    ensures
        r@ == prefix@ + minecraft@,
{
    let mut r = owned(prefix);
    r.append(minecraft);
    r
}

/// The Forge loader item for a Minecraft version, from Forge's JSON manifest
/// (or the error met fetching it).
pub fn forge_loader_item(minecraft: &str, body: Result<String, String>) -> (r: LoaderItem)
    ensures
        r.loader@ == "forge"@,
        r.source@ == FORGE_METADATA_URL@,
        match body {
            Err(e) => r.status == ItemStatus::Error && r.version is None && r.maven is None
                && r.error == Some(e),
            Ok(b) => match (match forge_manifest(b@) {
                Some(entries) => latest_forge_in(entries, minecraft@),
                None => None,
            }) {
                None => {
                    &&& r.status == ItemStatus::Error
                    &&& r.version is None
                    &&& r.maven is None
                    &&& r.error matches Some(e) && e@ == "no Forge loader found for Minecraft "@
                        + minecraft@
                },
                Some(v) => {
                    let artifact = installer_version("forge"@, minecraft@, v);
                    &&& r.status == ItemStatus::Okay
                    &&& opt_text(r.version) == Some(artifact)
                    &&& opt_text(r.maven) == Some("net.minecraftforge:forge:"@ + artifact
                        + ":installer"@)
                    &&& r.error is None
                },
            },
        },
{
    match body {
        Err(e) => loader_error("forge", FORGE_METADATA_URL, e),
        Ok(b) => match latest_forge_version(b.as_str(), minecraft) {
            None => loader_error(
                "forge",
                FORGE_METADATA_URL,
                prefixed("no Forge loader found for Minecraft ", minecraft),
            ),
            Some(v) => {
                let artifact = installer_artifact_version("forge", minecraft, v.as_str());
                let mut maven = owned("net.minecraftforge:forge:");
                maven.append(artifact.as_str());
                maven.append(":installer");
                LoaderItem {
                    loader: owned("forge"),
                    status: ItemStatus::Okay,
                    version: Some(artifact),
                    maven: Some(maven),
                    source: owned(FORGE_METADATA_URL),
                    error: None,
                }
            },
        },
    }
}

/// The NeoForge metadata URL for a source.
pub fn neoforge_metadata_url(source: NeoForgeSource) -> (r: &'static str)
    ensures
        r@ == if source.legacy_1201 {
            NEOFORGE_LEGACY_METADATA_URL@
        } else {
            NEOFORGE_METADATA_URL@
        },
{
    if source.legacy_1201 {
        NEOFORGE_LEGACY_METADATA_URL
    } else {
        NEOFORGE_METADATA_URL
    }
}

/// The NeoForge loader item for a Minecraft version, from the NeoForge Maven
/// metadata of its source (or the error met fetching it).
pub fn neoforge_loader_item(minecraft: &str, body: Result<String, String>) -> (r: LoaderItem)
    ensures
        ({
            let legacy = minecraft@ == "1.20.1"@;
            let source = NeoForgeSource {
                legacy_1201: legacy,
                artifact_kind: if legacy { "neoforge-legacy" } else { "neoforge" },
            };
            &&& r.loader@ == "neoforge"@
            &&& r.source@ == if legacy {
                NEOFORGE_LEGACY_METADATA_URL@
            } else {
                NEOFORGE_METADATA_URL@
            }
            &&& match body {
                Err(e) => r.status == ItemStatus::Error && r.version is None && r.maven is None
                    && r.error == Some(e),
                Ok(b) => match last_max(maven_versions(b@).filter(neoforge_keeps(source, minecraft@))) {
                    None => {
                        &&& r.status == ItemStatus::Error
                        &&& r.version is None
                        &&& r.maven is None
                        &&& r.error matches Some(e) && e@ == "no NeoForge loader found for Minecraft "@
                            + minecraft@
                    },
                    Some(v) => {
                        &&& r.status == ItemStatus::Okay
                        &&& opt_text(r.version) == Some(v)
                        &&& opt_text(r.maven) == Some(
                            (if legacy {
                                "net.neoforged:forge"@
                            } else {
                                "net.neoforged:neoforge"@
                            }) + seq![':'] + v + ":installer"@,
                        )
                        &&& r.error is None
                    },
                },
            }
        }),
{
    let source = neoforge_source(minecraft);
    let url = neoforge_metadata_url(source);
    let ghost expected = NeoForgeSource {
        legacy_1201: source.legacy_1201,
        artifact_kind: if source.legacy_1201 { "neoforge-legacy" } else { "neoforge" },
    };
    proof {
        assert(neoforge_keeps(source, minecraft@) == neoforge_keeps(expected, minecraft@));
    }
    match body {
        Err(e) => loader_error("neoforge", url, e),
        Ok(b) => match latest_neoforge_version(b.as_str(), source, minecraft) {
            None => loader_error(
                "neoforge",
                url,
                prefixed("no NeoForge loader found for Minecraft ", minecraft),
            ),
            Some(v) => {
                let group = if source.legacy_1201 {
                    "net.neoforged:forge"
                } else {
                    "net.neoforged:neoforge"
                };
                let mut maven = owned(group);
                push_char(&mut maven, ':');
                maven.append(v.as_str());
                maven.append(":installer");
                LoaderItem {
                    loader: owned("neoforge"),
                    status: ItemStatus::Okay,
                    version: Some(v),
                    maven: Some(maven),
                    source: owned(url),
                    error: None,
                }
            },
        },
    }
}

} // verus!

verus! {

// ---------------------------------------------------------------------------
// Maven-based dependencies.
// ---------------------------------------------------------------------------

/// `s` starts with `p`.
pub open spec fn starts_with(s: Seq<char>, p: Seq<char>) -> bool {
    p.len() <= s.len() && s.take(p.len() as int) == p
}

/// Which versions of a Maven listing a dependency considers.
pub enum VersionFilter {
    /// Versions that start with the text.
    Prefix(String),
    /// Versions that contain the text.
    Containing(String),
    /// Versions that contain neither `nightly` nor `SNAPSHOT`.
    Release,
}

/// The versions a filter keeps.
pub open spec fn filter_keeps(f: VersionFilter) -> spec_fn(Seq<char>) -> bool {
    |v: Seq<char>|
        match f {
            VersionFilter::Prefix(p) => starts_with(v, p@),
            VersionFilter::Containing(t) => contains_text(v, t@),
            VersionFilter::Release => !contains_text(v, "nightly"@) && !contains_text(
                v,
                "SNAPSHOT"@,
            ),
        }
}

/// Whether the filter keeps `v`.
fn filter_keeps_exec(f: &VersionFilter, v: &String) -> (r: bool)
    ensures
        r == filter_keeps(*f)(v@),
{
    let cs = chars_of(v.as_str());
    match f {
        VersionFilter::Prefix(p) => {
            let pc = chars_of(p.as_str());
            if pc.len() > cs.len() {
                return false;
            }
            let head = &cs.as_slice()[0..pc.len()];
            assert(head@ =~= cs@.take(pc@.len() as int));
            crate::text::same_text(head, pc.as_slice())
        },
        VersionFilter::Containing(t) => {
            let tc = chars_of(t.as_str());
            find_from_exec(cs.as_slice(), tc.as_slice(), 0).is_some()
        },
        VersionFilter::Release => {
            let a = chars_of("nightly");
            let b = chars_of("SNAPSHOT");
            find_from_exec(cs.as_slice(), a.as_slice(), 0).is_none() && find_from_exec(
                cs.as_slice(),
                b.as_slice(),
                0,
            ).is_none()
        },
    }
}

/// The greatest version of a Maven listing that a filter keeps, chosen by
/// sorting the kept versions and taking the last.
pub fn best_listed_version(metadata: &str, f: &VersionFilter) -> (r: Option<String>)
    ensures
        opt_text(r) == last_max(maven_versions(metadata@).filter(filter_keeps(*f))),
{
    let all = maven_metadata_versions(metadata);
    let mut kept: Vec<String> = Vec::new();
    let mut i: usize = 0;
    let ghost keep = filter_keeps(*f);
    while i < all.len()
        invariant
            i <= all@.len(),
            keep == filter_keeps(*f),
            texts(kept@) == texts(all@).take(i as int).filter(keep),
        decreases all@.len() - i,
    {
        let ghost v = all@[i as int]@;
        assert(texts(all@).take(i as int + 1) =~= texts(all@).take(i as int).push(v));
        proof {
            texts(all@).take(i as int).lemma_filter_push(v, keep);
        }
        if filter_keeps_exec(f, &all[i]) {
            let ghost before = texts(kept@);
            kept.push(all[i].clone());
            assert(texts(kept@) =~= before.push(v));
        }
        i = i + 1;
    }
    assert(texts(all@).take(i as int) =~= texts(all@));
    let ghost input = texts(kept@);
    let mut sorted = sort_semverish(kept);
    proof {
        law_sorted_last_is_latest(input, texts(sorted@));
        if sorted@.len() > 0 {
            assert(texts(sorted@).last() == sorted@.last()@);
        }
    }
    sorted.pop()
}

/// A dependency resolved from a Maven listing: the greatest version that
/// the filter keeps, with Maven coordinates `<group>:<version>` when a group
/// is given. Fetch errors and empty choices become error items.
pub fn maven_dependency_item(
    id: &str,
    kind: &str,
    source: &str,
    filter: &VersionFilter,
    coordinates_group: Option<&str>,
    missing: &str,
    body: Result<String, String>,
) -> (r: DependencyItem)
    ensures
        r.id@ == id@,
        r.kind@ == kind@,
        r.source@ == source@,
        r.loader_versions.is_empty(),
        match body {
            Err(e) => r.status == ItemStatus::Error && r.version is None && r.coordinates is None
                && opt_text(r.error) == Some(e@),
            Ok(b) => match last_max(maven_versions(b@).filter(filter_keeps(*filter))) {
                None => r.status == ItemStatus::Error && r.version is None && r.coordinates is None
                    && opt_text(r.error) == Some(missing@),
                Some(v) => {
                    &&& r.status == ItemStatus::Okay
                    &&& opt_text(r.version) == Some(v)
                    &&& opt_text(r.coordinates) == match coordinates_group {
                        Some(g) => Some(g@ + seq![':'] + v),
                        None => None,
                    }
                    &&& r.error is None
                },
            },
        },
{
    match body {
        Err(e) => dependency_error(id, kind, source, e.as_str()),
        Ok(b) => match best_listed_version(b.as_str(), filter) {
            None => dependency_error(id, kind, source, missing),
            Some(v) => {
                let coordinates = match coordinates_group {
                    Some(g) => {
                        let mut c = owned(g);
                        push_char(&mut c, ':');
                        c.append(v.as_str());
                        Some(c)
                    },
                    None => None,
                };
                DependencyItem {
                    id: owned(id),
                    kind: owned(kind),
                    status: ItemStatus::Okay,
                    version: Some(v),
                    loader_versions: LoaderVersions::default(),
                    coordinates,
                    source: owned(source),
                    error: None,
                }
            },
        },
    }
}

/// A dependency resolved from Maven metadata's `<latest>` version (or the
/// greatest listed one).
pub fn latest_maven_item(id: &str, kind: &str, source: &str, body: Result<String, String>) -> (r:
    DependencyItem)
    ensures
        r.id@ == id@,
        r.kind@ == kind@,
        r.source@ == source@,
        r.loader_versions.is_empty(),
        r.coordinates is None,
        match body {
            Err(e) => r.status == ItemStatus::Error && r.version is None && opt_text(r.error) == Some(e@),
            Ok(b) => match (match xml_tag_value(b@, "latest"@) {
                Some(v) => Some(v),
                None => last_max(maven_versions(b@)),
            }) {
                None => r.status == ItemStatus::Error && r.version is None && opt_text(r.error) == Some("no Maven version found"@),
                Some(v) => r.status == ItemStatus::Okay && opt_text(r.version) == Some(v)
                    && r.error is None,
            },
        },
{
    match body {
        Err(e) => dependency_error(id, kind, source, e.as_str()),
        Ok(b) => match latest_maven_version(b.as_str()) {
            None => dependency_error(id, kind, source, "no Maven version found"),
            Some(v) => DependencyItem {
                id: owned(id),
                kind: owned(kind),
                status: ItemStatus::Okay,
                version: Some(v),
                loader_versions: LoaderVersions::default(),
                coordinates: None,
                source: owned(source),
                error: None,
            },
        },
    }
}

/// Where Loom versions are published.
pub const LOOM_SOURCE: &'static str = "https://maven.fabricmc.net/net/fabricmc/fabric-loom/";

/// The Loom item: the greatest `SNAPSHOT` version of Loom's Maven listing,
/// also recorded as the Fabric version.
pub fn loom_item(body: Result<String, String>) -> (r: DependencyItem)
    ensures
        r.id@ == "loom"@,
        r.kind@ == "tool"@,
        r.source@ == LOOM_SOURCE@,
        r.coordinates is None,
        r.loader_versions.forge is None,
        r.loader_versions.neoforge is None,
        r.loader_versions.fabric == r.version,
        match body {
            Err(e) => r.status == ItemStatus::Error && r.version is None && opt_text(r.error) == Some(e@),
            Ok(b) => match last_max(
                maven_versions(b@).filter(|v: Seq<char>| contains_text(v, "SNAPSHOT"@)),
            ) {
                None => r.status == ItemStatus::Error && r.version is None && opt_text(r.error) == Some("no Loom SNAPSHOT version found"@),
                Some(v) => r.status == ItemStatus::Okay && opt_text(r.version) == Some(v)
                    && r.error is None,
            },
        },
{
    match body {
        Err(e) => dependency_error("loom", "tool", LOOM_SOURCE, e.as_str()),
        Ok(b) => {
            let filter = VersionFilter::Containing(owned("SNAPSHOT"));
            proof {
                assert(filter_keeps(filter) =~= (|v: Seq<char>| contains_text(v, "SNAPSHOT"@)));
            }
            match best_listed_version(b.as_str(), &filter) {
                None => dependency_error("loom", "tool", LOOM_SOURCE, "no Loom SNAPSHOT version found"),
                Some(v) => {
                    let fabric = v.clone();
                    DependencyItem {
                        id: owned("loom"),
                        kind: owned("tool"),
                        status: ItemStatus::Okay,
                        version: Some(v),
                        loader_versions: LoaderVersions {
                            forge: None,
                            neoforge: None,
                            fabric: Some(fabric),
                        },
                        coordinates: None,
                        source: owned(LOOM_SOURCE),
                        error: None,
                    }
                },
            }
        },
    }
}

} // verus!

verus! {

// ---------------------------------------------------------------------------
// Parchment.
// ---------------------------------------------------------------------------

/// Where Parchment mappings are documented.
pub const PARCHMENT_SOURCE: &'static str = "https://maven.parchmentmc.org/";

/// The Parchment item for Minecraft versions that need no mappings.
pub fn parchment_unavailable() -> (r: DependencyItem)
    ensures
        r.id@ == "parchment"@,
        r.kind@ == "mapping"@,
        r.status == ItemStatus::Unavailable,
        r.version is None,
        r.loader_versions.is_empty(),
        r.coordinates is None,
        r.source@ == PARCHMENT_SOURCE@,
        r.error is None,
{
    DependencyItem {
        id: owned("parchment"),
        kind: owned("mapping"),
        status: ItemStatus::Unavailable,
        version: None,
        loader_versions: LoaderVersions::default(),
        coordinates: None,
        source: owned(PARCHMENT_SOURCE),
        error: None,
    }
}

/// The Parchment item when no candidate version had mappings.
pub fn parchment_not_found() -> (r: DependencyItem)
    ensures
        r.id@ == "parchment"@,
        r.kind@ == "mapping"@,
        r.status == ItemStatus::Error,
        r.version is None,
        r.loader_versions.is_empty(),
        r.coordinates is None,
        r.source@ == PARCHMENT_SOURCE@,
        opt_text(r.error) == Some("no Parchment version found"@),
{
    dependency_error("parchment", "mapping", PARCHMENT_SOURCE, "no Parchment version found")
}

/// The Maven metadata URL of Parchment for one Minecraft version (the
/// `PARCHMENT_BASE_URL` template with the version filled in).
pub open spec fn parchment_url_text(candidate: Seq<char>) -> Seq<char> {
    "https://ldtteam.jfrog.io/artifactory/parchmentmc-public/org/parchmentmc/data/parchment-"@
        + candidate + "/maven-metadata.xml"@
}

/// The Maven metadata URLs to try, in order, for Parchment mappings of a
/// Minecraft version; `None` when the version ships unobfuscated and needs
/// no mappings.
pub fn parchment_urls(minecraft: &str) -> (r: Option<Vec<String>>)
    ensures
        match r {
            None => unobfuscated(minecraft@),
            Some(urls) => !unobfuscated(minecraft@) && texts(urls@) == parchment_candidate_list(
                minecraft@,
            ).map_values(|c: Seq<char>| parchment_url_text(c)),
        },
{
    if is_unobfuscated_minecraft(minecraft) {
        return None;
    }
    let candidates = parchment_candidates(minecraft);
    let mut urls: Vec<String> = Vec::new();
    let mut i: usize = 0;
    let ghost all = parchment_candidate_list(minecraft@).map_values(
        |c: Seq<char>| parchment_url_text(c),
    );
    while i < candidates.len()
        invariant
            i <= candidates@.len(),
            texts(candidates@) == parchment_candidate_list(minecraft@),
            all == parchment_candidate_list(minecraft@).map_values(
                |c: Seq<char>| parchment_url_text(c),
            ),
            texts(urls@) == all.take(i as int),
        decreases candidates@.len() - i,
    {
        let mut u = owned(
            "https://ldtteam.jfrog.io/artifactory/parchmentmc-public/org/parchmentmc/data/parchment-",
        );
        u.append(candidates[i].as_str());
        u.append("/maven-metadata.xml");
        let ghost before = texts(urls@);
        urls.push(u);
        assert(texts(urls@) =~= before.push(all[i as int]));
        assert(all.take(i as int + 1) =~= all.take(i as int).push(all[i as int]));
        i = i + 1;
    }
    assert(all.take(i as int) =~= all);
    Some(urls)
}

/// The Parchment item from one candidate's Maven metadata: the greatest
/// version that is neither `nightly` nor a `SNAPSHOT`; `None` (try the next
/// candidate) when the request failed or no such version is listed.
pub fn parchment_candidate_item(url: &str, body: Result<String, String>) -> (r: Option<
    DependencyItem,
>)
    ensures
        match body {
            Err(_) => r is None,
            Ok(b) => match last_max(maven_versions(b@).filter(filter_keeps(VersionFilter::Release))) {
                None => r is None,
                Some(v) => r matches Some(item) && {
                    &&& item.id@ == "parchment"@
                    &&& item.kind@ == "mapping"@
                    &&& item.status == ItemStatus::Okay
                    &&& opt_text(item.version) == Some(v)
                    &&& item.loader_versions.is_empty()
                    &&& item.coordinates is None
                    &&& item.source@ == url@
                    &&& item.error is None
                },
            },
        },
{
    match body {
        Err(_) => None,
        Ok(b) => match best_listed_version(b.as_str(), &VersionFilter::Release) {
            None => None,
            Some(v) => Some(
                DependencyItem {
                    id: owned("parchment"),
                    kind: owned("mapping"),
                    status: ItemStatus::Okay,
                    version: Some(v),
                    loader_versions: LoaderVersions::default(),
                    coordinates: None,
                    source: owned(url),
                    error: None,
                },
            ),
        },
    }
}

// ---------------------------------------------------------------------------
// Dependency listings.
// ---------------------------------------------------------------------------

/// The ids a dependency listing resolves: the built-ins, then the requested
/// projects, each once.
pub fn dependency_ids(mods: &[String]) -> (r: Vec<String>)
    ensures
        texts(r@) == (built_in_ids() + texts(mods@)).remove_duplicates(seq![]),
{
    let builtins = built_ins();
    let mut ids: Vec<String> = Vec::new();
    let mut i: usize = 0;
    while i < builtins.len()
        invariant
            i <= builtins@.len(),
            str_texts(builtins@) == built_in_ids(),
            texts(ids@) == built_in_ids().take(i as int),
        decreases builtins@.len() - i,
    {
        let ghost before = texts(ids@);
        ids.push(owned(builtins[i]));
        assert(texts(ids@) =~= before.push(built_in_ids()[i as int]));
        assert(built_in_ids().take(i as int + 1) =~= built_in_ids().take(i as int).push(
            built_in_ids()[i as int],
        ));
        i = i + 1;
    }
    let mut j: usize = 0;
    assert(built_in_ids().take(i as int) =~= built_in_ids());
    assert(texts(ids@) =~= built_in_ids() + texts(mods@).take(0));
    while j < mods.len()
        invariant
            j <= mods@.len(),
            texts(ids@) == built_in_ids() + texts(mods@).take(j as int),
        decreases mods@.len() - j,
    {
        let ghost before = texts(ids@);
        ids.push(mods[j].clone());
        assert(texts(ids@) =~= before.push(mods@[j as int]@));
        assert(built_in_ids() + texts(mods@).take(j as int + 1) =~= (built_in_ids() + texts(
            mods@,
        ).take(j as int)).push(mods@[j as int]@));
        j = j + 1;
    }
    assert(texts(mods@).take(j as int) =~= texts(mods@));
    unique_preserving_order(ids)
}

/// How one dependency id is resolved.
#[derive(Debug, Clone, Copy, PartialEq, Eq, Structural)]
pub enum DependencyPlan {
    /// The Forge loader, as kind `loader`.
    ForgeLoader,
    /// The NeoForge loader, as kind `loader`.
    NeoForgeLoader,
    /// The Fabric loader, as kind `loader` under the id `fabric-loader`.
    FabricLoader,
    /// Parchment mappings.
    Parchment,
    /// NeoForm: the greatest NeoForm version starting with `<minecraft>-`.
    NeoForm,
    /// ForgeGradle: the latest version of its plugin metadata.
    ForgeGradle,
    /// ModDevGradle: the latest version of its Maven metadata.
    ModDevGradle,
    /// Fabric Loom.
    Loom,
    /// Any other id: a Modrinth project.
    Modrinth,
}

/// The plan for resolving a dependency id.
pub open spec fn plan_for(id: Seq<char>) -> DependencyPlan {
    if id == "forge"@ {
        DependencyPlan::ForgeLoader
    } else if id == "neoforge"@ {
        DependencyPlan::NeoForgeLoader
    } else if id == "fabric-loader"@ {
        DependencyPlan::FabricLoader
    } else if id == "parchment"@ {
        DependencyPlan::Parchment
    } else if id == "neoform"@ {
        DependencyPlan::NeoForm
    } else if id == "forgegradle"@ {
        DependencyPlan::ForgeGradle
    } else if id == "moddev-gradle"@ {
        DependencyPlan::ModDevGradle
    } else if id == "loom"@ {
        DependencyPlan::Loom
    } else {
        DependencyPlan::Modrinth
    }
}

/// Whether `a` spells the literal `b`.
fn is_word(a: &[char], b: &str) -> (r: bool)
    ensures
        r == (a@ == b@),
{
    let w = chars_of(b);
    crate::text::same_text(a, w.as_slice())
}

/// The plan for resolving a dependency id.
pub fn dependency_plan(id: &str) -> (r: DependencyPlan)
    ensures
        r == plan_for(id@),
{
    let cs = chars_of(id);
    let a = cs.as_slice();
    if is_word(a, "forge") {
        DependencyPlan::ForgeLoader
    } else if is_word(a, "neoforge") {
        DependencyPlan::NeoForgeLoader
    } else if is_word(a, "fabric-loader") {
        DependencyPlan::FabricLoader
    } else if is_word(a, "parchment") {
        DependencyPlan::Parchment
    } else if is_word(a, "neoform") {
        DependencyPlan::NeoForm
    } else if is_word(a, "forgegradle") {
        DependencyPlan::ForgeGradle
    } else if is_word(a, "moddev-gradle") {
        DependencyPlan::ModDevGradle
    } else if is_word(a, "loom") {
        DependencyPlan::Loom
    } else {
        DependencyPlan::Modrinth
    }
}

/// Where NeoForm versions are published.
pub const NEOFORM_SOURCE: &'static str = "https://maven.neoforged.net/releases/net/neoforged/neoform/";

/// Where the ForgeGradle plugin is published.
pub const FORGEGRADLE_SOURCE: &'static str = "https://plugins.gradle.org/plugin/net.minecraftforge.gradle";

/// Where ModDevGradle is published.
pub const MODDEV_GRADLE_SOURCE: &'static str =
    "https://maven.neoforged.net/releases/net/neoforged/moddev-gradle/";

/// The kind of item a plan resolves to: `loader`, `mapping`, `tool` or `mod`.
pub open spec fn plan_kind(p: DependencyPlan) -> Seq<char> {
    match p {
        DependencyPlan::ForgeLoader | DependencyPlan::NeoForgeLoader | DependencyPlan::FabricLoader => "loader"@,
        DependencyPlan::Parchment | DependencyPlan::NeoForm => "mapping"@,
        DependencyPlan::ForgeGradle | DependencyPlan::ModDevGradle | DependencyPlan::Loom => "tool"@,
        DependencyPlan::Modrinth => "mod"@,
    }
}

/// The kind of item a dependency id resolves to.
pub fn dependency_kind(id: &str) -> (r: &'static str)
    ensures
        r@ == plan_kind(plan_for(id@)),
{
    match dependency_plan(id) {
        DependencyPlan::ForgeLoader | DependencyPlan::NeoForgeLoader | DependencyPlan::FabricLoader => "loader",
        DependencyPlan::Parchment | DependencyPlan::NeoForm => "mapping",
        DependencyPlan::ForgeGradle | DependencyPlan::ModDevGradle | DependencyPlan::Loom => "tool",
        DependencyPlan::Modrinth => "mod",
    }
}

/// A loader item restated as the dependency item of `id`: the item carries
/// `id` and the kind that `id`'s plan resolves to.
pub fn loader_plan_item(id: &str, loader: LoaderItem) -> (r: DependencyItem)
    ensures
        r.id@ == id@,
        r.kind@ == plan_kind(plan_for(id@)),
        r.status == loader.status,
        r.version == loader.version,
        r.coordinates == loader.maven,
        r.source == loader.source,
        r.error == loader.error,
        r.loader_versions.forge == if loader.loader@ == "forge"@ {
            loader.version
        } else {
            None
        },
        r.loader_versions.neoforge == if loader.loader@ == "neoforge"@ {
            loader.version
        } else {
            None
        },
        r.loader_versions.fabric == if loader.loader@ == "fabric"@ {
            loader.version
        } else {
            None
        },
{
    loader_dependency(id, dependency_kind(id), loader)
}

/// The version a Maven metadata text names as latest: its `<latest>` tag,
/// else the greatest listed version.
pub open spec fn maven_latest(b: Seq<char>) -> Option<Seq<char>> {
    match xml_tag_value(b, "latest"@) {
        Some(v) => Some(v),
        None => last_max(maven_versions(b)),
    }
}

/// The status, version and error of an item resolved from Maven metadata's
/// latest version (or the error met fetching it).
pub open spec fn latest_maven_outcome(r: DependencyItem, body: Result<String, String>) -> bool {
    match body {
        Err(e) => r.status == ItemStatus::Error && r.version is None && opt_text(r.error) == Some(e@),
        Ok(b) => match maven_latest(b@) {
            None => r.status == ItemStatus::Error && r.version is None && opt_text(r.error) == Some(
                "no Maven version found"@,
            ),
            Some(v) => r.status == ItemStatus::Okay && opt_text(r.version) == Some(v) && r.error is None,
        },
    }
}

/// The ForgeGradle item: a `tool`, the latest version of its plugin metadata.
pub fn forgegradle_item(body: Result<String, String>) -> (r: DependencyItem)
    ensures
        r.id@ == "forgegradle"@,
        r.kind@ == "tool"@,
        r.source@ == FORGEGRADLE_SOURCE@,
        r.loader_versions.is_empty(),
        r.coordinates is None,
        latest_maven_outcome(r, body),
{
    latest_maven_item("forgegradle", "tool", FORGEGRADLE_SOURCE, body)
}

/// The ModDevGradle item: a `tool`, the latest version of its Maven metadata.
pub fn moddev_gradle_item(body: Result<String, String>) -> (r: DependencyItem)
    ensures
        r.id@ == "moddev-gradle"@,
        r.kind@ == "tool"@,
        r.source@ == MODDEV_GRADLE_SOURCE@,
        r.loader_versions.is_empty(),
        r.coordinates is None,
        latest_maven_outcome(r, body),
{
    latest_maven_item("moddev-gradle", "tool", MODDEV_GRADLE_SOURCE, body)
}

/// Every built-in dependency id resolves by its own plan to its documented
/// kind (the loaders to `loader`, Parchment and NeoForm to `mapping`,
/// ForgeGradle, ModDevGradle and Loom to `tool`), and every other id is a
/// Modrinth project, of kind `mod`.
pub proof fn law_dependency_kinds(id: Seq<char>)
    ensures
        id == "forge"@ ==> plan_for(id) == DependencyPlan::ForgeLoader,
        id == "neoforge"@ ==> plan_for(id) == DependencyPlan::NeoForgeLoader,
        id == "fabric-loader"@ ==> plan_for(id) == DependencyPlan::FabricLoader,
        id == "parchment"@ ==> plan_for(id) == DependencyPlan::Parchment,
        id == "neoform"@ ==> plan_for(id) == DependencyPlan::NeoForm,
        id == "forgegradle"@ ==> plan_for(id) == DependencyPlan::ForgeGradle,
        id == "moddev-gradle"@ ==> plan_for(id) == DependencyPlan::ModDevGradle,
        id == "loom"@ ==> plan_for(id) == DependencyPlan::Loom,
        (id == "forge"@ || id == "neoforge"@ || id == "fabric-loader"@) ==> plan_kind(plan_for(id))
            == "loader"@,
        (id == "parchment"@ || id == "neoform"@) ==> plan_kind(plan_for(id)) == "mapping"@,
        (id == "forgegradle"@ || id == "moddev-gradle"@ || id == "loom"@) ==> plan_kind(
            plan_for(id),
        ) == "tool"@,
        !built_in_ids().contains(id) ==> plan_for(id) == DependencyPlan::Modrinth && plan_kind(
            plan_for(id),
        ) == "mod"@,
{
    reveal_strlit("forge");
    reveal_strlit("neoforge");
    reveal_strlit("fabric-loader");
    reveal_strlit("parchment");
    reveal_strlit("neoform");
    reveal_strlit("forgegradle");
    reveal_strlit("moddev-gradle");
    reveal_strlit("loom");
    assert("forge"@.len() == 5 && "neoforge"@.len() == 8 && "fabric-loader"@.len() == 13);
    assert("parchment"@.len() == 9 && "neoform"@.len() == 7 && "forgegradle"@.len() == 11);
    assert("moddev-gradle"@.len() == 13 && "loom"@.len() == 4);
    assert("fabric-loader"@[0] != "moddev-gradle"@[0]);
    if id == "neoforge"@ {
        assert(id != "forge"@);
    }
    if id == "fabric-loader"@ {
        assert(id != "forge"@ && id != "neoforge"@);
    }
    if !built_in_ids().contains(id) {
        let b = built_in_ids();
        assert(b[0] == "forge"@ && b[1] == "neoforge"@ && b[2] == "fabric-loader"@ && b[3]
            == "parchment"@ && b[4] == "neoform"@ && b[5] == "forgegradle"@ && b[6]
            == "moddev-gradle"@ && b[7] == "loom"@);
        assert(id != b[0] && id != b[1] && id != b[2] && id != b[3] && id != b[4] && id != b[5]
            && id != b[6] && id != b[7]);
    }
}

/// The NeoForm item: the greatest NeoForm version for the Minecraft version
/// (those starting with `<minecraft>-`).
pub fn neoform_item(minecraft: &str, body: Result<String, String>) -> (r: DependencyItem)
    ensures
        r.id@ == "neoform"@,
        r.kind@ == "mapping"@,
        r.source@ == NEOFORM_SOURCE@,
        r.loader_versions.is_empty(),
        r.coordinates is None,
        match body {
            Err(e) => r.status == ItemStatus::Error && r.version is None && opt_text(r.error) == Some(e@),
            Ok(b) => match last_max(
                maven_versions(b@).filter(|v: Seq<char>| starts_with(v, minecraft@ + seq!['-'])),
            ) {
                None => r.status == ItemStatus::Error && r.version is None && opt_text(r.error) == Some(
                    "no matching Maven version found"@,
                ),
                Some(v) => r.status == ItemStatus::Okay && opt_text(r.version) == Some(v)
                    && r.error is None,
            },
        },
{
    let mut prefix = owned(minecraft);
    push_char(&mut prefix, '-');
    let ghost p = prefix@;
    assert(p =~= minecraft@ + seq!['-']);
    let filter = VersionFilter::Prefix(prefix);
    proof {
        assert(filter_keeps(filter) =~= (|v: Seq<char>| starts_with(v, minecraft@ + seq!['-'])));
    }
    maven_dependency_item(
        "neoform",
        "mapping",
        NEOFORM_SOURCE,
        &filter,
        None,
        "no matching Maven version found",
        body,
    )
}

} // verus!

verus! {

// ---------------------------------------------------------------------------
// Modrinth projects.
// ---------------------------------------------------------------------------

/// One version of a Modrinth project, as Modrinth's API lists it.
#[derive(Debug, Clone, PartialEq, Eq)]
pub struct ModrinthVersion {
    pub version_number: String,
    pub date_published: String,
    pub loaders: Vec<String>,
}

/// The most recently published version (by the text of its publication
/// date), the last one among equal dates (`Iterator::max_by_key`).
pub open spec fn newest(vs: Seq<ModrinthVersion>) -> Option<ModrinthVersion>
    decreases vs.len(),
{
    if vs.len() == 0 {
        None
    } else {
        match newest(vs.drop_last()) {
            None => Some(vs.last()),
            Some(m) => if text_lt(vs.last().date_published@, m.date_published@) {
                Some(m)
            } else {
                Some(vs.last())
            },
        }
    }
}

/// The versions that list `loader`.
pub open spec fn supports(loader: Seq<char>) -> spec_fn(ModrinthVersion) -> bool {
    |v: ModrinthVersion| texts(v.loaders@).contains(loader)
}

/// The versions considered: all, or those that list the loader.
pub open spec fn with_loader(vs: Seq<ModrinthVersion>, loader: Option<Seq<char>>) -> Seq<
    ModrinthVersion,
> {
    match loader {
        Some(l) => vs.filter(supports(l)),
        None => vs,
    }
}

/// The version number of the newest version considered.
pub open spec fn newest_number(vs: Seq<ModrinthVersion>, loader: Option<Seq<char>>) -> Option<
    Seq<char>,
> {
    match newest(with_loader(vs, loader)) {
        Some(v) => Some(v.version_number@),
        None => None,
    }
}

/// Whether a version lists the loader.
fn lists_loader(v: &ModrinthVersion, loader: &str) -> (r: bool)
    ensures
        r == texts(v.loaders@).contains(loader@),
{
    let mut i: usize = 0;
    let l = chars_of(loader);
    while i < v.loaders.len()
        invariant
            i <= v.loaders@.len(),
            l@ == loader@,
            forall|j: int| 0 <= j < i ==> texts(v.loaders@)[j] != loader@,
        decreases v.loaders@.len() - i,
    {
        let c = chars_of(v.loaders[i].as_str());
        if crate::text::same_text(c.as_slice(), l.as_slice()) {
            assert(texts(v.loaders@)[i as int] == loader@);
            return true;
        }
        i = i + 1;
    }
    false
}

/// The version number of the newest version, among all or among those that
/// list a loader.
pub fn newest_version_number(vs: &Vec<ModrinthVersion>, loader: Option<&str>) -> (r: Option<String>)
    ensures
        opt_text(r) == newest_number(
            vs@,
            match loader {
                Some(l) => Some(l@),
                None => None,
            },
        ),
        ({
            let lo = match loader {
                Some(l) => Some(l@),
                None => None,
            };
            match r {
                None => forall|j: int| 0 <= j < vs@.len() ==> !considered_by(#[trigger] vs@[j], lo),
                Some(n) => exists|i: int|
                    0 <= i < vs@.len() && considered_by(vs@[i], lo) && vs@[i].version_number@ == n@
                        && forall|j: int|
                        0 <= j < vs@.len() && considered_by(#[trigger] vs@[j], lo) ==> !text_lt(
                            vs@[i].date_published@,
                            vs@[j].date_published@,
                        ),
            }
        }),
{
    let ghost lo = match loader {
        Some(l) => Some(l@),
        None => None::<Seq<char>>,
    };
    let mut best: Option<usize> = None;
    let mut i: usize = 0;
    while i < vs.len()
        invariant
            i <= vs@.len(),
            lo == match loader {
                Some(l) => Some(l@),
                None => None::<Seq<char>>,
            },
            match best {
                Some(b) => b < i && newest(with_loader(vs@.take(i as int), lo)) == Some(vs@[b as int]),
                None => newest(with_loader(vs@.take(i as int), lo)) is None,
            },
        decreases vs@.len() - i,
    {
        let ghost pre = vs@.take(i as int);
        let ghost v = vs@[i as int];
        assert(vs@.take(i as int + 1) =~= pre.push(v));
        let considered = match loader {
            Some(l) => lists_loader(&vs[i], l),
            None => true,
        };
        proof {
            if let Some(l) = loader {
                pre.lemma_filter_push(v, supports(l@));
            }
            let w = with_loader(pre.push(v), lo);
            if considered {
                assert(w =~= with_loader(pre, lo).push(v));
                assert(w.drop_last() =~= with_loader(pre, lo));
            } else {
                assert(w == with_loader(pre, lo));
            }
        }
        if considered {
            match best {
                None => {
                    best = Some(i);
                },
                Some(b) => {
                    let x = chars_of(vs[i].date_published.as_str());
                    let y = chars_of(vs[b].date_published.as_str());
                    let earlier = text_le_exec(x.as_slice(), y.as_slice()) && !crate::text::same_text(
                        x.as_slice(),
                        y.as_slice(),
                    );
                    if !earlier {
                        best = Some(i);
                    }
                },
            }
        }
        i = i + 1;
    }
    assert(vs@.take(i as int) =~= vs@);
    proof {
        let c = with_loader(vs@, lo);
        law_newest_is_latest_published(vs@, lo);
        if c.len() == 0 {
            assert forall|j: int| 0 <= j < vs@.len() implies !considered_by(#[trigger] vs@[j], lo) by {
                if considered_by(vs@[j], lo) {
                    assert(vs@.contains(vs@[j]));
                    assert(c.contains(vs@[j]));
                }
            }
        } else {
            let i = choose|i: int|
                0 <= i < c.len() && newest_number(vs@, lo) == Some(c[i].version_number@) && (forall|j: int|
                    0 <= j < c.len() ==> !text_lt(c[i].date_published@, #[trigger] c[j].date_published@))
                    && (forall|j: int|
                    i < j < c.len() ==> text_lt(#[trigger] c[j].date_published@, c[i].date_published@));
            assert(c.contains(c[i]));
            let k = choose|k: int| 0 <= k < vs@.len() && vs@[k] == c[i];
            assert forall|j: int|
                0 <= j < vs@.len() && considered_by(#[trigger] vs@[j], lo) implies !text_lt(
                vs@[k].date_published@,
                vs@[j].date_published@,
            ) by {
                assert(vs@.contains(vs@[j]));
                assert(c.contains(vs@[j]));
                let q = choose|q: int| 0 <= q < c.len() && c[q] == vs@[j];
                assert(!text_lt(c[i].date_published@, c[q].date_published@));
            }
        }
    }
    match best {
        Some(b) => Some(vs[b].version_number.clone()),
        None => None,
    }
}

/// Whether a version is considered: every version when no loader is asked
/// for, otherwise the versions that list the loader.
pub open spec fn considered_by(v: ModrinthVersion, loader: Option<Seq<char>>) -> bool {
    match loader {
        Some(l) => texts(v.loaders@).contains(l),
        None => true,
    }
}

/// The newest of a list is `None` exactly for an empty list, and otherwise
/// an entry whose publication date no entry's date exceeds, every later
/// entry being published strictly earlier.
proof fn lemma_newest(s: Seq<ModrinthVersion>)
    ensures
        (newest(s) is None) == (s.len() == 0),
        s.len() > 0 ==> exists|i: int|
            0 <= i < s.len() && newest(s) == Some(s[i]) && (forall|j: int|
                0 <= j < s.len() ==> !text_lt(s[i].date_published@, #[trigger] s[j].date_published@))
                && (forall|j: int|
                i < j < s.len() ==> text_lt(#[trigger] s[j].date_published@, s[i].date_published@)),
    decreases s.len(),
{
    lemma_text_order();
    if s.len() > 0 {
        let pre = s.drop_last();
        let x = s.last();
        let last = s.len() - 1;
        lemma_newest(pre);
        if pre.len() == 0 {
            assert(newest(s) == Some(s[0]));
            assert forall|j: int| 0 <= j < s.len() implies !text_lt(
                s[0].date_published@,
                #[trigger] s[j].date_published@,
            ) by {
                assert(j == 0);
            }
        } else {
            let i = choose|i: int|
                0 <= i < pre.len() && newest(pre) == Some(pre[i]) && (forall|j: int|
                    0 <= j < pre.len() ==> !text_lt(pre[i].date_published@, #[trigger] pre[j].date_published@))
                    && (forall|j: int|
                    i < j < pre.len() ==> text_lt(#[trigger] pre[j].date_published@, pre[i].date_published@));
            let m = pre[i];
            if text_lt(x.date_published@, m.date_published@) {
                assert(newest(s) == Some(s[i]));
                assert forall|j: int| 0 <= j < s.len() implies !text_lt(
                    s[i].date_published@,
                    #[trigger] s[j].date_published@,
                ) by {
                    if j < pre.len() {
                        assert(s[j] == pre[j]);
                    } else {
                        assert(s[j] == x);
                    }
                }
                assert forall|j: int| i < j < s.len() implies text_lt(
                    #[trigger] s[j].date_published@,
                    s[i].date_published@,
                ) by {
                    if j < pre.len() {
                        assert(s[j] == pre[j]);
                    }
                }
            } else {
                assert(newest(s) == Some(s[last]));
                assert(text_le(m.date_published@, x.date_published@));
                assert forall|j: int| 0 <= j < s.len() implies !text_lt(
                    s[last].date_published@,
                    #[trigger] s[j].date_published@,
                ) by {
                    if j < pre.len() {
                        assert(s[j] == pre[j]);
                        assert(!text_lt(m.date_published@, pre[j].date_published@));
                        if text_lt(x.date_published@, pre[j].date_published@) {
                            assert(text_le(m.date_published@, pre[j].date_published@));
                            if m.date_published@ == pre[j].date_published@ {
                                assert(text_le(pre[j].date_published@, x.date_published@));
                            }
                        }
                    }
                }
            }
        }
    }
}

/// The newest version of a Modrinth project, among all its versions or
/// among those that list a loader, is the one published last: the versions
/// considered are exactly the listed ones that list the loader (all of them
/// without a loader); there is none exactly when none is considered;
/// otherwise its number is that of a considered version whose publication
/// date no considered date exceeds, every considered version after it
/// having been published strictly earlier. The version numbers play no
/// part in the choice.
pub proof fn law_newest_is_latest_published(vs: Seq<ModrinthVersion>, loader: Option<Seq<char>>)
    ensures
        forall|v: ModrinthVersion|
            #[trigger] with_loader(vs, loader).contains(v) <==> vs.contains(v) && considered_by(v, loader),
        (newest_number(vs, loader) is None) == (with_loader(vs, loader).len() == 0),
        with_loader(vs, loader).len() > 0 ==> exists|i: int|
            0 <= i < with_loader(vs, loader).len() && newest_number(vs, loader) == Some(
                with_loader(vs, loader)[i].version_number@,
            ) && (forall|j: int|
                0 <= j < with_loader(vs, loader).len() ==> !text_lt(
                    with_loader(vs, loader)[i].date_published@,
                    #[trigger] with_loader(vs, loader)[j].date_published@,
                )) && (forall|j: int|
                i < j < with_loader(vs, loader).len() ==> text_lt(
                    #[trigger] with_loader(vs, loader)[j].date_published@,
                    with_loader(vs, loader)[i].date_published@,
                )),
{
    let c = with_loader(vs, loader);
    lemma_newest(c);
    match loader {
        Some(l) => {
            let p = supports(l);
            assert forall|v: ModrinthVersion| #[trigger] c.contains(v) <==> vs.contains(v)
                && considered_by(v, loader) by {
                if c.contains(v) {
                    vs.lemma_filter_contains_rev(p, v);
                    let k = choose|k: int| 0 <= k < c.len() && c[k] == v;
                    vs.lemma_filter_pred(p, k);
                }
                if vs.contains(v) && considered_by(v, loader) {
                    let k = choose|k: int| 0 <= k < vs.len() && vs[k] == v;
                    vs.lemma_filter_contains(p, k);
                }
            }
        },
        None => {},
    }
}

/// Modrinth's version listing of a project for one Minecraft version.
pub open spec fn modrinth_versions_url_text(project: Seq<char>, minecraft: Seq<char>) -> Seq<char> {
    MODRINTH_PROJECT_BASE_URL@ + seq!['/'] + project + "/version?game_versions=%5B%22"@ + minecraft
        + "%22%5D"@
}

/// Modrinth's version listing of a project for one Minecraft version.
pub fn modrinth_versions_url(project: &str, minecraft: &str) -> (r: String)
    ensures
        r@ == modrinth_versions_url_text(project@, minecraft@),
{
    let mut r = owned(MODRINTH_PROJECT_BASE_URL);
    push_char(&mut r, '/');
    r.append(project);
    r.append("/version?game_versions=%5B%22");
    r.append(minecraft);
    r.append("%22%5D");
    r
}

/// Modrinth's description of a project.
pub fn modrinth_project_url(project: &str) -> (r: String)
    ensures
        r@ == MODRINTH_PROJECT_BASE_URL@ + seq!['/'] + project@,
{
    let mut r = owned(MODRINTH_PROJECT_BASE_URL);
    push_char(&mut r, '/');
    r.append(project);
    r
}

/// A project's Modrinth page.
pub open spec fn modrinth_page_text(project: Seq<char>) -> Seq<char> {
    "https://modrinth.com/mod/"@ + project
}

/// The item of a Modrinth project, from its version listing (or the error
/// met fetching or reading it) and its slug (when the project description
/// could be read).
pub fn modrinth_item(project: &str, versions: Result<Vec<ModrinthVersion>, String>, slug: Option<
    String,
>) -> (r: DependencyItem)
    ensures
        r.kind@ == "mod"@,
        r.source@ == modrinth_page_text(project@),
        match versions {
            Err(e) => {
                &&& r.id@ == project@
                &&& r.status == ItemStatus::Error
                &&& r.version is None
                &&& r.loader_versions.is_empty()
                &&& r.coordinates is None
                &&& opt_text(r.error) == Some(e@)
            },
            Ok(vs) => match newest_number(vs@, None) {
                None => {
                    &&& r.id@ == project@
                    &&& r.status == ItemStatus::Error
                    &&& r.version is None
                    &&& r.loader_versions.is_empty()
                    &&& r.coordinates is None
                    &&& opt_text(r.error) == Some("no Modrinth versions found"@)
                },
                Some(number) => {
                    &&& r.id@ == match slug {
                        Some(s) => s@,
                        None => project@,
                    }
                    &&& r.status == ItemStatus::Okay
                    &&& opt_text(r.version) == Some(number)
                    &&& opt_text(r.loader_versions.forge) == newest_number(vs@, Some("forge"@))
                    &&& opt_text(r.loader_versions.neoforge) == newest_number(vs@, Some("neoforge"@))
                    &&& opt_text(r.loader_versions.fabric) == newest_number(vs@, Some("fabric"@))
                    &&& opt_text(r.coordinates) == Some("maven.modrinth:"@ + project@ + seq![':']
                        + number)
                    &&& r.error is None
                },
            },
        },
{
    let source = prefixed("https://modrinth.com/mod/", project);
    match versions {
        Err(e) => dependency_error(project, "mod", source.as_str(), e.as_str()),
        Ok(vs) => match newest_version_number(&vs, None) {
            None => dependency_error(project, "mod", source.as_str(), "no Modrinth versions found"),
            Some(number) => {
                let loader_versions = LoaderVersions {
                    forge: newest_version_number(&vs, Some("forge")),
                    neoforge: newest_version_number(&vs, Some("neoforge")),
                    fabric: newest_version_number(&vs, Some("fabric")),
                };
                let id = match slug {
                    Some(s) => s,
                    None => owned(project),
                };
                let mut coordinates = owned("maven.modrinth:");
                coordinates.append(project);
                push_char(&mut coordinates, ':');
                coordinates.append(number.as_str());
                DependencyItem {
                    id,
                    kind: owned("mod"),
                    status: ItemStatus::Okay,
                    version: Some(number),
                    loader_versions,
                    coordinates: Some(coordinates),
                    source,
                    error: None,
                }
            },
        },
    }
}

} // verus!

verus! {

// ---------------------------------------------------------------------------
// Compatibility tables.
// ---------------------------------------------------------------------------

/// A copy of a set of loader versions.
pub fn copy_versions(v: &LoaderVersions) -> (r: LoaderVersions)
    ensures
        r == *v,
{
    LoaderVersions {
        forge: copy_opt(&v.forge),
        neoforge: copy_opt(&v.neoforge),
        fabric: copy_opt(&v.fabric),
    }
}

/// The value of the last entry for project `p` and Minecraft version `m`.
pub open spec fn last_value(entries: Seq<(String, String, LoaderVersions)>, p: Seq<char>, m: Seq<
    char,
>) -> Option<LoaderVersions>
    decreases entries.len(),
{
    if entries.len() == 0 {
        None
    } else if entries.last().0@ == p && entries.last().1@ == m {
        Some(entries.last().2)
    } else {
        last_value(entries.drop_last(), p, m)
    }
}

/// Some entry is for project `p`.
pub open spec fn lists_project(entries: Seq<(String, String, LoaderVersions)>, p: Seq<char>) -> bool {
    exists|i: int| 0 <= i < entries.len() && #[trigger] entries[i].0@ == p
}

/// The loader versions of project `p` for Minecraft version `m` in a table.
pub open spec fn table_cell(table: Seq<(String, Vec<(String, LoaderVersions)>)>, p: Seq<char>, m: Seq<
    char,
>) -> Option<LoaderVersions> {
    match lookup(table, p) {
        Some(inner) => lookup(inner@, m),
        None => None,
    }
}

/// Both levels of a table are ascending maps.
pub open spec fn table_well_formed(table: Seq<(String, Vec<(String, LoaderVersions)>)>) -> bool {
    &&& ascending(table)
    &&& forall|i: int| 0 <= i < table.len() ==> ascending(#[trigger] table[i].1@)
}

/// The compatibility table of resolved entries: for every project, the
/// loader versions per Minecraft version; a later entry for the same pair
/// replaces an earlier one.
pub fn compatibility_data(entries: Vec<(String, String, LoaderVersions)>) -> (r: CompatibilityData)
    ensures
        table_well_formed(r.projects@),
        forall|p: Seq<char>| #[trigger] has_key(r.projects@, p) == lists_project(entries@, p),
        forall|p: Seq<char>, m: Seq<char>|
            #[trigger] table_cell(r.projects@, p, m) == last_value(entries@, p, m),
{
    let mut outer: Vec<(String, Vec<(String, LoaderVersions)>)> = Vec::new();
    let mut i: usize = 0;
    while i < entries.len()
        invariant
            i <= entries@.len(),
            ascending(outer@),
            forall|q: Seq<char>|
                #[trigger] lookup(outer@, q) is Some ==> ascending(lookup(outer@, q)->0@),
            forall|q: Seq<char>|
                #[trigger] has_key(outer@, q) == lists_project(entries@.take(i as int), q),
            forall|q: Seq<char>, m: Seq<char>|
                #[trigger] table_cell(outer@, q, m) == last_value(entries@.take(i as int), q, m),
        decreases entries@.len() - i,
    {
        let p = entries[i].0.clone();
        let m = entries[i].1.clone();
        let lv = copy_versions(&entries[i].2);
        let ghost pv = p@;
        let ghost mv = m@;
        let ghost lvv = lv;
        let ghost old_outer = outer@;
        let ghost pre = entries@.take(i as int + 1);
        proof {
            assert(pre.drop_last() =~= entries@.take(i as int));
            assert(pre.last() == entries@[i as int]);
        }
        let mut inner: Vec<(String, LoaderVersions)> = match map_take(&mut outer, &p) {
            Some(v) => v,
            None => Vec::new(),
        };
        let ghost old_inner = inner@;
        proof {
            assert(ascending(inner@));
            assert(forall|mm: Seq<char>| #[trigger] lookup(old_inner, mm) == table_cell(old_outer, p@, mm));
        }
        map_insert(&mut inner, m, lv);
        let ghost new_inner = inner@;
        map_insert(&mut outer, p, inner);
        proof {
            assert forall|q: Seq<char>| #[trigger] lookup(outer@, q) is Some implies ascending(
                lookup(outer@, q)->0@,
            ) by {
                if q != p@ {
                    assert(lookup(outer@, q) == lookup(old_outer, q));
                }
            }
            assert forall|q: Seq<char>| #[trigger] has_key(outer@, q) == lists_project(pre, q) by {
                assert((lookup(outer@, q) is Some) == has_key(outer@, q));
                assert((lookup(old_outer, q) is Some) == has_key(old_outer, q));
                if q == p@ {
                    assert(pre[i as int].0@ == q);
                } else {
                    if lists_project(pre, q) {
                        let j = choose|j: int| 0 <= j < pre.len() && #[trigger] pre[j].0@ == q;
                        assert(j < i);
                        assert(entries@.take(i as int)[j].0@ == q);
                    }
                    if lists_project(entries@.take(i as int), q) {
                        let j = choose|j: int|
                            0 <= j < entries@.take(i as int).len() && #[trigger] entries@.take(
                                i as int,
                            )[j].0@ == q;
                        assert(pre[j].0@ == q);
                    }
                }
            }
            assert forall|q: Seq<char>, mm: Seq<char>| #[trigger]
                table_cell(outer@, q, mm) == last_value(pre, q, mm) by {
                assert(pre.last().0@ == pv && pre.last().1@ == mv && pre.last().2 == lvv);
                if q != pv {
                    assert(table_cell(old_outer, q, mm) == last_value(entries@.take(i as int), q, mm));
                    assert(lookup(outer@, q) == lookup(old_outer, q));
                } else {
                    assert(lookup(outer@, q)->0@ == new_inner);
                    assert(lookup(new_inner, mm) == if mm == mv {
                        Some(lvv)
                    } else {
                        lookup(old_inner, mm)
                    });
                    assert(pre.last().0@ == pv && pre.last().1@ == mv && pre.last().2 == lvv);
                }
            }
        }
        i = i + 1;
    }
    proof {
        assert(entries@.take(i as int) =~= entries@);
        assert forall|k: int| 0 <= k < outer@.len() implies ascending(#[trigger] outer@[k].1@) by {
            lemma_lookup_at(outer@, k);
        }
    }
    CompatibilityData { projects: outer }
}

/// The compatibility table with no versions resolved: every requested
/// project has, for every requested Minecraft version, empty loader versions.
pub fn compatibility_nulls(mods: &[String], minecraft_versions: &[String]) -> (r: CompatibilityData)
    ensures
        table_well_formed(r.projects@),
        forall|p: Seq<char>| #[trigger] has_key(r.projects@, p) == texts(mods@).contains(p),
        forall|p: Seq<char>, m: Seq<char>|
            #[trigger] table_cell(r.projects@, p, m) == if texts(mods@).contains(p) && texts(
                minecraft_versions@,
            ).contains(m) {
                Some(LoaderVersions { forge: None, neoforge: None, fabric: None })
            } else {
                None
            },
{
    let mut outer: Vec<(String, Vec<(String, LoaderVersions)>)> = Vec::new();
    let ghost empty = LoaderVersions { forge: None, neoforge: None, fabric: None };
    let mut i: usize = 0;
    while i < mods.len()
        invariant
            i <= mods@.len(),
            empty == (LoaderVersions { forge: None, neoforge: None, fabric: None }),
            ascending(outer@),
            forall|q: Seq<char>|
                #[trigger] lookup(outer@, q) is Some ==> ascending(lookup(outer@, q)->0@),
            forall|q: Seq<char>| #[trigger] has_key(outer@, q) == texts(mods@).take(i as int).contains(q),
            forall|q: Seq<char>, m: Seq<char>|
                #[trigger] table_cell(outer@, q, m) == if texts(mods@).take(i as int).contains(q)
                    && texts(minecraft_versions@).contains(m) {
                    Some(empty)
                } else {
                    None
                },
        decreases mods@.len() - i,
    {
        let mut inner: Vec<(String, LoaderVersions)> = Vec::new();
        let mut j: usize = 0;
        while j < minecraft_versions.len()
            invariant
                j <= minecraft_versions@.len(),
                empty == (LoaderVersions { forge: None, neoforge: None, fabric: None }),
                ascending(inner@),
                forall|m: Seq<char>|
                    #[trigger] lookup(inner@, m) == if texts(minecraft_versions@).take(
                        j as int,
                    ).contains(m) {
                        Some(empty)
                    } else {
                        None
                    },
            decreases minecraft_versions@.len() - j,
        {
            let ghost before = texts(minecraft_versions@).take(j as int);
            let ghost after = texts(minecraft_versions@).take(j as int + 1);
            assert(after =~= before.push(minecraft_versions@[j as int]@));
            map_insert(&mut inner, minecraft_versions[j].clone(), LoaderVersions::default());
            proof {
                assert forall|m: Seq<char>| #[trigger] lookup(inner@, m) == if after.contains(m) {
                    Some(empty)
                } else {
                    None
                } by {
                    if m == minecraft_versions@[j as int]@ {
                        assert(after[j as int] == m);
                    } else {
                        if after.contains(m) {
                            let k = choose|k: int| 0 <= k < after.len() && after[k] == m;
                            assert(before[k] == m);
                        }
                        if before.contains(m) {
                            let k = choose|k: int| 0 <= k < before.len() && before[k] == m;
                            assert(after[k] == m);
                        }
                    }
                }
            }
            j = j + 1;
        }
        assert(texts(minecraft_versions@).take(j as int) =~= texts(minecraft_versions@));
        let ghost old_outer = outer@;
        let ghost inner_view = inner@;
        let ghost before = texts(mods@).take(i as int);
        let ghost after = texts(mods@).take(i as int + 1);
        assert(after =~= before.push(mods@[i as int]@));
        map_insert(&mut outer, mods[i].clone(), inner);
        proof {
            let p = mods@[i as int]@;
            assert forall|q: Seq<char>| #[trigger] lookup(outer@, q) is Some implies ascending(
                lookup(outer@, q)->0@,
            ) by {
                if q != p {
                    assert(lookup(outer@, q) == lookup(old_outer, q));
                }
            }
            assert forall|q: Seq<char>| #[trigger] has_key(outer@, q) == after.contains(q) by {
                assert((lookup(outer@, q) is Some) == has_key(outer@, q));
                assert((lookup(old_outer, q) is Some) == has_key(old_outer, q));
                if q == p {
                    assert(after[i as int] == q);
                } else {
                    if after.contains(q) {
                        let k = choose|k: int| 0 <= k < after.len() && after[k] == q;
                        assert(before[k] == q);
                    }
                    if before.contains(q) {
                        let k = choose|k: int| 0 <= k < before.len() && before[k] == q;
                        assert(after[k] == q);
                    }
                }
            }
            assert forall|q: Seq<char>, m: Seq<char>| #[trigger]
                table_cell(outer@, q, m) == if after.contains(q) && texts(minecraft_versions@).contains(
                    m,
                ) {
                    Some(empty)
                } else {
                    None
                } by {
                if q == p {
                    assert(after[i as int] == q);
                    assert(lookup(outer@, q)->0@ == inner_view);
                    assert(lookup(inner_view, m) == if texts(minecraft_versions@).contains(m) {
                        Some(empty)
                    } else {
                        None
                    });
                } else {
                    assert(lookup(outer@, q) == lookup(old_outer, q));
                    assert(table_cell(old_outer, q, m) == if before.contains(q) && texts(
                        minecraft_versions@,
                    ).contains(m) {
                        Some(empty)
                    } else {
                        None
                    });
                    if after.contains(q) {
                        let k = choose|k: int| 0 <= k < after.len() && after[k] == q;
                        assert(before[k] == q);
                    }
                    if before.contains(q) {
                        let k = choose|k: int| 0 <= k < before.len() && before[k] == q;
                        assert(after[k] == q);
                    }
                }
            }
        }
        i = i + 1;
    }
    proof {
        assert(texts(mods@).take(i as int) =~= texts(mods@));
        assert forall|k: int| 0 <= k < outer@.len() implies ascending(#[trigger] outer@[k].1@) by {
            lemma_lookup_at(outer@, k);
        }
    }
    CompatibilityData { projects: outer }
}

impl CompatibilityData {
    /// The loader versions of `project` for Minecraft version `minecraft`,
    /// if the table has that cell.
    pub fn get(&self, project: &str, minecraft: &str) -> (r: Option<&LoaderVersions>)
        requires
            table_well_formed(self.projects@),
        ensures
            match r {
                Some(v) => table_cell(self.projects@, project@, minecraft@) == Some(*v),
                None => table_cell(self.projects@, project@, minecraft@) is None,
            },
    {
        match map_get(&self.projects, project) {
            Some(inner) => {
                proof {
                    let t = self.projects@;
                    let i = choose|i: int| 0 <= i < t.len() && #[trigger] t[i].0@ == project@;
                    lemma_lookup_at(t, i);
                }
                map_get(inner, minecraft)
            },
            None => None,
        }
    }
}

// ---------------------------------------------------------------------------
// Laws of dependency listings.
// ---------------------------------------------------------------------------

/// What `remove_duplicates` returns starts with what it had seen.
proof fn lemma_remove_duplicates_keeps_seen(s: Seq<Seq<char>>, seen: Seq<Seq<char>>)
    ensures
        s.remove_duplicates(seen).len() >= seen.len(),
        s.remove_duplicates(seen).take(seen.len() as int) == seen,
    decreases s.len(),
{
    if s.len() > 0 {
        if seen.contains(s[0]) {
            lemma_remove_duplicates_keeps_seen(s.skip(1), seen);
        } else {
            let next = seen + seq![s[0]];
            lemma_remove_duplicates_keeps_seen(s.skip(1), next);
            let r = s.skip(1).remove_duplicates(next);
            assert(r.take(seen.len() as int) =~= next.take(seen.len() as int));
            assert(next.take(seen.len() as int) =~= seen);
        }
    } else {
        assert(seen.take(seen.len() as int) =~= seen);
    }
}

/// Distinct items not seen before are all kept, in order, before anything
/// that follows them.
proof fn lemma_remove_duplicates_fresh_prefix(a: Seq<Seq<char>>, b: Seq<Seq<char>>, seen: Seq<Seq<char>>)
    requires
        a.no_duplicates(),
        forall|x: Seq<char>| #[trigger] a.contains(x) ==> !seen.contains(x),
    ensures
        (a + b).remove_duplicates(seen) == b.remove_duplicates(seen + a),
    decreases a.len(),
{
    if a.len() == 0 {
        assert(a + b =~= b);
        assert(seen + a =~= seen);
    } else {
        let s = a + b;
        assert(s[0] == a[0]);
        assert(a.contains(a[0]));
        assert(s.skip(1) =~= a.skip(1) + b);
        let next = seen + seq![a[0]];
        assert forall|x: Seq<char>| #[trigger] a.skip(1).contains(x) implies !next.contains(x) by {
            let k = choose|k: int| 0 <= k < a.skip(1).len() && a.skip(1)[k] == x;
            assert(a[k + 1] == x);
            assert(a.contains(x));
            if x == a[0] {
                assert(a[0] == a[k + 1]);
            }
            if next.contains(x) {
                let j = choose|j: int| 0 <= j < next.len() && next[j] == x;
                if j < seen.len() {
                    assert(seen[j] == x);
                }
            }
        }
        assert(a.skip(1).no_duplicates()) by {
            assert forall|i: int, j: int|
                0 <= i < a.skip(1).len() && 0 <= j < a.skip(1).len() && i != j implies a.skip(1)[i]
                != a.skip(1)[j] by {
                assert(a.skip(1)[i] == a[i + 1] && a.skip(1)[j] == a[j + 1]);
            }
        }
        lemma_remove_duplicates_fresh_prefix(a.skip(1), b, next);
        assert(next + a.skip(1) =~= seen + a);
    }
}

/// The built-in dependency ids are distinct.
proof fn lemma_built_ins_distinct()
    ensures
        built_in_ids().no_duplicates(),
{
    reveal_strlit("forge");
    reveal_strlit("neoforge");
    reveal_strlit("fabric-loader");
    reveal_strlit("parchment");
    reveal_strlit("neoform");
    reveal_strlit("forgegradle");
    reveal_strlit("moddev-gradle");
    reveal_strlit("loom");
    let b = built_in_ids();
    assert(b[2][0] != b[6][0]);
    assert forall|i: int, j: int| 0 <= i < b.len() && 0 <= j < b.len() && i != j implies b[i] != b[j] by {
        if i == 2 && j == 6 || i == 6 && j == 2 {
            assert(b[2][0] != b[6][0]);
        } else {
            assert(b[i].len() != b[j].len());
        }
    }
}

/// Every dependency listing starts with all the built-in dependencies, in
/// their order, names every id once, and names exactly the built-ins and
/// the requested projects (what `dependency_ids` returns).
pub proof fn law_dependency_ids_start_with_built_ins(mods: Seq<Seq<char>>)
    ensures
        ({
            let ids = (built_in_ids() + mods).remove_duplicates(seq![]);
            &&& ids.len() >= built_in_ids().len()
            &&& ids.take(built_in_ids().len() as int) == built_in_ids()
            &&& ids.no_duplicates()
            &&& forall|x: Seq<char>| #[trigger] ids.contains(x) <==> built_in_ids().contains(x)
                || mods.contains(x)
        }),
{
    let b = built_in_ids();
    lemma_built_ins_distinct();
    let empty: Seq<Seq<char>> = seq![];
    lemma_remove_duplicates_fresh_prefix(b, mods, empty);
    assert(empty + b =~= b);
    lemma_remove_duplicates_keeps_seen(mods, b);
    crate::util::lemma_remove_duplicates_unique(b + mods, empty);
    (b + mods).lemma_remove_duplicates_properties(empty);
    assert((b + mods) + empty =~= b + mods);
    assert forall|x: Seq<char>| #[trigger] (b + mods).contains(x) <==> b.contains(x) || mods.contains(x) by {
        if (b + mods).contains(x) {
            let k = choose|k: int| 0 <= k < (b + mods).len() && (b + mods)[k] == x;
            if k < b.len() {
                assert(b[k] == x);
            } else {
                assert(mods[k - b.len()] == x);
            }
        }
        if b.contains(x) {
            let k = choose|k: int| 0 <= k < b.len() && b[k] == x;
            assert((b + mods)[k] == x);
        }
        if mods.contains(x) {
            let k = choose|k: int| 0 <= k < mods.len() && mods[k] == x;
            assert((b + mods)[k + b.len()] == x);
        }
    }
}

// ---------------------------------------------------------------------------
// Laws of Parchment candidates.
// ---------------------------------------------------------------------------

/// `a.b.rest` split at its first two dots, when `a` and `b` have none.
proof fn lemma_two_fields(a: Seq<char>, b: Seq<char>, rest: Seq<char>)
    requires
        !a.contains('.'),
        !b.contains('.'),
    ensures
        ({
            let s = a + seq!['.'] + b + seq!['.'] + rest;
            &&& nth_field(s, '.', 0) == Some(a)
            &&& nth_field(s, '.', 1) == Some(b)
            &&& nth_field(s, '.', 2) == nth_field(rest, '.', 0)
        }),
{
    let s = a + seq!['.'] + b + seq!['.'] + rest;
    let t = b + seq!['.'] + rest;
    assert forall|i: int| 0 <= i < a.len() implies s[i] != '.' by {
        assert(s[i] == a[i]);
        if a[i] == '.' {
            assert(a.contains('.'));
        }
    }
    assert(s[a.len() as int] == '.');
    lemma_find_char_at(s, '.', 0, a.len() as int);
    assert(s.take(a.len() as int) =~= a);
    assert(s.skip(a.len() as int + 1) =~= t);
    assert forall|i: int| 0 <= i < b.len() implies t[i] != '.' by {
        assert(t[i] == b[i]);
        if b[i] == '.' {
            assert(b.contains('.'));
        }
    }
    assert(t[b.len() as int] == '.');
    lemma_find_char_at(t, '.', 0, b.len() as int);
    assert(t.take(b.len() as int) =~= b);
    assert(t.skip(b.len() as int + 1) =~= rest);
    reveal_with_fuel(nth_field, 3);
}

/// For `major.minor.patch` (optionally followed by a `-` suffix), the
/// Parchment versions tried are the version itself and then, counting the
/// whole patch number down, `major.minor.(patch - 1)` to `major.minor.0`:
/// `patch + 1` candidates in all.
pub proof fn law_parchment_counts_down_patch(major: Seq<char>, minor: Seq<char>, patch: nat, suffix: Seq<char>)
    requires
        !major.contains('.'),
        !minor.contains('.'),
        !suffix.contains('.'),
        suffix.len() == 0 || suffix[0] == '-',
        patch <= 0x7fff_ffff,
    ensures
        ({
            let mc = major + seq!['.'] + minor + seq!['.'] + decimal_text(patch) + suffix;
            let c = parchment_candidate_list(mc);
            &&& c.len() == patch + 1
            &&& c[0] == mc
            &&& forall|k: int|
                1 <= k <= patch ==> #[trigger] c[k] == major + seq!['.'] + minor + seq!['.']
                    + decimal_text((patch - k) as nat)
        }),
{
    let d = decimal_text(patch);
    let t = d + suffix;
    let mc = major + seq!['.'] + minor + seq!['.'] + t;
    assert(mc =~= major + seq!['.'] + minor + seq!['.'] + decimal_text(patch) + suffix);
    lemma_two_fields(major, minor, t);
    lemma_decimal_text(patch);
    lemma_parse_i32_decimal(patch);
    assert forall|i: int| 0 <= i < t.len() implies t[i] != '.' by {
        if i < d.len() {
            assert(t[i] == d[i]);
            assert(is_digit(d[i]));
        } else {
            assert(t[i] == suffix[i - d.len()]);
            if suffix[i - d.len()] == '.' {
                assert(suffix.contains('.'));
            }
        }
    }
    lemma_find_char_none(t, '.', 0);
    assert(field_before(t, '.') == t);
    if suffix.len() == 0 {
        assert(t =~= d);
        assert forall|i: int| 0 <= i < t.len() implies t[i] != '-' by {
            assert(is_digit(d[i]));
        }
        lemma_find_char_none(t, '-', 0);
    } else {
        assert forall|i: int| 0 <= i < d.len() implies t[i] != '-' by {
            assert(t[i] == d[i]);
            assert(is_digit(d[i]));
        }
        assert(t[d.len() as int] == '-');
        lemma_find_char_at(t, '-', 0, d.len() as int);
        assert(t.take(d.len() as int) =~= d);
    }
    assert(field_before(t, '-') == d);
    let c = parchment_candidate_list(mc);
    assert forall|k: int|
        1 <= k <= patch implies #[trigger] c[k] == major + seq!['.'] + minor + seq!['.']
            + decimal_text((patch - k) as nat) by {
        assert(c[k] == major + seq!['.'] + minor + seq!['.'] + decimal_text(
            (patch - 1 - (k - 1)) as nat,
        ));
    }
}

/// A version with only two parts, `major.minor`, is the only Parchment
/// version tried for itself.
pub proof fn law_parchment_without_patch(major: Seq<char>, minor: Seq<char>)
    requires
        !major.contains('.'),
        !minor.contains('.'),
    ensures
        parchment_candidate_list(major + seq!['.'] + minor) == seq![major + seq!['.'] + minor],
{
    let s = major + seq!['.'] + minor;
    assert forall|i: int| 0 <= i < major.len() implies s[i] != '.' by {
        assert(s[i] == major[i]);
        if major[i] == '.' {
            assert(major.contains('.'));
        }
    }
    lemma_find_char_at(s, '.', 0, major.len() as int);
    assert(s.skip(major.len() as int + 1) =~= minor);
    assert forall|i: int| 0 <= i < minor.len() implies minor[i] != '.' by {
        if minor[i] == '.' {
            assert(minor.contains('.'));
        }
    }
    lemma_find_char_none(minor, '.', 0);
    reveal_with_fuel(nth_field, 3);
    assert(nth_field(s, '.', 2) is None);
}

} // verus!
