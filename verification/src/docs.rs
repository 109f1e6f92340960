//! The API documentation served at `/v1`, as a JSON value. The limits, rate
//! limits, cache lifetimes, header names and lists it documents are taken
//! from the library's own settings, and its endpoint paths are the routes
//! that `route_request` serves.

use vstd::prelude::*;
use crate::config::{
    built_ins, default_projects, DEFAULT_CACHE_TTL_COMPATIBILITY, DEFAULT_CACHE_TTL_DEPENDENCIES,
    DEFAULT_CACHE_TTL_LOADERS, DEFAULT_CACHE_TTL_MINECRAFT, MINECRAFT_THURSDAY_TTL,
    MINECRAFT_TUESDAY_TTL, MINECRAFT_WEDNESDAY_TTL, MODRINTH_TOKEN_SECRET,
    PUBLIC_API_RATE_LIMIT_PER_MINUTE, REFRESH_HEADER, REFRESH_RATE_LIMIT_PER_MINUTE, USER_AGENT,
};
use crate::handling::{field_value, JsonValue, MAX_COMPATIBILITY_VERSIONS, MAX_MODS, MAX_MOD_ID_LEN};
use crate::text::{decimal_text, owned, push_decimal};

verus! {

broadcast use vstd::string::group_string_axioms;

/// The value of field `name` of an object.
pub open spec fn json_get(v: Option<JsonValue>, name: Seq<char>) -> Option<JsonValue> {
    match v {
        Some(JsonValue::Object(fields)) => field_value(fields@, name),
        _ => None,
    }
}

/// The text of a JSON string.
pub open spec fn json_text(v: Option<JsonValue>) -> Option<Seq<char>> {
    match v {
        Some(JsonValue::Text(t)) => Some(t@),
        _ => None,
    }
}

/// The digits of a JSON number.
pub open spec fn json_number(v: Option<JsonValue>) -> Option<Seq<char>> {
    match v {
        Some(JsonValue::Number(t)) => Some(t@),
        _ => None,
    }
}

/// The `path` of a documented endpoint (empty when it has none).
pub open spec fn endpoint_path(e: JsonValue) -> Seq<char> {
    match json_text(json_get(Some(e), "path"@)) {
        Some(t) => t,
        None => seq![],
    }
}

/// The paths of the endpoints a documentation lists under `endpoints`.
pub open spec fn docs_endpoint_paths(docs: JsonValue) -> Seq<Seq<char>> {
    match json_get(Some(docs), "endpoints"@) {
        Some(JsonValue::Array(items)) => items@.map_values(|e: JsonValue| endpoint_path(e)),
        _ => seq![],
    }
}

/// The public endpoints, in the order they are documented: the routes that
/// `route_request` serves.
pub open spec fn documented_paths() -> Seq<Seq<char>> {
    seq![
        "/v1"@,
        "/v1/health"@,
        "/v1/minecraft/versions"@,
        "/v1/loaders/{minecraft}"@,
        "/v1/dependencies/{minecraft}"@,
        "/v1/mods/compatibility"@,
    ]
}

/// A JSON string.
fn text(s: &str) -> (r: JsonValue)
    ensures
        r matches JsonValue::Text(t) && t@ == s@,
{
    JsonValue::Text(owned(s))
}

/// A JSON number.
fn number(n: u64) -> (r: JsonValue)
    ensures
        r matches JsonValue::Number(t) && t@ == decimal_text(n as nat),
{
    let mut t = String::new();
    push_decimal(&mut t, n);
    JsonValue::Number(t)
}

/// A duration in seconds, as the text `<n> seconds`.
fn seconds(n: u64) -> (r: JsonValue)
    ensures
        r matches JsonValue::Text(t) && t@ == decimal_text(n as nat) + " seconds"@,
{
    let mut t = String::new();
    push_decimal(&mut t, n);
    t.append(" seconds");
    JsonValue::Text(t)
}

/// A JSON list of strings.
fn text_list(items: Vec<&'static str>) -> (r: JsonValue)
    ensures
        r matches JsonValue::Array(v) && v@.len() == items@.len(),
{
    let mut out: Vec<JsonValue> = Vec::new();
    let mut i: usize = 0;
    while i < items.len()
        invariant
            i <= items@.len(),
            out@.len() == i,
        decreases items@.len() - i,
    {
        out.push(text(items[i]));
        i = i + 1;
    }
    JsonValue::Array(out)
}

/// The documentation of `/v1/mods/compatibility`.
fn docs_endpoint_compatibility() -> (r: JsonValue)
    ensures
        json_text(json_get(Some(r), "path"@)) == Some("/v1/mods/compatibility"@),
{
    let mut f: Vec<(String, JsonValue)> = Vec::new();
    f.push((owned("method"), text("GET")));
    let v_path = text("/v1/mods/compatibility");
    let ghost g_path = v_path;
    f.push((owned("path"), v_path));
    f.push((owned("description"), text("Returns loader-specific Modrinth mod versions across multiple Minecraft versions.")));
    let mut f_3: Vec<(String, JsonValue)> = Vec::new();
    let mut f_3_0: Vec<(String, JsonValue)> = Vec::new();
    f_3_0.push((owned("required"), JsonValue::Bool(true)));
    f_3_0.push((owned("description"), text("Comma-separated Modrinth mod slugs.")));
    f_3_0.push((owned("max_entries"), number(MAX_MODS as u64)));
    f_3_0.push((owned("allowed_characters"), text("ASCII letters, digits, hyphen, underscore")));
    f_3.push((owned("mods"), JsonValue::Object(f_3_0)));
    let mut f_3_1: Vec<(String, JsonValue)> = Vec::new();
    f_3_1.push((owned("required"), JsonValue::Bool(true)));
    f_3_1.push((owned("description"), text("Comma-separated Minecraft version ids.")));
    f_3_1.push((owned("max_entries"), number(MAX_COMPATIBILITY_VERSIONS as u64)));
    f_3.push((owned("minecraft"), JsonValue::Object(f_3_1)));
    f.push((owned("query_parameters"), JsonValue::Object(f_3)));
    f.push((owned("cache"), seconds(DEFAULT_CACHE_TTL_COMPATIBILITY)));
    f.push((owned("failure_model"), text("Unresolved mod/version pairs return null loader fields.")));
    let mut f_6: Vec<(String, JsonValue)> = Vec::new();
    let mut f_6_0: Vec<(String, JsonValue)> = Vec::new();
    let mut f_6_0_0: Vec<(String, JsonValue)> = Vec::new();
    let mut f_6_0_0_0: Vec<(String, JsonValue)> = Vec::new();
    f_6_0_0_0.push((owned("forge"), JsonValue::Null));
    f_6_0_0_0.push((owned("neoforge"), JsonValue::Null));
    f_6_0_0_0.push((owned("fabric"), text("0.110.5+1.21.4")));
    f_6_0_0.push((owned("1.21.4"), JsonValue::Object(f_6_0_0_0)));
    f_6_0.push((owned("fabric-api"), JsonValue::Object(f_6_0_0)));
    f_6.push((owned("mods"), JsonValue::Object(f_6_0)));
    f.push((owned("data_shape"), JsonValue::Object(f_6)));
    let mut f_7: Vec<(String, JsonValue)> = Vec::new();
    f_7.push((owned("success"), JsonValue::Bool(true)));
    let mut f_7_1: Vec<(String, JsonValue)> = Vec::new();
    let mut f_7_1_0: Vec<(String, JsonValue)> = Vec::new();
    let mut f_7_1_0_0: Vec<(String, JsonValue)> = Vec::new();
    let mut f_7_1_0_0_0: Vec<(String, JsonValue)> = Vec::new();
    f_7_1_0_0_0.push((owned("forge"), JsonValue::Null));
    f_7_1_0_0_0.push((owned("neoforge"), JsonValue::Null));
    f_7_1_0_0_0.push((owned("fabric"), text("0.116.7+1.21.1")));
    f_7_1_0_0.push((owned("1.21.1"), JsonValue::Object(f_7_1_0_0_0)));
    let mut f_7_1_0_0_1: Vec<(String, JsonValue)> = Vec::new();
    f_7_1_0_0_1.push((owned("forge"), JsonValue::Null));
    f_7_1_0_0_1.push((owned("neoforge"), JsonValue::Null));
    f_7_1_0_0_1.push((owned("fabric"), text("0.110.5+1.21.4")));
    f_7_1_0_0.push((owned("1.21.4"), JsonValue::Object(f_7_1_0_0_1)));
    f_7_1_0.push((owned("fabric-api"), JsonValue::Object(f_7_1_0_0)));
    f_7_1.push((owned("mods"), JsonValue::Object(f_7_1_0)));
    f_7.push((owned("data"), JsonValue::Object(f_7_1)));
    f_7.push((owned("timestamp"), text("2026-05-27T12:00:00.000Z")));
    f_7.push((owned("cached_at"), text("2026-05-27T12:00:00.000Z")));
    f.push((owned("example_response"), JsonValue::Object(f_7)));
    proof {
        reveal_strlit("method");
        reveal_strlit("path");
        reveal_with_fuel(field_value, 3);
        assert("method"@.len() == 6);
        assert("path"@.len() == 4);
        assert(field_value(f@, "path"@) == Some(g_path));
    }
    JsonValue::Object(f)
}

/// The documentation of `/v1/dependencies/{minecraft}`.
fn docs_endpoint_dependencies() -> (r: JsonValue)
    ensures
        json_text(json_get(Some(r), "path"@)) == Some("/v1/dependencies/{minecraft}"@),
{
    let mut f: Vec<(String, JsonValue)> = Vec::new();
    f.push((owned("method"), text("GET")));
    let v_path = text("/v1/dependencies/{minecraft}");
    let ghost g_path = v_path;
    f.push((owned("path"), v_path));
    f.push((owned("description"), text("Returns built-in loader/build dependencies plus Modrinth mod metadata for one Minecraft version.")));
    let mut f_3: Vec<(String, JsonValue)> = Vec::new();
    f_3.push((owned("minecraft"), text("Minecraft version id, for example 1.21.4")));
    f.push((owned("path_parameters"), JsonValue::Object(f_3)));
    let mut f_4: Vec<(String, JsonValue)> = Vec::new();
    let mut f_4_0: Vec<(String, JsonValue)> = Vec::new();
    f_4_0.push((owned("required"), JsonValue::Bool(false)));
    f_4_0.push((owned("description"), text("Comma-separated Modrinth mod slugs. Replaces the default Modrinth mod list when supplied.")));
    f_4_0.push((owned("max_entries"), number(MAX_MODS as u64)));
    f_4_0.push((owned("allowed_characters"), text("ASCII letters, digits, hyphen, underscore")));
    f_4.push((owned("mods"), JsonValue::Object(f_4_0)));
    f.push((owned("query_parameters"), JsonValue::Object(f_4)));
    f.push((owned("default_mods"), text_list(default_projects())));
    f.push((owned("built_ins"), text_list(built_ins())));
    f.push((owned("cache"), seconds(DEFAULT_CACHE_TTL_DEPENDENCIES)));
    f.push((owned("failure_model"), text("Partial failures return HTTP 200 with per-item status=error.")));
    let mut f_9: Vec<(String, JsonValue)> = Vec::new();
    f_9.push((owned("parchment"), text("Parchment is unavailable for unobfuscated Minecraft versions. Minecraft is treated as unobfuscated starting at 26.1.")));
    f.push((owned("rules"), JsonValue::Object(f_9)));
    let mut f_10: Vec<(String, JsonValue)> = Vec::new();
    f_10.push((owned("minecraft"), text("1.21.4")));
    let mut f_10_1: Vec<JsonValue> = Vec::new();
    let mut f_10_1_0: Vec<(String, JsonValue)> = Vec::new();
    f_10_1_0.push((owned("id"), text("fabric-api")));
    f_10_1_0.push((owned("kind"), text("loader | mapping | tool | mod")));
    f_10_1_0.push((owned("status"), text("ok | error | unavailable")));
    f_10_1_0.push((owned("version"), text("resolved version or null")));
    let mut f_10_1_0_4: Vec<(String, JsonValue)> = Vec::new();
    f_10_1_0_4.push((owned("forge"), text("version or null")));
    f_10_1_0_4.push((owned("neoforge"), text("version or null")));
    f_10_1_0_4.push((owned("fabric"), text("version or null")));
    f_10_1_0.push((owned("loader_versions"), JsonValue::Object(f_10_1_0_4)));
    f_10_1_0.push((owned("coordinates"), text("Maven coordinate or null")));
    f_10_1_0.push((owned("source"), text("upstream source URL")));
    f_10_1_0.push((owned("error"), text("present when status is error")));
    f_10_1.push(JsonValue::Object(f_10_1_0));
    f_10.push((owned("dependencies"), JsonValue::Array(f_10_1)));
    f.push((owned("data_shape"), JsonValue::Object(f_10)));
    let mut f_11: Vec<(String, JsonValue)> = Vec::new();
    f_11.push((owned("success"), JsonValue::Bool(true)));
    let mut f_11_1: Vec<(String, JsonValue)> = Vec::new();
    f_11_1.push((owned("minecraft"), text("1.21.4")));
    let mut f_11_1_1: Vec<JsonValue> = Vec::new();
    let mut f_11_1_1_0: Vec<(String, JsonValue)> = Vec::new();
    f_11_1_1_0.push((owned("id"), text("fabric-loader")));
    f_11_1_1_0.push((owned("kind"), text("loader")));
    f_11_1_1_0.push((owned("status"), text("ok")));
    f_11_1_1_0.push((owned("version"), text("0.16.14")));
    let mut f_11_1_1_0_4: Vec<(String, JsonValue)> = Vec::new();
    f_11_1_1_0_4.push((owned("forge"), JsonValue::Null));
    f_11_1_1_0_4.push((owned("neoforge"), JsonValue::Null));
    f_11_1_1_0_4.push((owned("fabric"), text("0.16.14")));
    f_11_1_1_0.push((owned("loader_versions"), JsonValue::Object(f_11_1_1_0_4)));
    f_11_1_1_0.push((owned("coordinates"), text("net.fabricmc:fabric-loader:0.16.14")));
    f_11_1_1_0.push((owned("source"), text("https://meta.fabricmc.net/v2/versions/loader/1.21.4")));
    f_11_1_1.push(JsonValue::Object(f_11_1_1_0));
    let mut f_11_1_1_1: Vec<(String, JsonValue)> = Vec::new();
    f_11_1_1_1.push((owned("id"), text("fabric-api")));
    f_11_1_1_1.push((owned("kind"), text("mod")));
    f_11_1_1_1.push((owned("status"), text("ok")));
    f_11_1_1_1.push((owned("version"), text("0.110.5+1.21.4")));
    let mut f_11_1_1_1_4: Vec<(String, JsonValue)> = Vec::new();
    f_11_1_1_1_4.push((owned("forge"), JsonValue::Null));
    f_11_1_1_1_4.push((owned("neoforge"), JsonValue::Null));
    f_11_1_1_1_4.push((owned("fabric"), text("0.110.5+1.21.4")));
    f_11_1_1_1.push((owned("loader_versions"), JsonValue::Object(f_11_1_1_1_4)));
    f_11_1_1_1.push((owned("coordinates"), text("maven.modrinth:fabric-api:0.110.5+1.21.4")));
    f_11_1_1_1.push((owned("source"), text("https://modrinth.com/mod/fabric-api")));
    f_11_1_1.push(JsonValue::Object(f_11_1_1_1));
    let mut f_11_1_1_2: Vec<(String, JsonValue)> = Vec::new();
    f_11_1_1_2.push((owned("id"), text("bad-mod")));
    f_11_1_1_2.push((owned("kind"), text("mod")));
    f_11_1_1_2.push((owned("status"), text("error")));
    f_11_1_1_2.push((owned("version"), JsonValue::Null));
    let mut f_11_1_1_2_4: Vec<(String, JsonValue)> = Vec::new();
    f_11_1_1_2_4.push((owned("forge"), JsonValue::Null));
    f_11_1_1_2_4.push((owned("neoforge"), JsonValue::Null));
    f_11_1_1_2_4.push((owned("fabric"), JsonValue::Null));
    f_11_1_1_2.push((owned("loader_versions"), JsonValue::Object(f_11_1_1_2_4)));
    f_11_1_1_2.push((owned("coordinates"), JsonValue::Null));
    f_11_1_1_2.push((owned("source"), text("https://modrinth.com/mod/bad-mod")));
    f_11_1_1_2.push((owned("error"), text("upstream returned HTTP 404")));
    f_11_1_1.push(JsonValue::Object(f_11_1_1_2));
    f_11_1.push((owned("dependencies"), JsonValue::Array(f_11_1_1)));
    f_11.push((owned("data"), JsonValue::Object(f_11_1)));
    f_11.push((owned("timestamp"), text("2026-05-27T12:00:00.000Z")));
    f_11.push((owned("cached_at"), text("2026-05-27T12:00:00.000Z")));
    f.push((owned("example_response"), JsonValue::Object(f_11)));
    proof {
        reveal_strlit("method");
        reveal_strlit("path");
        reveal_with_fuel(field_value, 3);
        assert("method"@.len() == 6);
        assert("path"@.len() == 4);
        assert(field_value(f@, "path"@) == Some(g_path));
    }
    JsonValue::Object(f)
}

/// The documentation of `/v1`.
fn docs_endpoint_docs() -> (r: JsonValue)
    ensures
        json_text(json_get(Some(r), "path"@)) == Some("/v1"@),
{
    let mut f: Vec<(String, JsonValue)> = Vec::new();
    f.push((owned("method"), text("GET")));
    let v_path = text("/v1");
    let ghost g_path = v_path;
    f.push((owned("path"), v_path));
    f.push((owned("description"), text("Returns this API documentation.")));
    f.push((owned("cache"), text("not cached")));
    let mut f_4: Vec<(String, JsonValue)> = Vec::new();
    f_4.push((owned("success"), JsonValue::Bool(true)));
    let mut f_4_1: Vec<(String, JsonValue)> = Vec::new();
    f_4_1.push((owned("name"), text("launcher-meta")));
    f_4_1.push((owned("version"), text("v1")));
    f_4_1.push((owned("base_url"), text("https://launcher-meta.kaf.sh/v1")));
    f_4_1.push((owned("license"), text("Apache-2.0")));
    let mut f_4_1_4: Vec<JsonValue> = Vec::new();
    let mut f_4_1_4_0: Vec<(String, JsonValue)> = Vec::new();
    f_4_1_4_0.push((owned("method"), text("GET")));
    f_4_1_4_0.push((owned("path"), text("/v1/minecraft/versions")));
    f_4_1_4.push(JsonValue::Object(f_4_1_4_0));
    f_4_1.push((owned("endpoints"), JsonValue::Array(f_4_1_4)));
    f_4.push((owned("data"), JsonValue::Object(f_4_1)));
    f_4.push((owned("timestamp"), text("2026-05-27T12:00:00.000Z")));
    f_4.push((owned("cached_at"), text("2026-05-27T12:00:00.000Z")));
    f.push((owned("example_response"), JsonValue::Object(f_4)));
    proof {
        reveal_strlit("method");
        reveal_strlit("path");
        reveal_with_fuel(field_value, 3);
        assert("method"@.len() == 6);
        assert("path"@.len() == 4);
        assert(field_value(f@, "path"@) == Some(g_path));
    }
    JsonValue::Object(f)
}

/// The documentation of `/v1/health`.
fn docs_endpoint_health() -> (r: JsonValue)
    ensures
        json_text(json_get(Some(r), "path"@)) == Some("/v1/health"@),
{
    let mut f: Vec<(String, JsonValue)> = Vec::new();
    f.push((owned("method"), text("GET")));
    let v_path = text("/v1/health");
    let ghost g_path = v_path;
    f.push((owned("path"), v_path));
    f.push((owned("description"), text("Checks worker status and upstream metadata services.")));
    f.push((owned("cache"), text("not cached")));
    let mut f_4: Vec<(String, JsonValue)> = Vec::new();
    f_4.push((owned("status"), text("ok | degraded")));
    let mut f_4_1: Vec<(String, JsonValue)> = Vec::new();
    f_4_1.push((owned("mojang"), text("ok | error")));
    f_4_1.push((owned("fabric"), text("ok | error")));
    f_4_1.push((owned("forge"), text("ok | error")));
    f_4_1.push((owned("neoforge"), text("ok | error")));
    f_4_1.push((owned("modrinth"), text("ok | error")));
    f_4_1.push((owned("parchment"), text("ok | error")));
    f_4_1.push((owned("maven_plugins"), text("ok | error")));
    f_4.push((owned("upstream"), JsonValue::Object(f_4_1)));
    f.push((owned("data_shape"), JsonValue::Object(f_4)));
    let mut f_5: Vec<(String, JsonValue)> = Vec::new();
    f_5.push((owned("success"), JsonValue::Bool(true)));
    let mut f_5_1: Vec<(String, JsonValue)> = Vec::new();
    f_5_1.push((owned("status"), text("ok")));
    let mut f_5_1_1: Vec<(String, JsonValue)> = Vec::new();
    f_5_1_1.push((owned("mojang"), text("ok")));
    f_5_1_1.push((owned("fabric"), text("ok")));
    f_5_1_1.push((owned("forge"), text("ok")));
    f_5_1_1.push((owned("neoforge"), text("ok")));
    f_5_1_1.push((owned("modrinth"), text("ok")));
    f_5_1_1.push((owned("parchment"), text("ok")));
    f_5_1_1.push((owned("maven_plugins"), text("ok")));
    f_5_1.push((owned("upstream"), JsonValue::Object(f_5_1_1)));
    f_5.push((owned("data"), JsonValue::Object(f_5_1)));
    f_5.push((owned("timestamp"), text("2026-05-27T12:00:00.000Z")));
    f_5.push((owned("cached_at"), text("2026-05-27T12:00:00.000Z")));
    f.push((owned("example_response"), JsonValue::Object(f_5)));
    proof {
        reveal_strlit("method");
        reveal_strlit("path");
        reveal_with_fuel(field_value, 3);
        assert("method"@.len() == 6);
        assert("path"@.len() == 4);
        assert(field_value(f@, "path"@) == Some(g_path));
    }
    JsonValue::Object(f)
}

/// The documentation of `/v1/loaders/{minecraft}`.
fn docs_endpoint_loaders() -> (r: JsonValue)
    ensures
        json_text(json_get(Some(r), "path"@)) == Some("/v1/loaders/{minecraft}"@),
{
    let mut f: Vec<(String, JsonValue)> = Vec::new();
    f.push((owned("method"), text("GET")));
    let v_path = text("/v1/loaders/{minecraft}");
    let ghost g_path = v_path;
    f.push((owned("path"), v_path));
    f.push((owned("description"), text("Returns Fabric, Forge, and NeoForge loader metadata for one Minecraft version.")));
    let mut f_3: Vec<(String, JsonValue)> = Vec::new();
    f_3.push((owned("minecraft"), text("Minecraft version id, for example 1.21.4")));
    f.push((owned("path_parameters"), JsonValue::Object(f_3)));
    f.push((owned("cache"), seconds(DEFAULT_CACHE_TTL_LOADERS)));
    let mut f_5: Vec<(String, JsonValue)> = Vec::new();
    f_5.push((owned("minecraft"), text("1.21.4")));
    let mut f_5_1: Vec<JsonValue> = Vec::new();
    let mut f_5_1_0: Vec<(String, JsonValue)> = Vec::new();
    f_5_1_0.push((owned("loader"), text("fabric | forge | neoforge")));
    f_5_1_0.push((owned("status"), text("ok | error | unavailable")));
    f_5_1_0.push((owned("version"), text("resolved loader version or null")));
    f_5_1_0.push((owned("maven"), text("Maven coordinate or null")));
    f_5_1_0.push((owned("source"), text("upstream metadata URL")));
    f_5_1_0.push((owned("error"), text("present when status is error")));
    f_5_1.push(JsonValue::Object(f_5_1_0));
    f_5.push((owned("loaders"), JsonValue::Array(f_5_1)));
    f.push((owned("data_shape"), JsonValue::Object(f_5)));
    let mut f_6: Vec<(String, JsonValue)> = Vec::new();
    f_6.push((owned("success"), JsonValue::Bool(true)));
    let mut f_6_1: Vec<(String, JsonValue)> = Vec::new();
    f_6_1.push((owned("minecraft"), text("1.21.4")));
    let mut f_6_1_1: Vec<JsonValue> = Vec::new();
    let mut f_6_1_1_0: Vec<(String, JsonValue)> = Vec::new();
    f_6_1_1_0.push((owned("loader"), text("fabric")));
    f_6_1_1_0.push((owned("status"), text("ok")));
    f_6_1_1_0.push((owned("version"), text("0.16.14")));
    f_6_1_1_0.push((owned("maven"), text("net.fabricmc:fabric-loader:0.16.14")));
    f_6_1_1_0.push((owned("source"), text("https://meta.fabricmc.net/v2/versions/loader/1.21.4")));
    f_6_1_1.push(JsonValue::Object(f_6_1_1_0));
    let mut f_6_1_1_1: Vec<(String, JsonValue)> = Vec::new();
    f_6_1_1_1.push((owned("loader"), text("forge")));
    f_6_1_1_1.push((owned("status"), text("ok")));
    f_6_1_1_1.push((owned("version"), text("1.21.4-54.0.0")));
    f_6_1_1_1.push((owned("maven"), text("net.minecraftforge:forge:1.21.4-54.0.0:installer")));
    f_6_1_1_1.push((owned("source"), text("https://files.minecraftforge.net/net/minecraftforge/forge/maven-metadata.json")));
    f_6_1_1.push(JsonValue::Object(f_6_1_1_1));
    let mut f_6_1_1_2: Vec<(String, JsonValue)> = Vec::new();
    f_6_1_1_2.push((owned("loader"), text("neoforge")));
    f_6_1_1_2.push((owned("status"), text("ok")));
    f_6_1_1_2.push((owned("version"), text("21.4.0-beta")));
    f_6_1_1_2.push((owned("maven"), text("net.neoforged:neoforge:21.4.0-beta:installer")));
    f_6_1_1_2.push((owned("source"), text("https://maven.neoforged.net/releases/net/neoforged/neoforge/maven-metadata.xml")));
    f_6_1_1.push(JsonValue::Object(f_6_1_1_2));
    f_6_1.push((owned("loaders"), JsonValue::Array(f_6_1_1)));
    f_6.push((owned("data"), JsonValue::Object(f_6_1)));
    f_6.push((owned("timestamp"), text("2026-05-27T12:00:00.000Z")));
    f_6.push((owned("cached_at"), text("2026-05-27T12:00:00.000Z")));
    f.push((owned("example_response"), JsonValue::Object(f_6)));
    proof {
        reveal_strlit("method");
        reveal_strlit("path");
        reveal_with_fuel(field_value, 3);
        assert("method"@.len() == 6);
        assert("path"@.len() == 4);
        assert(field_value(f@, "path"@) == Some(g_path));
    }
    JsonValue::Object(f)
}

/// The documentation of `/v1/minecraft/versions`.
fn docs_endpoint_minecraft_versions() -> (r: JsonValue)
    ensures
        json_text(json_get(Some(r), "path"@)) == Some("/v1/minecraft/versions"@),
{
    let mut f: Vec<(String, JsonValue)> = Vec::new();
    f.push((owned("method"), text("GET")));
    let v_path = text("/v1/minecraft/versions");
    let ghost g_path = v_path;
    f.push((owned("path"), v_path));
    f.push((owned("description"), text("Returns all Minecraft versions from Mojang's version manifest.")));
    f.push((owned("cache"), text("dynamic: 5m Tue UTC, 10m Wed UTC, 30m Thu UTC, 6h otherwise")));
    let mut f_4: Vec<(String, JsonValue)> = Vec::new();
    let mut f_4_0: Vec<JsonValue> = Vec::new();
    let mut f_4_0_0: Vec<(String, JsonValue)> = Vec::new();
    f_4_0_0.push((owned("id"), text("1.21.4")));
    f_4_0_0.push((owned("kind"), text("release | snapshot | old_beta | old_alpha")));
    f_4_0.push(JsonValue::Object(f_4_0_0));
    f_4.push((owned("versions"), JsonValue::Array(f_4_0)));
    f.push((owned("data_shape"), JsonValue::Object(f_4)));
    let mut f_5: Vec<(String, JsonValue)> = Vec::new();
    f_5.push((owned("success"), JsonValue::Bool(true)));
    let mut f_5_1: Vec<(String, JsonValue)> = Vec::new();
    let mut f_5_1_0: Vec<JsonValue> = Vec::new();
    let mut f_5_1_0_0: Vec<(String, JsonValue)> = Vec::new();
    f_5_1_0_0.push((owned("id"), text("1.21.4")));
    f_5_1_0_0.push((owned("kind"), text("release")));
    f_5_1_0.push(JsonValue::Object(f_5_1_0_0));
    let mut f_5_1_0_1: Vec<(String, JsonValue)> = Vec::new();
    f_5_1_0_1.push((owned("id"), text("25w14craftmine")));
    f_5_1_0_1.push((owned("kind"), text("snapshot")));
    f_5_1_0.push(JsonValue::Object(f_5_1_0_1));
    f_5_1.push((owned("versions"), JsonValue::Array(f_5_1_0)));
    f_5.push((owned("data"), JsonValue::Object(f_5_1)));
    f_5.push((owned("timestamp"), text("2026-05-27T12:00:00.000Z")));
    f_5.push((owned("cached_at"), text("2026-05-27T12:00:00.000Z")));
    f.push((owned("example_response"), JsonValue::Object(f_5)));
    proof {
        reveal_strlit("method");
        reveal_strlit("path");
        reveal_with_fuel(field_value, 3);
        assert("method"@.len() == 6);
        assert("path"@.len() == 4);
        assert(field_value(f@, "path"@) == Some(g_path));
    }
    JsonValue::Object(f)
}

/// The documented general rate limit.
fn docs_general_rate_limit() -> (r: JsonValue)
    ensures
        json_number(json_get(Some(r), "limit"@)) == Some(decimal_text(PUBLIC_API_RATE_LIMIT_PER_MINUTE as nat)),
{
    let mut f: Vec<(String, JsonValue)> = Vec::new();
    let v_limit = number(PUBLIC_API_RATE_LIMIT_PER_MINUTE);
    let ghost g_limit = v_limit;
    f.push((owned("limit"), v_limit));
    f.push((owned("period"), text("60 seconds")));
    f.push((owned("description"), text("Applies to all non-OPTIONS /v1 requests.")));
    proof {
        reveal_strlit("limit");
        reveal_with_fuel(field_value, 2);
        assert("limit"@.len() == 5);
        assert(field_value(f@, "limit"@) == Some(g_limit));
    }
    JsonValue::Object(f)
}

/// The documented lifetimes of the Minecraft version list.
fn docs_minecraft_cache() -> (r: JsonValue)
    ensures
        json_text(json_get(Some(r), "normal"@)) == Some(decimal_text(DEFAULT_CACHE_TTL_MINECRAFT as nat) + " seconds"@),
        json_text(json_get(Some(r), "tuesday_utc"@)) == Some(decimal_text(MINECRAFT_TUESDAY_TTL as nat) + " seconds"@),
        json_text(json_get(Some(r), "wednesday_utc"@)) == Some(decimal_text(MINECRAFT_WEDNESDAY_TTL as nat) + " seconds"@),
        json_text(json_get(Some(r), "thursday_utc"@)) == Some(decimal_text(MINECRAFT_THURSDAY_TTL as nat) + " seconds"@),
{
    let mut f: Vec<(String, JsonValue)> = Vec::new();
    let v_normal = seconds(DEFAULT_CACHE_TTL_MINECRAFT);
    let ghost g_normal = v_normal;
    f.push((owned("normal"), v_normal));
    let v_tuesday_utc = seconds(MINECRAFT_TUESDAY_TTL);
    let ghost g_tuesday_utc = v_tuesday_utc;
    f.push((owned("tuesday_utc"), v_tuesday_utc));
    let v_wednesday_utc = seconds(MINECRAFT_WEDNESDAY_TTL);
    let ghost g_wednesday_utc = v_wednesday_utc;
    f.push((owned("wednesday_utc"), v_wednesday_utc));
    let v_thursday_utc = seconds(MINECRAFT_THURSDAY_TTL);
    let ghost g_thursday_utc = v_thursday_utc;
    f.push((owned("thursday_utc"), v_thursday_utc));
    proof {
        reveal_strlit("normal");
        reveal_strlit("thursday_utc");
        reveal_strlit("tuesday_utc");
        reveal_strlit("wednesday_utc");
        reveal_with_fuel(field_value, 5);
        assert("normal"@.len() == 6);
        assert(field_value(f@, "normal"@) == Some(g_normal));
        assert("normal"@.len() == 6);
        assert("tuesday_utc"@.len() == 11);
        assert(field_value(f@, "tuesday_utc"@) == Some(g_tuesday_utc));
        assert("normal"@.len() == 6);
        assert("tuesday_utc"@.len() == 11);
        assert("wednesday_utc"@.len() == 13);
        assert(field_value(f@, "wednesday_utc"@) == Some(g_wednesday_utc));
        assert("normal"@.len() == 6);
        assert("tuesday_utc"@.len() == 11);
        assert("wednesday_utc"@.len() == 13);
        assert("thursday_utc"@.len() == 12);
        assert(field_value(f@, "thursday_utc"@) == Some(g_thursday_utc));
    }
    JsonValue::Object(f)
}

/// The documented limits on mod ids.
fn docs_mod_limits() -> (r: JsonValue)
    ensures
        json_number(json_get(Some(r), "max_entries"@)) == Some(decimal_text(MAX_MODS as nat)),
        json_number(json_get(Some(r), "max_id_length"@)) == Some(decimal_text(MAX_MOD_ID_LEN as nat)),
{
    let mut f: Vec<(String, JsonValue)> = Vec::new();
    let v_max_entries = number(MAX_MODS as u64);
    let ghost g_max_entries = v_max_entries;
    f.push((owned("max_entries"), v_max_entries));
    let v_max_id_length = number(MAX_MOD_ID_LEN as u64);
    let ghost g_max_id_length = v_max_id_length;
    f.push((owned("max_id_length"), v_max_id_length));
    f.push((owned("allowed_characters"), text("ASCII letters, digits, hyphen, underscore")));
    proof {
        reveal_strlit("max_entries");
        reveal_strlit("max_id_length");
        reveal_with_fuel(field_value, 3);
        assert("max_entries"@.len() == 11);
        assert(field_value(f@, "max_entries"@) == Some(g_max_entries));
        assert("max_entries"@.len() == 11);
        assert("max_id_length"@.len() == 13);
        assert(field_value(f@, "max_id_length"@) == Some(g_max_id_length));
    }
    JsonValue::Object(f)
}

/// The documented refresh rate limit.
fn docs_refresh_rate_limit() -> (r: JsonValue)
    ensures
        json_number(json_get(Some(r), "limit"@)) == Some(decimal_text(REFRESH_RATE_LIMIT_PER_MINUTE as nat)),
{
    let mut f: Vec<(String, JsonValue)> = Vec::new();
    let v_limit = number(REFRESH_RATE_LIMIT_PER_MINUTE);
    let ghost g_limit = v_limit;
    f.push((owned("limit"), v_limit));
    f.push((owned("period"), text("60 seconds")));
    f.push((owned("description"), text("Applies in addition to the general API limit when X-Launcher-Meta-Refresh: 1 is sent.")));
    proof {
        reveal_strlit("limit");
        reveal_with_fuel(field_value, 2);
        assert("limit"@.len() == 5);
        assert(field_value(f@, "limit"@) == Some(g_limit));
    }
    JsonValue::Object(f)
}

/// The documented limits on compatibility Minecraft versions.
fn docs_version_limits() -> (r: JsonValue)
    ensures
        json_number(json_get(Some(r), "max_entries"@)) == Some(decimal_text(MAX_COMPATIBILITY_VERSIONS as nat)),
{
    let mut f: Vec<(String, JsonValue)> = Vec::new();
    let v_max_entries = number(MAX_COMPATIBILITY_VERSIONS as u64);
    let ghost g_max_entries = v_max_entries;
    f.push((owned("max_entries"), v_max_entries));
    proof {
        reveal_strlit("max_entries");
        reveal_with_fuel(field_value, 2);
        assert("max_entries"@.len() == 11);
        assert(field_value(f@, "max_entries"@) == Some(g_max_entries));
    }
    JsonValue::Object(f)
}

/// The documented cache lifetimes.
fn docs_cache() -> (r: JsonValue)
    ensures
        json_text(json_get(json_get(Some(r), "minecraft_versions"@), "normal"@)) == Some(decimal_text(DEFAULT_CACHE_TTL_MINECRAFT as nat) + " seconds"@),
        json_text(json_get(json_get(Some(r), "minecraft_versions"@), "tuesday_utc"@)) == Some(decimal_text(MINECRAFT_TUESDAY_TTL as nat) + " seconds"@),
        json_text(json_get(json_get(Some(r), "minecraft_versions"@), "wednesday_utc"@)) == Some(decimal_text(MINECRAFT_WEDNESDAY_TTL as nat) + " seconds"@),
        json_text(json_get(json_get(Some(r), "minecraft_versions"@), "thursday_utc"@)) == Some(decimal_text(MINECRAFT_THURSDAY_TTL as nat) + " seconds"@),
        json_text(json_get(Some(r), "loaders"@)) == Some(decimal_text(DEFAULT_CACHE_TTL_LOADERS as nat) + " seconds"@),
        json_text(json_get(Some(r), "dependencies"@)) == Some(decimal_text(DEFAULT_CACHE_TTL_DEPENDENCIES as nat) + " seconds"@),
        json_text(json_get(Some(r), "compatibility"@)) == Some(decimal_text(DEFAULT_CACHE_TTL_COMPATIBILITY as nat) + " seconds"@),
{
    let mut f: Vec<(String, JsonValue)> = Vec::new();
    let v_minecraft_versions = docs_minecraft_cache();
    let ghost g_minecraft_versions = v_minecraft_versions;
    f.push((owned("minecraft_versions"), v_minecraft_versions));
    let v_loaders = seconds(DEFAULT_CACHE_TTL_LOADERS);
    let ghost g_loaders = v_loaders;
    f.push((owned("loaders"), v_loaders));
    let v_dependencies = seconds(DEFAULT_CACHE_TTL_DEPENDENCIES);
    let ghost g_dependencies = v_dependencies;
    f.push((owned("dependencies"), v_dependencies));
    let v_compatibility = seconds(DEFAULT_CACHE_TTL_COMPATIBILITY);
    let ghost g_compatibility = v_compatibility;
    f.push((owned("compatibility"), v_compatibility));
    proof {
        reveal_strlit("compatibility");
        reveal_strlit("dependencies");
        reveal_strlit("loaders");
        reveal_strlit("minecraft_versions");
        reveal_with_fuel(field_value, 5);
        assert("minecraft_versions"@.len() == 18);
        assert(field_value(f@, "minecraft_versions"@) == Some(g_minecraft_versions));
        assert("minecraft_versions"@.len() == 18);
        assert("loaders"@.len() == 7);
        assert(field_value(f@, "loaders"@) == Some(g_loaders));
        assert("minecraft_versions"@.len() == 18);
        assert("loaders"@.len() == 7);
        assert("dependencies"@.len() == 12);
        assert(field_value(f@, "dependencies"@) == Some(g_dependencies));
        assert("minecraft_versions"@.len() == 18);
        assert("loaders"@.len() == 7);
        assert("dependencies"@.len() == 12);
        assert("compatibility"@.len() == 13);
        assert(field_value(f@, "compatibility"@) == Some(g_compatibility));
    }
    JsonValue::Object(f)
}

/// The documented endpoints, in order.
pub fn docs_endpoints() -> (r: Vec<JsonValue>)
    ensures
        r@.map_values(|e: JsonValue| endpoint_path(e)) == documented_paths(),
{
    let mut r: Vec<JsonValue> = Vec::new();
    r.push(docs_endpoint_docs());
    r.push(docs_endpoint_health());
    r.push(docs_endpoint_minecraft_versions());
    r.push(docs_endpoint_loaders());
    r.push(docs_endpoint_dependencies());
    r.push(docs_endpoint_compatibility());
    assert(r@.map_values(|e: JsonValue| endpoint_path(e)) =~= documented_paths());
    r
}

/// The documented rate limits.
fn docs_rate_limits() -> (r: JsonValue)
    ensures
        json_number(json_get(json_get(Some(r), "general_api"@), "limit"@)) == Some(decimal_text(PUBLIC_API_RATE_LIMIT_PER_MINUTE as nat)),
        json_number(json_get(json_get(Some(r), "refresh"@), "limit"@)) == Some(decimal_text(REFRESH_RATE_LIMIT_PER_MINUTE as nat)),
{
    let mut f: Vec<(String, JsonValue)> = Vec::new();
    f.push((owned("scope"), text("per client key per Cloudflare location")));
    f.push((owned("client_key"), text("CF-Connecting-IP, with X-Forwarded-For/local fallback")));
    let v_general_api = docs_general_rate_limit();
    let ghost g_general_api = v_general_api;
    f.push((owned("general_api"), v_general_api));
    let v_refresh = docs_refresh_rate_limit();
    let ghost g_refresh = v_refresh;
    f.push((owned("refresh"), v_refresh));
    let mut f_4: Vec<(String, JsonValue)> = Vec::new();
    f_4.push((owned("status"), number(429)));
    f_4.push((owned("retry_after"), text("60 seconds")));
    let mut f_4_2: Vec<(String, JsonValue)> = Vec::new();
    f_4_2.push((owned("success"), JsonValue::Bool(false)));
    f_4_2.push((owned("error"), text("rate limit exceeded")));
    f_4_2.push((owned("timestamp"), text("ISO-8601 UTC timestamp")));
    f_4.push((owned("body"), JsonValue::Object(f_4_2)));
    f.push((owned("response"), JsonValue::Object(f_4)));
    proof {
        reveal_strlit("client_key");
        reveal_strlit("general_api");
        reveal_strlit("refresh");
        reveal_strlit("scope");
        reveal_with_fuel(field_value, 5);
        assert("scope"@.len() == 5);
        assert("client_key"@.len() == 10);
        assert("general_api"@.len() == 11);
        assert(field_value(f@, "general_api"@) == Some(g_general_api));
        assert("scope"@.len() == 5);
        assert("client_key"@.len() == 10);
        assert("general_api"@.len() == 11);
        assert("refresh"@.len() == 7);
        assert(field_value(f@, "refresh"@) == Some(g_refresh));
    }
    JsonValue::Object(f)
}

/// The documented request limits.
fn docs_request_limits() -> (r: JsonValue)
    ensures
        json_number(json_get(json_get(Some(r), "mods"@), "max_entries"@)) == Some(decimal_text(MAX_MODS as nat)),
        json_number(json_get(json_get(Some(r), "mods"@), "max_id_length"@)) == Some(decimal_text(MAX_MOD_ID_LEN as nat)),
        json_number(json_get(json_get(Some(r), "compatibility_minecraft_versions"@), "max_entries"@)) == Some(decimal_text(MAX_COMPATIBILITY_VERSIONS as nat)),
{
    let mut f: Vec<(String, JsonValue)> = Vec::new();
    let v_mods = docs_mod_limits();
    let ghost g_mods = v_mods;
    f.push((owned("mods"), v_mods));
    let v_compatibility_minecraft_versions = docs_version_limits();
    let ghost g_compatibility_minecraft_versions = v_compatibility_minecraft_versions;
    f.push((owned("compatibility_minecraft_versions"), v_compatibility_minecraft_versions));
    proof {
        reveal_strlit("compatibility_minecraft_versions");
        reveal_strlit("mods");
        reveal_with_fuel(field_value, 3);
        assert("mods"@.len() == 4);
        assert(field_value(f@, "mods"@) == Some(g_mods));
        assert("mods"@.len() == 4);
        assert("compatibility_minecraft_versions"@.len() == 32);
        assert(field_value(f@, "compatibility_minecraft_versions"@) == Some(g_compatibility_minecraft_versions));
    }
    JsonValue::Object(f)
}

/// The API documentation served at `/v1`.
pub fn api_docs() -> (r: JsonValue)
    ensures
        docs_endpoint_paths(r) == documented_paths(),
        json_text(json_get(json_get(json_get(Some(r), "cache"@), "minecraft_versions"@), "normal"@)) == Some(decimal_text(DEFAULT_CACHE_TTL_MINECRAFT as nat) + " seconds"@),
        json_text(json_get(json_get(json_get(Some(r), "cache"@), "minecraft_versions"@), "tuesday_utc"@)) == Some(decimal_text(MINECRAFT_TUESDAY_TTL as nat) + " seconds"@),
        json_text(json_get(json_get(json_get(Some(r), "cache"@), "minecraft_versions"@), "wednesday_utc"@)) == Some(decimal_text(MINECRAFT_WEDNESDAY_TTL as nat) + " seconds"@),
        json_text(json_get(json_get(json_get(Some(r), "cache"@), "minecraft_versions"@), "thursday_utc"@)) == Some(decimal_text(MINECRAFT_THURSDAY_TTL as nat) + " seconds"@),
        json_text(json_get(json_get(Some(r), "cache"@), "loaders"@)) == Some(decimal_text(DEFAULT_CACHE_TTL_LOADERS as nat) + " seconds"@),
        json_text(json_get(json_get(Some(r), "cache"@), "dependencies"@)) == Some(decimal_text(DEFAULT_CACHE_TTL_DEPENDENCIES as nat) + " seconds"@),
        json_text(json_get(json_get(Some(r), "cache"@), "compatibility"@)) == Some(decimal_text(DEFAULT_CACHE_TTL_COMPATIBILITY as nat) + " seconds"@),
        json_number(json_get(json_get(json_get(Some(r), "rate_limits"@), "general_api"@), "limit"@)) == Some(decimal_text(PUBLIC_API_RATE_LIMIT_PER_MINUTE as nat)),
        json_number(json_get(json_get(json_get(Some(r), "rate_limits"@), "refresh"@), "limit"@)) == Some(decimal_text(REFRESH_RATE_LIMIT_PER_MINUTE as nat)),
        json_number(json_get(json_get(json_get(Some(r), "request_limits"@), "mods"@), "max_entries"@)) == Some(decimal_text(MAX_MODS as nat)),
        json_number(json_get(json_get(json_get(Some(r), "request_limits"@), "mods"@), "max_id_length"@)) == Some(decimal_text(MAX_MOD_ID_LEN as nat)),
        json_number(json_get(json_get(json_get(Some(r), "request_limits"@), "compatibility_minecraft_versions"@), "max_entries"@)) == Some(decimal_text(MAX_COMPATIBILITY_VERSIONS as nat)),
{
    let mut f: Vec<(String, JsonValue)> = Vec::new();
    f.push((owned("name"), text("launcher-meta")));
    f.push((owned("version"), text("v1")));
    f.push((owned("base_url"), text("https://launcher-meta.kaf.sh/v1")));
    f.push((owned("description"), text("Current Minecraft, loader, and mod metadata behind a small JSON API.")));
    let mut f_4: Vec<(String, JsonValue)> = Vec::new();
    f_4.push((owned("success"), text("boolean")));
    f_4.push((owned("data"), text("object, present on success")));
    f_4.push((owned("error"), text("string, present on failure")));
    f_4.push((owned("timestamp"), text("ISO-8601 UTC timestamp")));
    f_4.push((owned("cached_at"), text("ISO-8601 UTC timestamp, present when the response was generated from fresh upstream data")));
    f.push((owned("response_envelope"), JsonValue::Object(f_4)));
    let mut f_5: Vec<(String, JsonValue)> = Vec::new();
    let mut f_5_0: Vec<(String, JsonValue)> = Vec::new();
    f_5_0.push((owned("value"), text(USER_AGENT)));
    f_5_0.push((owned("description"), text("Sent on all upstream metadata requests.")));
    f_5.push((owned("User-Agent"), JsonValue::Object(f_5_0)));
    let mut f_5_1: Vec<(String, JsonValue)> = Vec::new();
    f_5_1.push((owned("value"), text("1")));
    f_5_1.push((owned("description"), text("Bypasses the edge response cache and repopulates it with a fresh successful response.")));
    f_5.push((owned(REFRESH_HEADER), JsonValue::Object(f_5_1)));
    f.push((owned("headers"), JsonValue::Object(f_5)));
    let mut f_6: Vec<(String, JsonValue)> = Vec::new();
    let mut f_6_0: Vec<(String, JsonValue)> = Vec::new();
    f_6_0.push((owned("description"), text("Optional Modrinth API token. When present, Modrinth API requests include Authorization: Bearer <token>.")));
    f_6_0.push((owned("local_development"), text("Set MODRINTH_TOKEN in .dev.vars or .env.")));
    f_6_0.push((owned("production"), text("Set with `npx wrangler secret put MODRINTH_TOKEN`.")));
    f_6.push((owned(MODRINTH_TOKEN_SECRET), JsonValue::Object(f_6_0)));
    f.push((owned("optional_secrets"), JsonValue::Object(f_6)));
    f.push((owned("license"), text("Apache-2.0")));
    let mut f_8: Vec<JsonValue> = Vec::new();
    f_8.push(text("launcher-meta is not affiliated with Mojang, Microsoft, FabricMC, Minecraft Forge, NeoForge, Modrinth, ParchmentMC, or Cloudflare."));
    f_8.push(text("Minecraft names, loader names, Modrinth mod names, and service names belong to their respective owners."));
    f_8.push(text("The API reports metadata from upstream services and caches successful responses at the edge. Treat versions as metadata snapshots, not endorsements or compatibility guarantees."));
    f.push((owned("disclaimers"), JsonValue::Array(f_8)));
    let mut f_9: Vec<JsonValue> = Vec::new();
    f_9.push(text("Mojang version manifest"));
    f_9.push(text("FabricMC metadata and Maven"));
    f_9.push(text("Minecraft Forge metadata"));
    f_9.push(text("NeoForge metadata and Maven"));
    f_9.push(text("Modrinth API"));
    f_9.push(text("ParchmentMC Maven"));
    f_9.push(text("Gradle Plugin Portal"));
    f_9.push(text("Cloudflare Workers"));
    f.push((owned("acknowledgements"), JsonValue::Array(f_9)));
    let v_cache = docs_cache();
    let ghost g_cache = v_cache;
    f.push((owned("cache"), v_cache));
    let v_rate_limits = docs_rate_limits();
    let ghost g_rate_limits = v_rate_limits;
    f.push((owned("rate_limits"), v_rate_limits));
    let v_request_limits = docs_request_limits();
    let ghost g_request_limits = v_request_limits;
    f.push((owned("request_limits"), v_request_limits));
    let v_endpoints = JsonValue::Array(docs_endpoints());
    let ghost g_endpoints = v_endpoints;
    f.push((owned("endpoints"), v_endpoints));
    let mut f_14: Vec<(String, JsonValue)> = Vec::new();
    f_14.push((owned("400"), text("Invalid or missing request parameters.")));
    f_14.push((owned("405"), text("Method not allowed. Use GET or OPTIONS.")));
    f_14.push((owned("429"), text("Rate limit exceeded.")));
    f_14.push((owned("404"), text("Unknown route.")));
    f_14.push((owned("500"), text("Unexpected worker or upstream aggregation failure.")));
    f.push((owned("errors"), JsonValue::Object(f_14)));
    proof {
        reveal_strlit("acknowledgements");
        reveal_strlit("base_url");
        reveal_strlit("cache");
        reveal_strlit("description");
        reveal_strlit("disclaimers");
        reveal_strlit("endpoints");
        reveal_strlit("headers");
        reveal_strlit("license");
        reveal_strlit("name");
        reveal_strlit("optional_secrets");
        reveal_strlit("rate_limits");
        reveal_strlit("request_limits");
        reveal_strlit("response_envelope");
        reveal_strlit("version");
        reveal_with_fuel(field_value, 15);
        assert("name"@.len() == 4);
        assert("version"@.len() == 7);
        assert("base_url"@.len() == 8);
        assert("description"@.len() == 11);
        assert("response_envelope"@.len() == 17);
        assert("headers"@.len() == 7);
        assert("optional_secrets"@.len() == 16);
        assert("license"@.len() == 7);
        assert("disclaimers"@.len() == 11);
        assert("acknowledgements"@.len() == 16);
        assert("cache"@.len() == 5);
        assert(field_value(f@, "cache"@) == Some(g_cache));
        assert("name"@.len() == 4);
        assert("version"@.len() == 7);
        assert("base_url"@.len() == 8);
        assert("description"@[0] != "rate_limits"@[0]);
        assert("response_envelope"@.len() == 17);
        assert("headers"@.len() == 7);
        assert("optional_secrets"@.len() == 16);
        assert("license"@.len() == 7);
        assert("disclaimers"@[0] != "rate_limits"@[0]);
        assert("acknowledgements"@.len() == 16);
        assert("cache"@.len() == 5);
        assert("rate_limits"@.len() == 11);
        assert(field_value(f@, "rate_limits"@) == Some(g_rate_limits));
        assert("name"@.len() == 4);
        assert("version"@.len() == 7);
        assert("base_url"@.len() == 8);
        assert("description"@.len() == 11);
        assert("response_envelope"@.len() == 17);
        assert("headers"@.len() == 7);
        assert("optional_secrets"@.len() == 16);
        assert("license"@.len() == 7);
        assert("disclaimers"@.len() == 11);
        assert("acknowledgements"@.len() == 16);
        assert("cache"@.len() == 5);
        assert("rate_limits"@.len() == 11);
        assert("request_limits"@.len() == 14);
        assert(field_value(f@, "request_limits"@) == Some(g_request_limits));
        assert("name"@.len() == 4);
        assert("version"@.len() == 7);
        assert("base_url"@.len() == 8);
        assert("description"@.len() == 11);
        assert("response_envelope"@.len() == 17);
        assert("headers"@.len() == 7);
        assert("optional_secrets"@.len() == 16);
        assert("license"@.len() == 7);
        assert("disclaimers"@.len() == 11);
        assert("acknowledgements"@.len() == 16);
        assert("cache"@.len() == 5);
        assert("rate_limits"@.len() == 11);
        assert("request_limits"@.len() == 14);
        assert("endpoints"@.len() == 9);
        assert(field_value(f@, "endpoints"@) == Some(g_endpoints));
    }
    JsonValue::Object(f)
}
} // verus!
