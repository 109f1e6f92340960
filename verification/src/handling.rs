//! Decisions the worker makes around each request: routing, rate-limit
//! client keys, cache URLs and headers, upstream request headers and
//! statuses, whether a response may be cached, and the health summary.

use vstd::prelude::*;
use crate::config::{
    default_project_ids, default_projects, str_texts, CACHE_BASE_URL, DEFAULT_CACHE_TTL_COMPATIBILITY,
    DEFAULT_CACHE_TTL_DEPENDENCIES, DEFAULT_CACHE_TTL_LOADERS, DEFAULT_CACHE_TTL_MINECRAFT,
    FABRIC_LOADER_BASE_URL, FORGEGRADLE_METADATA_URL, FORGE_METADATA_URL, MOJANG_MANIFEST_URL,
    NEOFORGE_METADATA_URL, PARCHMENT_REPOSITORY_URL, PUBLIC_API_RATE_LIMIT_PER_MINUTE,
    REFRESH_RATE_LIMIT_PER_MINUTE, RESPONSE_CACHE_VERSION,
};
use crate::maps::{ascending, has_key, lemma_lookup_at, lookup, map_insert};
use crate::service::UpstreamConfig;
use crate::text::{
    char_texts, chars_of, decimal_text, field_before, field_before_chars, lemma_split_all_len,
    opt_text, owned, parse_u64_chars, parse_u64_text, push_char, push_decimal, same_text,
    split_all, split_all_chars, string_of, trim, trim_char, trim_char_chars, trim_chars,
};
use crate::util::{minecraft_problem, normalize_list, normalized, utf8_len, validate_minecraft};
use crate::types::{ApiResponse, HealthData};
use crate::versioning::texts;

verus! {

broadcast use vstd::string::group_string_axioms;

// ---------------------------------------------------------------------------
// Cacheability of responses.
// ---------------------------------------------------------------------------

/// A JSON value, as a serialized response is inspected. Object fields are
/// kept in order; numbers are kept as their text.
#[derive(Debug, PartialEq, Eq)]
pub enum JsonValue {
    Null,
    Bool(bool),
    Number(String),
    Text(String),
    Array(Vec<JsonValue>),
    Object(Vec<(String, JsonValue)>),
}

/// The value of the first field named `name`.
pub open spec fn field_value(fields: Seq<(String, JsonValue)>, name: Seq<char>) -> Option<JsonValue>
    decreases fields.len(),
{
    if fields.len() == 0 {
        None
    } else if fields[0].0@ == name {
        Some(fields[0].1)
    } else {
        field_value(fields.drop_first(), name)
    }
}

/// The object's `status` field is the text `error`.
pub open spec fn status_is_error(fields: Seq<(String, JsonValue)>) -> bool {
    match field_value(fields, "status"@) {
        Some(JsonValue::Text(t)) => t@ == "error"@,
        _ => false,
    }
}

/// Some object in the value, at any depth, has `"status": "error"`.
pub open spec fn has_error_status(v: JsonValue) -> bool
    decreases v,
{
    match v {
        JsonValue::Array(items) => items_have_error(items@),
        JsonValue::Object(fields) => status_is_error(fields@) || fields_have_error(fields@),
        _ => false,
    }
}

/// Some item holds an error status.
pub open spec fn items_have_error(items: Seq<JsonValue>) -> bool
    decreases items,
{
    if items.len() == 0 {
        false
    } else {
        has_error_status(items[0]) || items_have_error(items.drop_first())
    }
}

/// Some field's value holds an error status.
pub open spec fn fields_have_error(fields: Seq<(String, JsonValue)>) -> bool
    decreases fields,
{
    if fields.len() == 0 {
        false
    } else {
        has_error_status(fields[0].1) || fields_have_error(fields.drop_first())
    }
}

} // verus!

verus! {

/// Whether an object's `status` field is the text `error`.
fn status_field_is_error(fields: &Vec<(String, JsonValue)>) -> (r: bool)
    ensures
        r == status_is_error(fields@),
{
    let status = chars_of("status");
    let mut i: usize = 0;
    assert(fields@.skip(0) =~= fields@);
    while i < fields.len()
        invariant
            i <= fields@.len(),
            status@ == "status"@,
            field_value(fields@, "status"@) == field_value(fields@.skip(i as int), "status"@),
        decreases fields@.len() - i,
    {
        let ghost rest = fields@.skip(i as int);
        assert(rest.drop_first() =~= fields@.skip(i as int + 1));
        assert(rest[0] == fields@[i as int]);
        let key = chars_of(fields[i].0.as_str());
        if same_text(key.as_slice(), status.as_slice()) {
            return match &fields[i].1 {
                JsonValue::Text(t) => {
                    let tc = chars_of(t.as_str());
                    let err = chars_of("error");
                    same_text(tc.as_slice(), err.as_slice())
                },
                _ => false,
            };
        }
        i = i + 1;
    }
    false
}

/// Whether some object in the value, at any depth, has `"status": "error"`.
pub fn contains_error_status(value: &JsonValue) -> (r: bool)
    ensures
        r == has_error_status(*value),
    decreases value,
{
    match value {
        JsonValue::Array(items) => {
            let mut i: usize = 0;
            assert(items@.skip(0) =~= items@);
            while i < items.len()
                invariant
                    i <= items@.len(),
                    *value == JsonValue::Array(*items),
                    items_have_error(items@) == items_have_error(items@.skip(i as int)),
                decreases items@.len() - i,
            {
                let ghost rest = items@.skip(i as int);
                assert(rest.drop_first() =~= items@.skip(i as int + 1));
                assert(rest[0] == items@[i as int]);
                assert(decreases_to!(*value => (*value)->Array_0));
                assert(decreases_to!(*items => items@));
                assert(decreases_to!(items@ => items@[i as int]));
                assert(decreases_to!(*value => items@[i as int]));
                if contains_error_status(&items[i]) {
                    return true;
                }
                i = i + 1;
            }
            false
        },
        JsonValue::Object(fields) => {
            if status_field_is_error(fields) {
                return true;
            }
            let mut i: usize = 0;
            assert(fields@.skip(0) =~= fields@);
            while i < fields.len()
                invariant
                    i <= fields@.len(),
                    *value == JsonValue::Object(*fields),
                    fields_have_error(fields@) == fields_have_error(fields@.skip(i as int)),
                decreases fields@.len() - i,
            {
                let ghost rest = fields@.skip(i as int);
                assert(rest.drop_first() =~= fields@.skip(i as int + 1));
                assert(rest[0] == fields@[i as int]);
                assert(decreases_to!(*value => (*value)->Object_0));
                assert(decreases_to!(*fields => fields@));
                assert(decreases_to!(fields@ => fields@[i as int]));
                assert(decreases_to!(fields@[i as int] => fields@[i as int].1));
                assert(decreases_to!(*value => fields@[i as int].1));
                if contains_error_status(&fields[i].1) {
                    return true;
                }
                i = i + 1;
            }
            false
        },
        _ => false,
    }
}

/// Whether a response may be stored in the edge cache: it must report
/// success, and its serialized form (`None` when it could not be
/// serialized) must hold no `"status": "error"` item.
pub open spec fn cacheable(success: bool, serialized: Option<JsonValue>) -> bool {
    success && match serialized {
        Some(v) => !has_error_status(v),
        None => false,
    }
}

/// Whether a response may be stored in the edge cache.
pub fn payload_is_cacheable(success: bool, serialized: Option<&JsonValue>) -> (r: bool)
    ensures
        r == cacheable(
            success,
            match serialized {
                Some(v) => Some(*v),
                None => None,
            },
        ),
{
    if !success {
        return false;
    }
    match serialized {
        Some(v) => !contains_error_status(v),
        None => false,
    }
}

} // verus!

verus! {

// ---------------------------------------------------------------------------
// Health.
// ---------------------------------------------------------------------------

/// The status reported for the last check of `name`.
pub open spec fn last_status(results: Seq<(String, String)>, name: Seq<char>) -> Option<String>
    decreases results.len(),
{
    if results.len() == 0 {
        None
    } else if results.last().0@ == name {
        Some(results.last().1)
    } else {
        last_status(results.drop_last(), name)
    }
}

/// How many entries report `error`.
pub open spec fn error_count(entries: Seq<(String, String)>) -> nat
    decreases entries.len(),
{
    if entries.len() == 0 {
        0
    } else {
        error_count(entries.drop_last()) + if entries.last().1@ == "error"@ {
            1nat
        } else {
            0nat
        }
    }
}

/// The health summary of upstream checks: each upstream's status (the last
/// reported one if an upstream is checked twice), and `degraded` when more
/// than three of them report `error`, `ok` otherwise.
pub fn health_data(results: Vec<(String, String)>) -> (r: HealthData)
    ensures
        ascending(r.upstream@),
        forall|name: Seq<char>| #[trigger] lookup(r.upstream@, name) == last_status(results@, name),
        r.status@ == if error_count(r.upstream@) > 3 {
            "degraded"@
        } else {
            "ok"@
        },
{
    let mut upstream: Vec<(String, String)> = Vec::new();
    let mut i: usize = 0;
    while i < results.len()
        invariant
            i <= results@.len(),
            ascending(upstream@),
            forall|name: Seq<char>|
                #[trigger] lookup(upstream@, name) == last_status(results@.take(i as int), name),
        decreases results@.len() - i,
    {
        let ghost pre = results@.take(i as int + 1);
        assert(pre.drop_last() =~= results@.take(i as int));
        assert(pre.last() == results@[i as int]);
        map_insert(&mut upstream, results[i].0.clone(), results[i].1.clone());
        i = i + 1;
    }
    assert(results@.take(i as int) =~= results@);
    let mut errors: u64 = 0;
    let mut j: usize = 0;
    let err = chars_of("error");
    while j < upstream.len()
        invariant
            j <= upstream@.len(),
            err@ == "error"@,
            errors == error_count(upstream@.take(j as int)),
            errors <= j,
        decreases upstream@.len() - j,
    {
        let ghost pre = upstream@.take(j as int + 1);
        assert(pre.drop_last() =~= upstream@.take(j as int));
        assert(pre.last() == upstream@[j as int]);
        let v = chars_of(upstream[j].1.as_str());
        if same_text(v.as_slice(), err.as_slice()) {
            errors = errors + 1;
        }
        j = j + 1;
    }
    assert(upstream@.take(j as int) =~= upstream@);
    let status = if errors > 3 {
        owned("degraded")
    } else {
        owned("ok")
    };
    HealthData { status, upstream }
}

// ---------------------------------------------------------------------------
// Clients, caching and upstream requests.
// ---------------------------------------------------------------------------

/// The rate-limit client id: the first comma-separated entry of the
/// `CF-Connecting-IP` header, or of `X-Forwarded-For` when the former is
/// absent, trimmed; `local` when there is none or it is empty.
pub open spec fn client_id_text(cf_connecting_ip: Option<Seq<char>>, forwarded_for: Option<Seq<char>>) -> Seq<char> {
    let raw = match cf_connecting_ip {
        Some(v) => Some(v),
        None => forwarded_for,
    };
    match raw {
        Some(v) => {
            let t = trim(field_before(v, ','));
            if t.len() > 0 {
                t
            } else {
                "local"@
            }
        },
        None => "local"@,
    }
}

/// The rate-limit client id of a request, from its headers.
pub fn client_rate_limit_id(cf_connecting_ip: Option<&str>, forwarded_for: Option<&str>) -> (r:
    String)
    ensures
        r@ == client_id_text(
            match cf_connecting_ip {
                Some(v) => Some(v@),
                None => None,
            },
            match forwarded_for {
                Some(v) => Some(v@),
                None => None,
            },
        ),
{
    let raw = match cf_connecting_ip {
        Some(v) => Some(v),
        None => forwarded_for,
    };
    match raw {
        Some(v) => {
            let cs = chars_of(v);
            let t = trim_chars(field_before_chars(cs.as_slice(), ','));
            if t.len() > 0 {
                string_of(t.as_slice())
            } else {
                owned("local")
            }
        },
        None => owned("local"),
    }
}

/// A lifetime setting: the variable read as a `u64`, or `default_value`
/// when it is absent or not a number.
pub fn ttl_from_var(value: Option<&str>, default_value: u64) -> (r: u64)
    ensures
        r == match value {
            Some(v) => match parse_u64_text(v@) {
                Some(n) => n,
                None => default_value,
            },
            None => default_value,
        },
{
    match value {
        Some(v) => {
            let cs = chars_of(v);
            match parse_u64_chars(cs.as_slice()) {
                Some(n) => n,
                None => default_value,
            }
        },
        None => default_value,
    }
}

/// The URL under which a response is cached.
pub open spec fn cache_url_text(key: Seq<char>) -> Seq<char> {
    CACHE_BASE_URL@ + seq!['/'] + RESPONSE_CACHE_VERSION@ + seq!['/'] + key
}

/// The URL under which a response is cached.
pub fn cache_url(key: &str) -> (r: String)
    ensures
        r@ == cache_url_text(key@),
{
    let mut r = owned(CACHE_BASE_URL);
    push_char(&mut r, '/');
    r.append(RESPONSE_CACHE_VERSION);
    push_char(&mut r, '/');
    r.append(key);
    r
}

/// The `Cache-Control` header value for a lifetime in seconds.
pub open spec fn cache_control_text(ttl_seconds: u64) -> Seq<char> {
    "public, max-age="@ + decimal_text(ttl_seconds as nat) + ", stale-while-revalidate="@
        + decimal_text(ttl_seconds as nat)
}

/// The `Cache-Control` header value for a lifetime in seconds.
pub fn cache_control(ttl_seconds: u64) -> (r: String)
    ensures
        r@ == cache_control_text(ttl_seconds),
{
    let mut r = owned("public, max-age=");
    push_decimal(&mut r, ttl_seconds);
    r.append(", stale-while-revalidate=");
    push_decimal(&mut r, ttl_seconds);
    r
}

/// Whether the refresh header asks to bypass the cache (its value is `1`).
pub fn refresh_requested(header: Option<&str>) -> (r: bool)
    ensures
        r == (header matches Some(h) && h@ == "1"@),
{
    match header {
        Some(h) => {
            let cs = chars_of(h);
            let one = chars_of("1");
            same_text(cs.as_slice(), one.as_slice())
        },
        None => false,
    }
}

/// The `Authorization` header for an upstream request: the Modrinth token
/// as a bearer token, for Modrinth API URLs only.
pub fn authorization_header(url: &str, config: &UpstreamConfig) -> (r: Option<String>)
    ensures
        match config.modrinth_token {
            Some(t) => if crate::service::starts_with(url@, "https://api.modrinth.com/"@) {
                opt_text(r) == Some("Bearer "@ + t@)
            } else {
                r is None
            },
            None => r is None,
        },
{
    match &config.modrinth_token {
        Some(t) => {
            let cs = chars_of(url);
            let p = chars_of("https://api.modrinth.com/");
            if p.len() <= cs.len() {
                let head = &cs.as_slice()[0..p.len()];
                assert(head@ =~= url@.take(p@.len() as int));
                if same_text(head, p.as_slice()) {
                    let mut h = owned("Bearer ");
                    h.append(t.as_str());
                    return Some(h);
                }
            }
            None
        },
        None => None,
    }
}

/// The error for an upstream response status outside 200..=299.
pub fn upstream_status_error(status: u16) -> (r: Option<String>)
    ensures
        if 200 <= status <= 299 {
            r is None
        } else {
            opt_text(r) == Some("upstream returned HTTP "@ + decimal_text(status as nat))
        },
{
    if 200 <= status && status <= 299 {
        None
    } else {
        let mut m = owned("upstream returned HTTP ");
        push_decimal(&mut m, status as u64);
        Some(m)
    }
}

} // verus!

verus! {

// ---------------------------------------------------------------------------
// Routing.
// ---------------------------------------------------------------------------

/// The method of a request, as far as routing is concerned.
#[derive(Debug, Clone, Copy, PartialEq, Eq, Structural)]
pub enum RequestMethod {
    Get,
    Options,
    Other,
}

/// What a request asks for.
#[derive(Debug, Clone, PartialEq, Eq)]
pub enum Route {
    /// A CORS preflight (`OPTIONS`).
    Preflight,
    /// A method other than `GET` and `OPTIONS` (HTTP 405).
    MethodNotAllowed,
    /// A path outside `/v1` (HTTP 404, before rate limiting).
    OutsideApi,
    /// `/v1`: the API documentation.
    Docs,
    /// `/v1/health`.
    Health,
    /// `/v1/minecraft/versions`.
    MinecraftVersions,
    /// `/v1/loaders/{minecraft}`.
    Loaders(String),
    /// `/v1/dependencies/{minecraft}`.
    Dependencies(String),
    /// `/v1/mods/compatibility`.
    Compatibility,
    /// Any other path under `/v1` (HTTP 404).
    Unknown,
}

/// The segments of a path: the path without leading and trailing `/`,
/// split at `/`.
pub open spec fn path_segments(path: Seq<char>) -> Seq<Seq<char>> {
    split_all(trim_char(path, '/'), '/')
}

/// The route of a request.
pub open spec fn route_matches(method: RequestMethod, path: Seq<char>, r: Route) -> bool {
    let segs = path_segments(path);
    match method {
        RequestMethod::Options => r == Route::Preflight,
        RequestMethod::Other => r == Route::MethodNotAllowed,
        RequestMethod::Get => if segs[0] != "v1"@ {
            r == Route::OutsideApi
        } else if segs.len() == 1 {
            r == Route::Docs
        } else if segs.len() == 2 && segs[1] == "health"@ {
            r == Route::Health
        } else if segs.len() == 3 && segs[1] == "minecraft"@ && segs[2] == "versions"@ {
            r == Route::MinecraftVersions
        } else if segs.len() == 3 && segs[1] == "loaders"@ {
            r matches Route::Loaders(m) && m@ == segs[2]
        } else if segs.len() == 3 && segs[1] == "dependencies"@ {
            r matches Route::Dependencies(m) && m@ == segs[2]
        } else if segs.len() == 3 && segs[1] == "mods"@ && segs[2] == "compatibility"@ {
            r == Route::Compatibility
        } else {
            r == Route::Unknown
        },
    }
}

/// Whether a segment spells a word.
fn segment_is(seg: &Vec<char>, word: &str) -> (r: bool)
    ensures
        r == (seg@ == word@),
{
    let w = chars_of(word);
    same_text(seg.as_slice(), w.as_slice())
}

/// The route of a request.
pub fn route_request(method: RequestMethod, path: &str) -> (r: Route)
    ensures
        route_matches(method, path@, r),
{
    match method {
        RequestMethod::Options => {
            return Route::Preflight;
        },
        RequestMethod::Other => {
            return Route::MethodNotAllowed;
        },
        RequestMethod::Get => {},
    }
    let cs = chars_of(path);
    let trimmed = trim_char_chars(cs.as_slice(), '/');
    let segs = split_all_chars(trimmed, '/');
    let ghost sv = path_segments(path@);
    proof {
        assert(char_texts(segs@) == sv);
        lemma_split_all_len(trim_char(path@, '/'), '/');
        assert forall|k: int| 0 <= k < segs@.len() implies #[trigger] segs@[k]@ == sv[k] by {
            assert(char_texts(segs@)[k] == segs@[k]@);
        }
    }
    if !segment_is(&segs[0], "v1") {
        return Route::OutsideApi;
    }
    let n = segs.len();
    if n == 1 {
        Route::Docs
    } else if n == 2 && segment_is(&segs[1], "health") {
        Route::Health
    } else if n == 3 && segment_is(&segs[1], "minecraft") && segment_is(&segs[2], "versions") {
        Route::MinecraftVersions
    } else if n == 3 && segment_is(&segs[1], "loaders") {
        Route::Loaders(string_of(segs[2].as_slice()))
    } else if n == 3 && segment_is(&segs[1], "dependencies") {
        Route::Dependencies(string_of(segs[2].as_slice()))
    } else if n == 3 && segment_is(&segs[1], "mods") && segment_is(&segs[2], "compatibility") {
        Route::Compatibility
    } else {
        Route::Unknown
    }
}

// ---------------------------------------------------------------------------
// Request limits.
// ---------------------------------------------------------------------------

/// The most mods one request may name.
pub const MAX_MODS: usize = 32;

/// The longest mod id, in characters.
pub const MAX_MOD_ID_LEN: usize = 128;

/// The most Minecraft versions one compatibility request may name.
pub const MAX_COMPATIBILITY_VERSIONS: usize = 16;

/// A character allowed in a mod id: ASCII letter or digit, `-` or `_`.
pub open spec fn mod_char_ok(c: char) -> bool {
    ('a' <= c && c <= 'z') || ('A' <= c && c <= 'Z') || ('0' <= c && c <= '9') || c == '-' || c
        == '_'
}

/// A valid mod id: 1 to 128 allowed characters.
pub open spec fn mod_id_ok(id: Seq<char>) -> bool {
    0 < id.len() <= MAX_MOD_ID_LEN && forall|i: int| 0 <= i < id.len() ==> mod_char_ok(#[trigger] id[i])
}

/// The first query parameter that is not allowed, if any.
pub open spec fn first_unknown_key(keys: Seq<Seq<char>>, allowed: Seq<Seq<char>>) -> Option<Seq<char>>
    decreases keys.len(),
{
    if keys.len() == 0 {
        None
    } else if !allowed.contains(keys[0]) {
        Some(keys[0])
    } else {
        first_unknown_key(keys.drop_first(), allowed)
    }
}

/// Checks that a request names only allowed query parameters.
pub fn validate_query_keys(keys: &[String], allowed: &[&str]) -> (r: Result<(), String>)
    ensures
        match first_unknown_key(texts(keys@), crate::config::str_texts(allowed@)) {
            None => r is Ok,
            Some(k) => r matches Err(e) && e@ == "unsupported query parameter: "@ + k,
        },
{
    let ghost ks = texts(keys@);
    let ghost al = crate::config::str_texts(allowed@);
    let mut i: usize = 0;
    assert(ks.skip(0) =~= ks);
    while i < keys.len()
        invariant
            i <= keys@.len(),
            ks == texts(keys@),
            al == crate::config::str_texts(allowed@),
            first_unknown_key(ks, al) == first_unknown_key(ks.skip(i as int), al),
        decreases keys@.len() - i,
    {
        let ghost rest = ks.skip(i as int);
        assert(rest.drop_first() =~= ks.skip(i as int + 1));
        assert(rest[0] == keys@[i as int]@);
        let key = chars_of(keys[i].as_str());
        let mut found = false;
        let mut j: usize = 0;
        while j < allowed.len()
            invariant
                j <= allowed@.len(),
                key@ == keys@[i as int]@,
                al == crate::config::str_texts(allowed@),
                found == al.take(j as int).contains(key@),
            decreases allowed@.len() - j,
        {
            let a = chars_of(allowed[j]);
            let same = same_text(a.as_slice(), key.as_slice());
            proof {
                let t = al.take(j as int + 1);
                assert(t =~= al.take(j as int).push(allowed@[j as int]@));
                if same {
                    assert(t[j as int] == key@);
                }
                if found {
                    let k = choose|k: int| 0 <= k < al.take(j as int).len() && al.take(j as int)[k] == key@;
                    assert(t[k] == key@);
                }
                if t.contains(key@) && !same {
                    let k = choose|k: int| 0 <= k < t.len() && t[k] == key@;
                    assert(k < j);
                    assert(al.take(j as int)[k] == key@);
                }
            }
            found = found || same;
            j = j + 1;
        }
        assert(al.take(j as int) =~= al);
        if !found {
            let mut e = owned("unsupported query parameter: ");
            e.append(keys[i].as_str());
            return Err(e);
        }
        i = i + 1;
    }
    Ok(())
}

/// Why a list of mod ids is refused, if it is.
pub open spec fn mods_problem(mods: Seq<Seq<char>>) -> Option<Seq<char>> {
    if mods.len() > MAX_MODS {
        Some("at most 32 mods may be requested"@)
    } else if exists|i: int| 0 <= i < mods.len() && !mod_id_ok(#[trigger] mods[i]) {
        Some("mod ids must be 1 to 128 ASCII letters, digits, hyphens or underscores"@)
    } else {
        None
    }
}

/// Checks the mod ids of a request.
pub fn validate_mods(mods: &[String]) -> (r: Result<(), String>)
    ensures
        match mods_problem(texts(mods@)) {
            None => r is Ok,
            Some(m) => r matches Err(e) && e@ == m,
        },
{
    if mods.len() > MAX_MODS {
        return Err(owned("at most 32 mods may be requested"));
    }
    let mut i: usize = 0;
    while i < mods.len()
        invariant
            i <= mods@.len(),
            mods@.len() <= MAX_MODS,
            forall|j: int| 0 <= j < i ==> mod_id_ok(#[trigger] texts(mods@)[j]),
        decreases mods@.len() - i,
    {
        let cs = chars_of(mods[i].as_str());
        let mut ok = cs.len() > 0 && cs.len() <= MAX_MOD_ID_LEN;
        let mut k: usize = 0;
        while k < cs.len()
            invariant
                k <= cs@.len(),
                ok ==> forall|j: int| 0 <= j < k ==> mod_char_ok(#[trigger] cs@[j]),
                ok ==> 0 < cs@.len() <= MAX_MOD_ID_LEN,
                !ok ==> !mod_id_ok(cs@),
            decreases cs@.len() - k,
        {
            let c = cs[k];
            let good = ('a' <= c && c <= 'z') || ('A' <= c && c <= 'Z') || ('0' <= c && c <= '9')
                || c == '-' || c == '_';
            if !good {
                ok = false;
            }
            k = k + 1;
        }
        assert(texts(mods@)[i as int] == cs@);
        if !ok {
            assert(!mod_id_ok(texts(mods@)[i as int]));
            return Err(owned("mod ids must be 1 to 128 ASCII letters, digits, hyphens or underscores"));
        }
        i = i + 1;
    }
    Ok(())
}

/// Why the Minecraft versions of a compatibility request are refused, if
/// they are: at most 16, each a valid Minecraft version.
pub open spec fn compatibility_versions_problem(versions: Seq<Seq<char>>) -> Option<Seq<char>>
    decreases versions.len(),
{
    if versions.len() > MAX_COMPATIBILITY_VERSIONS {
        Some("at most 16 Minecraft versions may be requested"@)
    } else {
        first_version_problem(versions)
    }
}

/// The problem with the first invalid Minecraft version, if any.
pub open spec fn first_version_problem(versions: Seq<Seq<char>>) -> Option<Seq<char>>
    decreases versions.len(),
{
    if versions.len() == 0 {
        None
    } else {
        match minecraft_problem(versions[0], utf8_len(versions[0])) {
            Some(p) => Some(p),
            None => first_version_problem(versions.drop_first()),
        }
    }
}

/// Checks the Minecraft versions of a compatibility request.
pub fn validate_compatibility_minecraft_versions(versions: &[String]) -> (r: Result<(), String>)
    ensures
        match compatibility_versions_problem(texts(versions@)) {
            None => r is Ok,
            Some(m) => r matches Err(e) && e@ == m,
        },
{
    if versions.len() > MAX_COMPATIBILITY_VERSIONS {
        return Err(owned("at most 16 Minecraft versions may be requested"));
    }
    let ghost vs = texts(versions@);
    let mut i: usize = 0;
    assert(vs.skip(0) =~= vs);
    while i < versions.len()
        invariant
            i <= versions@.len(),
            versions@.len() <= MAX_COMPATIBILITY_VERSIONS,
            vs == texts(versions@),
            first_version_problem(vs) == first_version_problem(vs.skip(i as int)),
        decreases versions@.len() - i,
    {
        let ghost rest = vs.skip(i as int);
        assert(rest.drop_first() =~= vs.skip(i as int + 1));
        assert(rest[0] == versions@[i as int]@);
        match validate_minecraft(versions[i].as_str()) {
            Err(e) => {
                assert(first_version_problem(rest) == Some(e@));
                return Err(e);
            },
            Ok(_) => {},
        }
        i = i + 1;
    }
    assert(vs.skip(i as int) =~= Seq::<Seq<char>>::empty());
    Ok(())
}

// ---------------------------------------------------------------------------
// Requests.
// ---------------------------------------------------------------------------

/// The mod list of a dependency listing: the `mods` query parameter as a
/// normalized list, or the default projects when it is absent.
pub open spec fn dependency_mods(mods: Option<Seq<char>>) -> Seq<Seq<char>> {
    normalized(mods, default_project_ids())
}

/// The mods of a dependency listing request, or why they are refused.
pub fn dependencies_request(mods: Option<&str>) -> (r: Result<Vec<String>, String>)
    ensures
        ({
            let list = dependency_mods(
                match mods {
                    Some(m) => Some(m@),
                    None => None,
                },
            );
            match mods_problem(list) {
                None => r matches Ok(v) && texts(v@) == list,
                Some(p) => r matches Err(e) && e@ == p,
            }
        }),
{
    let defaults = default_projects();
    let list = normalize_list(mods, defaults.as_slice());
    match validate_mods(list.as_slice()) {
        Ok(_) => Ok(list),
        Err(e) => Err(e),
    }
}

/// Why a compatibility request is refused, if it is, given its `mods` and
/// `minecraft` query parameters.
pub open spec fn compatibility_problem(mods: Option<Seq<char>>, minecraft: Option<Seq<char>>) -> Option<
    Seq<char>,
> {
    match (mods, minecraft) {
        (None, _) => Some("mods query parameter is required"@),
        (Some(_), None) => Some("minecraft query parameter is required"@),
        (Some(m), Some(v)) => {
            let ml = normalized(Some(m), seq![]);
            let vl = normalized(Some(v), seq![]);
            if ml.len() == 0 || vl.len() == 0 {
                Some("mods and minecraft query parameters must not be empty"@)
            } else if mods_problem(ml) is Some {
                mods_problem(ml)
            } else {
                compatibility_versions_problem(vl)
            }
        },
    }
}

/// The mods and Minecraft versions of a compatibility request, each a
/// normalized list, or why the request is refused.
pub fn compatibility_request(mods: Option<&str>, minecraft: Option<&str>) -> (r: Result<
    (Vec<String>, Vec<String>),
    String,
>)
    ensures
        ({
            let m = match mods {
                Some(x) => Some(x@),
                None => None,
            };
            let v = match minecraft {
                Some(x) => Some(x@),
                None => None,
            };
            match compatibility_problem(m, v) {
                None => r matches Ok(lists) && texts(lists.0@) == normalized(m, seq![])
                    && texts(lists.1@) == normalized(v, seq![]),
                Some(p) => r matches Err(e) && e@ == p,
            }
        }),
{
    let mods_raw = match mods {
        Some(m) => m,
        None => {
            return Err(owned("mods query parameter is required"));
        },
    };
    let minecraft_raw = match minecraft {
        Some(v) => v,
        None => {
            return Err(owned("minecraft query parameter is required"));
        },
    };
    let no_defaults: Vec<&str> = Vec::new();
    assert(str_texts(no_defaults@) =~= Seq::<Seq<char>>::empty());
    let mod_list = normalize_list(Some(mods_raw), no_defaults.as_slice());
    let versions = normalize_list(Some(minecraft_raw), no_defaults.as_slice());
    if mod_list.len() == 0 || versions.len() == 0 {
        return Err(owned("mods and minecraft query parameters must not be empty"));
    }
    match validate_mods(mod_list.as_slice()) {
        Ok(_) => {},
        Err(e) => {
            return Err(e);
        },
    }
    match validate_compatibility_minecraft_versions(versions.as_slice()) {
        Ok(_) => {},
        Err(e) => {
            return Err(e);
        },
    }
    Ok((mod_list, versions))
}

/// The query parameters a route accepts.
pub open spec fn route_query_keys(route: Route) -> Seq<Seq<char>> {
    match route {
        Route::Dependencies(_) => seq!["mods"@],
        Route::Compatibility => seq!["minecraft"@, "mods"@],
        _ => seq![],
    }
}

/// The query parameters a route accepts.
pub fn allowed_query_keys(route: &Route) -> (r: Vec<&'static str>)
    ensures
        str_texts(r@) == route_query_keys(*route),
{
    let r: Vec<&'static str> = match route {
        Route::Dependencies(_) => vec!["mods"],
        Route::Compatibility => vec!["minecraft", "mods"],
        _ => Vec::new(),
    };
    assert(str_texts(r@) =~= route_query_keys(*route));
    r
}

/// Whether a request on this route counts against the rate limits: every
/// request that reaches the API, that is every `GET` under `/v1`.
pub open spec fn rate_limited_route(route: Route) -> bool {
    !(route is Preflight || route is MethodNotAllowed || route is OutsideApi)
}

/// Whether a request on this route counts against the rate limits.
pub fn needs_rate_limit(route: &Route) -> (r: bool)
    ensures
        r == rate_limited_route(*route),
{
    match route {
        Route::Preflight | Route::MethodNotAllowed | Route::OutsideApi => false,
        _ => true,
    }
}

/// The cache lifetime setting of a route: the variable that overrides it
/// and its default in seconds; `None` for routes that are not cached.
pub open spec fn route_cache_setting(route: Route) -> Option<(Seq<char>, u64)> {
    match route {
        Route::MinecraftVersions => Some(("CACHE_TTL_MINECRAFT"@, DEFAULT_CACHE_TTL_MINECRAFT)),
        Route::Loaders(_) => Some(("CACHE_TTL_LOADERS"@, DEFAULT_CACHE_TTL_LOADERS)),
        Route::Dependencies(_) => Some(("CACHE_TTL_DEPENDENCIES"@, DEFAULT_CACHE_TTL_DEPENDENCIES)),
        Route::Compatibility => Some(("CACHE_TTL_COMPATIBILITY"@, DEFAULT_CACHE_TTL_COMPATIBILITY)),
        _ => None,
    }
}

/// The cache lifetime setting of a route.
pub fn cache_setting(route: &Route) -> (r: Option<(&'static str, u64)>)
    ensures
        match route_cache_setting(*route) {
            Some((name, ttl)) => r matches Some(x) && x.0@ == name && x.1 == ttl,
            None => r is None,
        },
{
    match route {
        Route::MinecraftVersions => Some(("CACHE_TTL_MINECRAFT", DEFAULT_CACHE_TTL_MINECRAFT)),
        Route::Loaders(_) => Some(("CACHE_TTL_LOADERS", DEFAULT_CACHE_TTL_LOADERS)),
        Route::Dependencies(_) => Some(("CACHE_TTL_DEPENDENCIES", DEFAULT_CACHE_TTL_DEPENDENCIES)),
        Route::Compatibility => Some(("CACHE_TTL_COMPATIBILITY", DEFAULT_CACHE_TTL_COMPATIBILITY)),
        _ => None,
    }
}

/// The upstream services the health check probes, by name, with the URL
/// probed for each.
pub open spec fn health_check_list() -> Seq<(Seq<char>, Seq<char>)> {
    seq![
        ("mojang"@, MOJANG_MANIFEST_URL@),
        ("fabric"@, FABRIC_LOADER_BASE_URL@),
        ("forge"@, FORGE_METADATA_URL@),
        ("neoforge"@, NEOFORGE_METADATA_URL@),
        ("modrinth"@, "https://api.modrinth.com/v2/tag/game_version"@),
        ("parchment"@, PARCHMENT_REPOSITORY_URL@),
        ("maven_plugins"@, FORGEGRADLE_METADATA_URL@),
    ]
}

/// The upstream services the health check probes.
pub fn health_checks() -> (r: Vec<(&'static str, &'static str)>)
    ensures
        r@.map_values(|c: (&'static str, &'static str)| (c.0@, c.1@)) == health_check_list(),
{
    let r = vec![
        ("mojang", MOJANG_MANIFEST_URL),
        ("fabric", FABRIC_LOADER_BASE_URL),
        ("forge", FORGE_METADATA_URL),
        ("neoforge", NEOFORGE_METADATA_URL),
        ("modrinth", "https://api.modrinth.com/v2/tag/game_version"),
        ("parchment", PARCHMENT_REPOSITORY_URL),
        ("maven_plugins", FORGEGRADLE_METADATA_URL),
    ];
    assert(r@.map_values(|c: (&'static str, &'static str)| (c.0@, c.1@)) =~= health_check_list());
    r
}

/// The cache key of a loader listing.
pub fn loaders_cache_key(minecraft: &str) -> (r: String)
    ensures
        r@ == "loaders/"@ + minecraft@,
{
    let mut r = owned("loaders/");
    r.append(minecraft);
    r
}

// ---------------------------------------------------------------------------
// Laws of caching.
// ---------------------------------------------------------------------------

/// A response that failed at the route level is never cached.
pub proof fn law_route_errors_are_not_cached(serialized: Option<JsonValue>)
    ensures
        !cacheable(false, serialized),
{
}

/// An item with an error status makes a list that holds it hold one.
proof fn lemma_item_error_reaches_list(items: Seq<JsonValue>, i: int)
    requires
        0 <= i < items.len(),
        has_error_status(items[i]),
    ensures
        items_have_error(items),
    decreases i,
{
    if i > 0 {
        assert(items.drop_first()[i - 1] == items[i]);
        lemma_item_error_reaches_list(items.drop_first(), i - 1);
    }
}

/// A field value with an error status makes the fields hold one.
proof fn lemma_field_error_reaches_object(fields: Seq<(String, JsonValue)>, i: int)
    requires
        0 <= i < fields.len(),
        has_error_status(fields[i].1),
    ensures
        fields_have_error(fields),
    decreases i,
{
    if i > 0 {
        assert(fields.drop_first()[i - 1] == fields[i]);
        lemma_field_error_reaches_object(fields.drop_first(), i - 1);
    }
}

/// An error status in any item of a list, at any depth, is an error status
/// of the list, and keeps a successful response made of it out of the cache.
pub proof fn law_list_item_errors_are_not_cached(items: Vec<JsonValue>, i: int)
    requires
        0 <= i < items@.len(),
        has_error_status(items@[i]),
    ensures
        has_error_status(JsonValue::Array(items)),
        !cacheable(true, Some(JsonValue::Array(items))),
{
    lemma_item_error_reaches_list(items@, i);
}

/// An error status in any field of an object, at any depth, is an error
/// status of the object, and keeps a successful response made of it out of
/// the cache.
pub proof fn law_field_errors_are_not_cached(fields: Vec<(String, JsonValue)>, i: int)
    requires
        0 <= i < fields@.len(),
        has_error_status(fields@[i].1),
    ensures
        has_error_status(JsonValue::Object(fields)),
        !cacheable(true, Some(JsonValue::Object(fields))),
{
    lemma_field_error_reaches_object(fields@, i);
}

/// A successful response with no error status anywhere is cached.
pub proof fn law_clean_success_is_cached(v: JsonValue)
    requires
        !has_error_status(v),
    ensures
        cacheable(true, Some(v)),
{
}

/// Every `GET` request under `/v1` counts against the rate limits, whatever
/// route it resolves to; preflights do not.
pub proof fn law_api_requests_are_rate_limited(path: Seq<char>, r: Route)
    ensures
        route_matches(RequestMethod::Get, path, r) && path_segments(path)[0] == "v1"@
            ==> rate_limited_route(r),
        route_matches(RequestMethod::Options, path, r) ==> !rate_limited_route(r),
{
}

// ---------------------------------------------------------------------------
// Rate limits.
// ---------------------------------------------------------------------------

/// The message of a request refused by the general limiter.
pub open spec fn api_limit_message() -> Seq<char> {
    "rate limit exceeded: "@ + decimal_text(PUBLIC_API_RATE_LIMIT_PER_MINUTE as nat)
        + " requests per minute"@
}

/// The message of a request refused by the refresh limiter.
pub open spec fn refresh_limit_message() -> Seq<char> {
    "rate limit exceeded: "@ + decimal_text(REFRESH_RATE_LIMIT_PER_MINUTE as nat)
        + " refreshes per minute"@
}

/// Why a request is refused by the rate limits, if it is: the general
/// limiter decides first; the refresh limiter, consulted only for requests
/// that ask for a refresh (`refresh_allowed` is `None` when it was not
/// consulted), decides next.
pub open spec fn rate_limit_refusal(api_allowed: bool, refresh_allowed: Option<bool>) -> Option<
    Seq<char>,
> {
    if !api_allowed {
        Some(api_limit_message())
    } else {
        match refresh_allowed {
            Some(false) => Some(refresh_limit_message()),
            _ => None,
        }
    }
}

/// The refusal message of a rate-limited request (answered with HTTP 429),
/// or `None` when the request may go on.
pub fn rate_limit_outcome(api_allowed: bool, refresh_allowed: Option<bool>) -> (r: Option<String>)
    ensures
        opt_text(r) == rate_limit_refusal(api_allowed, refresh_allowed),
{
    if !api_allowed {
        let mut m = owned("rate limit exceeded: ");
        push_decimal(&mut m, PUBLIC_API_RATE_LIMIT_PER_MINUTE);
        m.append(" requests per minute");
        return Some(m);
    }
    match refresh_allowed {
        Some(false) => {
            let mut m = owned("rate limit exceeded: ");
            push_decimal(&mut m, REFRESH_RATE_LIMIT_PER_MINUTE);
            m.append(" refreshes per minute");
            Some(m)
        },
        _ => None,
    }
}

/// Whether the refresh limiter is consulted: only when the general limiter
/// let the request through and the request asks for a refresh.
pub fn refresh_limit_applies(api_allowed: bool, refresh_header: Option<&str>) -> (r: bool)
    ensures
        r == (api_allowed && (refresh_header matches Some(h) && h@ == "1"@)),
{
    api_allowed && refresh_requested(refresh_header)
}

/// A request that the general limiter refuses is refused with its message,
/// whatever the refresh limiter says; a refresh refused by the refresh
/// limiter is refused with the refresh message; nothing else is refused.
pub proof fn law_rate_limit_refusals(api_allowed: bool, refresh_allowed: Option<bool>)
    ensures
        !api_allowed ==> rate_limit_refusal(api_allowed, refresh_allowed) == Some(api_limit_message()),
        api_allowed && refresh_allowed == Some(false) ==> rate_limit_refusal(api_allowed, refresh_allowed)
            == Some(refresh_limit_message()),
        rate_limit_refusal(api_allowed, refresh_allowed) is None <==> api_allowed && refresh_allowed
            != Some(false),
{
}

// ---------------------------------------------------------------------------
// The edge cache.
// ---------------------------------------------------------------------------

/// The status of the error response sent when a route's data could not be
/// built.
pub const BUILD_FAILURE_STATUS: u16 = 500;

/// Whether a stored response is replayed: only when the request does not
/// ask for a refresh and the cache holds a response for its key.
pub fn replay_cached(bypass: bool, cached: bool) -> (r: bool)
    ensures
        r == (!bypass && cached),
{
    !bypass && cached
}

/// Whether a freshly built response is stored in the cache: only a `200`
/// response whose payload may be cached.
pub fn store_response(status: u16, cacheable: bool) -> (r: bool)
    ensures
        r == (status == 200 && cacheable),
{
    status == 200 && cacheable
}

/// Cache lifetimes by route, as the API promises them: the Minecraft
/// version list for 6 hours (before the release-day policy shortens it),
/// loader, dependency and compatibility responses for 30 minutes each, each
/// under its own setting, and the documentation and health not at all. The
/// defaults are the lifetimes the API documentation publishes under
/// `cache`.
pub proof fn law_route_cache_lifetimes(minecraft: String)
    ensures
        route_cache_setting(Route::MinecraftVersions) matches Some((name, ttl)) && name
            == "CACHE_TTL_MINECRAFT"@ && ttl == 6 * 60 * 60 && ttl == DEFAULT_CACHE_TTL_MINECRAFT,
        route_cache_setting(Route::Loaders(minecraft)) matches Some((name, ttl)) && name
            == "CACHE_TTL_LOADERS"@ && ttl == 30 * 60 && ttl == DEFAULT_CACHE_TTL_LOADERS,
        route_cache_setting(Route::Dependencies(minecraft)) matches Some((name, ttl)) && name
            == "CACHE_TTL_DEPENDENCIES"@ && ttl == 30 * 60 && ttl == DEFAULT_CACHE_TTL_DEPENDENCIES,
        route_cache_setting(Route::Compatibility) matches Some((name, ttl)) && name
            == "CACHE_TTL_COMPATIBILITY"@ && ttl == 30 * 60 && ttl == DEFAULT_CACHE_TTL_COMPATIBILITY,
        route_cache_setting(Route::Docs) is None,
        route_cache_setting(Route::Health) is None,
{
}

} // verus!
