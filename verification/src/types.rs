//! The data that the API returns.

use vstd::prelude::*;

verus! {

broadcast use vstd::string::group_string_axioms;

/// The outcome for one item of a batch response (`ok`, `error` or
/// `unavailable` on the wire).
#[derive(Debug, Clone, Copy, PartialEq, Eq, Structural)]
pub enum ItemStatus {
    Okay,
    Error,
    Unavailable,
}

/// One Minecraft version of Mojang's manifest.
#[derive(Debug, Clone, PartialEq, Eq)]
pub struct MinecraftVersion {
    pub id: String,
    pub kind: String,
}

/// A mod loader resolved for one Minecraft version.
#[derive(Debug, Clone, PartialEq, Eq)]
pub struct LoaderItem {
    pub loader: String,
    pub status: ItemStatus,
    pub version: Option<String>,
    pub maven: Option<String>,
    pub source: String,
    pub error: Option<String>,
}

/// A dependency or project resolved for one Minecraft version.
#[derive(Debug, Clone, PartialEq, Eq)]
pub struct DependencyItem {
    pub id: String,
    pub kind: String,
    pub status: ItemStatus,
    pub version: Option<String>,
    pub loader_versions: LoaderVersions,
    pub coordinates: Option<String>,
    pub source: String,
    pub error: Option<String>,
}

/// The version resolved for each loader, if any.
#[derive(Debug, Clone, PartialEq, Eq)]
pub struct LoaderVersions {
    pub forge: Option<String>,
    pub neoforge: Option<String>,
    pub fabric: Option<String>,
}

impl LoaderVersions {
    /// No version for any loader.
    pub open spec fn is_empty(self) -> bool {
        self.forge is None && self.neoforge is None && self.fabric is None
    }
}

impl Default for LoaderVersions {
    fn default() -> (r: Self)
        ensures
            r.is_empty(),
    {
        LoaderVersions { forge: None, neoforge: None, fabric: None }
    }
}

/// Mojang's version list.
#[derive(Debug, Clone, PartialEq, Eq)]
pub struct VersionsData {
    pub versions: Vec<MinecraftVersion>,
}

/// The loaders for one Minecraft version.
#[derive(Debug, Clone, PartialEq, Eq)]
pub struct LoadersData {
    pub minecraft: String,
    pub loaders: Vec<LoaderItem>,
}

/// The dependencies for one Minecraft version.
#[derive(Debug, Clone, PartialEq, Eq)]
pub struct DependenciesData {
    pub minecraft: String,
    pub dependencies: Vec<DependencyItem>,
}

/// Loader versions per project and Minecraft version. Both levels are maps
/// kept as entry lists with distinct keys in ascending order.
#[derive(Debug, Clone, PartialEq, Eq)]
pub struct CompatibilityData {
    pub projects: Vec<(String, Vec<(String, LoaderVersions)>)>,
}

/// Health of the worker and its upstream services. `upstream` is a map kept
/// as an entry list with distinct keys in ascending order.
#[derive(Debug, Clone, PartialEq, Eq)]
pub struct HealthData {
    pub status: String,
    pub upstream: Vec<(String, String)>,
}

/// The envelope of every response.
#[derive(Debug, Clone, PartialEq, Eq)]
pub struct ApiResponse<T> {
    pub success: bool,
    pub data: Option<T>,
    pub error: Option<String>,
    pub timestamp: String,
    pub cached_at: Option<String>,
}

impl<T> ApiResponse<T> {
    /// A successful response generated now from fresh data.
    pub fn success(data: T, timestamp: String) -> (r: Self)
        ensures
            r.success,
            r.data == Some(data),
            r.error is None,
            r.timestamp@ == timestamp@,
            r.cached_at matches Some(c) && c@ == timestamp@,
    {
        let cached = timestamp.clone();
        ApiResponse { success: true, data: Some(data), error: None, timestamp, cached_at: Some(cached) }
    }

    /// A failed response carrying `message`.
    pub fn error(message: &str, timestamp: String) -> (r: Self)
        ensures
            !r.success,
            r.data is None,
            r.error matches Some(e) && e@ == message@,
            r.timestamp@ == timestamp@,
            r.cached_at is None,
    {
        ApiResponse {
            success: false,
            data: None,
            error: Some(message.to_string()),
            timestamp,
            cached_at: None,
        }
    }
}

} // verus!
