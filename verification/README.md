# launcher_meta

The logic of a small JSON API for Minecraft, mod loader and mod metadata,
verified with Verus. It runs as a Cloudflare worker: `app/` holds the worker
(requests, rate limiters, the edge cache, upstream fetches and JSON
serialization). It fetches, reads JSON into the library's types, and runs the
fetch loops; what a request or an upstream response means, and what item or
response it becomes, is decided by the library in `src/`.

- `src/text.rs`, `src/order.rs`: characters, number parsing and printing,
  trimming, splitting, and the text and version-key orders.
- `src/versioning.rs`: Maven metadata, NeoForge version mapping, version
  ordering, sorting and selection of the latest version, Forge's manifest.
- `src/util.rs`: list normalization, cache keys, rate-limit keys, Minecraft
  version validation and cache lifetimes.
- `src/service.rs`: loader and dependency items built from upstream metadata,
  Modrinth projects and compatibility tables.
- `src/handling.rs`: routing, request limits, caching decisions and health.
- `src/docs.rs`: the API documentation served at `/v1`, built from the
  library's own settings and listing the routes it serves.
- `src/maps.rs`: text-keyed maps kept as ascending entry lists.
- `src/types.rs`, `src/config.rs`: the response types and the settings.

Laws (public proof functions named `law_*`) state what holds across calls:
cache keys ignore order, a sorted list ends with its latest version, an
error anywhere in a response keeps it out of the cache, and more.
