//! The runtime context of the service.

use crate::scenario::Scenario;
use vstd::prelude::*;

verus! {

/// Settings of the artifact cache.
#[derive(Debug)]
pub struct ArtifactCacheConfig {
    /// Directory that holds the cached artifacts and is served over HTTP.
    pub cache_dir: String,
    /// How many downloads may run at the same time.
    pub max_concurrent_downloads: u32,
    /// How long one download may take.
    pub download_timeout_secs: u64,
    /// Port of the cache server.
    pub serve_port: u16,
}

/// Settings of the service.
#[derive(Debug)]
pub struct Config {
    /// Pause between two validation cycles.
    pub poll_interval_secs: u64,
    pub artifact_cache: ArtifactCacheConfig,
}

/// What the routines of the service share: the loaded scenarios and the settings.
#[derive(Debug)]
pub struct RvsCtx {
    pub scenarios: Vec<Scenario>,
    pub cfg: Config,
    /// Where set, the SOT document is loaded from this file instead of the API.
    pub sot_override_path: Option<String>,
}

} // verus!
