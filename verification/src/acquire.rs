//! Extractor acquisition: locating or fetching the yt-dlp binary, and
//! resolving the download cache root.
//!
//! Search order: a binary already on the system search path; a previously
//! cached copy under the per-application cache directory; otherwise a fetch
//! of the release asset matching the platform, written to the cache path by
//! the caller. Path separators follow the POSIX convention.

use vstd::prelude::*;

use crate::errors::AcquisitionError;
use crate::text::{is_prefix, str_starts_with};

verus! {

/// The platforms the release assets distinguish. Anything else falls back
/// to the generic asset.
#[derive(Clone, Copy, Debug, PartialEq, Eq, Structural)]
pub enum Platform {
    Windows64,
    Windows32,
    Linux,
    MacOs,
    Other,
}

impl Platform {
    pub open spec fn is_windows(self) -> bool {
        self is Windows64 || self is Windows32
    }
}

pub open spec fn spec_platform_asset_name(p: Platform) -> Seq<char> {
    match p {
        Platform::Windows64 => "yt-dlp.exe"@,
        Platform::Windows32 => "yt-dlp_x86.exe"@,
        Platform::Linux => "yt-dlp_linux"@,
        Platform::MacOs => "yt-dlp_macos"@,
        Platform::Other => "yt-dlp"@,
    }
}

/// The release asset that fits the platform: 64-bit Windows, 32-bit Windows,
/// Linux, macOS, or the generic fallback.
pub fn platform_asset_name(p: Platform) -> (r: &'static str)
    ensures
        r@ == spec_platform_asset_name(p),
{
    match p {
        Platform::Windows64 => "yt-dlp.exe",
        Platform::Windows32 => "yt-dlp_x86.exe",
        Platform::Linux => "yt-dlp_linux",
        Platform::MacOs => "yt-dlp_macos",
        Platform::Other => "yt-dlp",
    }
}

pub open spec fn spec_local_binary_name(p: Platform) -> Seq<char> {
    if p.is_windows() {
        "yt-dlp.exe"@
    } else {
        "yt-dlp"@
    }
}

/// The file name the cached copy is stored under.
pub fn local_binary_name(p: Platform) -> (r: &'static str)
    ensures
        r@ == spec_local_binary_name(p),
{
    match p {
        Platform::Windows64 => "yt-dlp.exe",
        Platform::Windows32 => "yt-dlp.exe",
        _ => "yt-dlp",
    }
}

/// Relies on dirs::cache_dir: the host's per-user cache directory, when the
/// platform defines one. The value depends on the host environment, so
/// nothing is promised of it.
#[verifier::external_body]
fn host_cache_root() -> Option<String> {
    match dirs::cache_dir() {
        Some(p) => Some(p.to_string_lossy().into_owned()),
        None => None,
    }
}

/// Relies on which::which: the path of an executable of this name found on
/// the system search path, if any. The value depends on the host
/// environment, so nothing is promised of it.
#[verifier::external_body]
fn locate_on_path(name: &str) -> Option<String> {
    match which::which(name) {
        Ok(p) => Some(p.to_string_lossy().into_owned()),
        Err(_) => None,
    }
}

/// `base` and `rest` joined with a single separator.
pub fn join_path(base: &str, rest: &str) -> (r: String)
    ensures
        r@ == base@ + "/"@ + rest@,
{
    let mut s = base.to_owned();
    s.append("/");
    s.append(rest);
    s
}

/// The per-application directory the extractor is cached under, if the host
/// resolves a cache root at all.
pub fn extractor_cache_dir() -> (r: Option<String>)
    ensures
        r matches Some(d) ==> exists|base: Seq<char>| d@ == base + "/lyre/yt-dlp"@,
{
    match host_cache_root() {
        Some(root) => {
            let mut s = root;
            let ghost base = s@;
            s.append("/lyre/yt-dlp");
            proof {
                assert(s@ == base + "/lyre/yt-dlp"@);
            }
            Some(s)
        },
        None => None,
    }
}

/// Where the extractor search stands after the cheap probes.
pub enum ExtractorSearch {
    /// An executable was already on the search path: use it as it is.
    OnPath { path: String },
    /// Not on the path: the cached copy would live at `local`; the caller
    /// checks whether that file exists.
    CacheCandidate { local: String },
    /// No cache directory is resolvable on this host.
    NoCacheDir,
}

/// The search order of the extractor, decided on the two probe results: a
/// binary on the system path wins outright; otherwise a resolvable cache
/// root names the candidate file to test; with neither, acquisition fails
/// for want of a cache directory.
pub fn plan_extractor_search(on_path: Option<String>, cache_root: Option<String>, p: Platform) -> (r:
    ExtractorSearch)
    ensures
        on_path matches Some(path) ==> r == (ExtractorSearch::OnPath { path }),
        on_path is None ==> (cache_root matches Some(root) ==> (r
            matches ExtractorSearch::CacheCandidate { local } && local@ == root@ + "/lyre/yt-dlp"@
            + "/"@ + spec_local_binary_name(p))),
        on_path is None && cache_root is None ==> r is NoCacheDir,
{
    match on_path {
        Some(path) => ExtractorSearch::OnPath { path },
        None => match cache_root {
            Some(root) => {
                let ghost rootv = root@;
                let mut dir = root;
                dir.append("/lyre/yt-dlp");
                let local = join_path(dir.as_str(), local_binary_name(p));
                proof {
                    assert(local@ == rootv + "/lyre/yt-dlp"@ + "/"@ + spec_local_binary_name(p));
                }
                ExtractorSearch::CacheCandidate { local }
            },
            None => ExtractorSearch::NoCacheDir,
        },
    }
}

/// Runs the two cheap probes of the search order and decides on their
/// results; what the decision means for each probe outcome is fixed by
/// `plan_extractor_search`.
pub fn locate_extractor(p: Platform) -> (r: ExtractorSearch)
    ensures
        r matches ExtractorSearch::CacheCandidate { local } ==> exists|base: Seq<char>|
            local@ == base + "/lyre/yt-dlp"@ + "/"@ + spec_local_binary_name(p),
{
    plan_extractor_search(locate_on_path("yt-dlp"), host_cache_root(), p)
}

/// After the caller has tested the cached copy: what to do next.
pub enum AcquireStep {
    /// The cached copy exists: use it.
    UseCached { path: String },
    /// Nothing cached: fetch the platform's release asset and write it to
    /// `destination` (setting the executable bit on POSIX hosts).
    Fetch { destination: String, asset_name: String },
}

/// Decides between the cached copy and a fresh fetch, once the caller has
/// checked whether the cache file exists.
pub fn after_cache_probe(local: String, cache_file_exists: bool, p: Platform) -> (r: AcquireStep)
    ensures
        cache_file_exists ==> (r matches AcquireStep::UseCached { path } && path == local),
        !cache_file_exists ==> (r matches AcquireStep::Fetch { destination, asset_name }
            && destination == local && asset_name@ == spec_platform_asset_name(p)),
{
    if cache_file_exists {
        AcquireStep::UseCached { path: local }
    } else {
        AcquireStep::Fetch { destination: local, asset_name: platform_asset_name(p).to_owned() }
    }
}

/// Settles a finished fetch: a successful download-and-write yields the
/// extractor at its destination; a failed network request or write is the
/// fetch-failure class of acquisition errors.
pub fn after_fetch(destination: String, fetch_succeeded: bool) -> (r: Result<
    String,
    AcquisitionError,
>)
    ensures
        fetch_succeeded ==> r == Ok::<String, AcquisitionError>(destination),
        !fetch_succeeded ==> r == Err::<String, AcquisitionError>(AcquisitionError::FetchFailed),
{
    if fetch_succeeded {
        Ok(destination)
    } else {
        Err(AcquisitionError::FetchFailed)
    }
}

/// Picks the release asset to download: the first whose name matches the
/// platform's asset name exactly; with none, acquisition fails.
pub fn choose_release_asset(names: &Vec<String>, p: Platform) -> (r: Result<usize, AcquisitionError>)
    ensures
        r matches Ok(i) ==> i < names@.len() && names@[i as int]@ == spec_platform_asset_name(p)
            && (forall|j: int| 0 <= j < i ==> names@[j]@ != spec_platform_asset_name(p)),
        r is Err <==> forall|j: int|
            0 <= j < names@.len() ==> (#[trigger] names@[j])@ != spec_platform_asset_name(p),
        r matches Err(e) ==> e == AcquisitionError::NoMatchingAsset,
{
    let wanted = platform_asset_name(p);
    let n = names.len();
    let mut i: usize = 0;
    while i < n
        invariant
            0 <= i <= n,
            n == names@.len(),
            wanted@ == spec_platform_asset_name(p),
            forall|j: int| 0 <= j < i ==> (#[trigger] names@[j])@ != spec_platform_asset_name(p),
        decreases n - i,
    {
        if crate::text::str_eq(names[i].as_str(), wanted) {
            return Ok(i);
        }
        i = i + 1;
    }
    Err(AcquisitionError::NoMatchingAsset)
}

/// Resolves the directory downloads are cached in: an environment override
/// if set (made absolute against the working directory when relative),
/// otherwise `downloads` under the extractor cache directory.
pub fn resolved_download_base_dir(env_override: Option<String>, cwd: &str) -> (r: Result<
    String,
    AcquisitionError,
>)
    ensures
        env_override matches Some(p) ==> {
            &&& is_prefix("/"@, p@) ==> (r matches Ok(d) && d == p)
            &&& !is_prefix("/"@, p@) ==> (r matches Ok(d) && d@ == cwd@ + "/"@ + p@)
        },
        env_override is None ==> {
            &&& r matches Ok(d) ==> exists|base: Seq<char>|
                d@ == base + "/lyre/yt-dlp"@ + "/"@ + "downloads"@
            &&& r matches Err(e) ==> e == AcquisitionError::NoCacheDirectory
        },
{
    match env_override {
        Some(p) => {
            if str_starts_with(p.as_str(), "/") {
                Ok(p)
            } else {
                Ok(join_path(cwd, p.as_str()))
            }
        },
        None => match extractor_cache_dir() {
            Some(dir) => Ok(join_path(dir.as_str(), "downloads")),
            None => Err(AcquisitionError::NoCacheDirectory),
        },
    }
}

} // verus!
