//! The download job's decisions: content-addressed cache naming, the
//! cache-hit check, the extractor invocation for a full download, selection
//! of the produced file, and finalization into the cache.
//!
//! A job resolves a stable content id for the URL (or a timestamp-derived
//! fallback when extraction fails), checks `{base}/{id}.mp3`, and only on a
//! miss runs the extractor inside a unique working subdirectory.

use vstd::prelude::*;

use crate::clock::now_unix_nanos;
use crate::progress::DownloadProgress;
use crate::text::{dec_of, is_suffix, str_ends_with, u64_to_dec};

verus! {

/// The fallback content id derived from a timestamp, used when id
/// extraction fails so the job can still proceed.
pub open spec fn spec_fallback_id(nanos: nat) -> Seq<char> {
    "ts-"@ + dec_of(nanos)
}

/// Renders the fallback content id for a given timestamp.
pub fn fallback_content_id(nanos: u64) -> (r: String)
    ensures
        r@ == spec_fallback_id(nanos as nat),
{
    let mut s = "ts-".to_owned();
    s.append(u64_to_dec(nanos).as_str());
    s
}

/// The content id a job runs under: the extracted id when extraction
/// succeeded, else a fresh timestamp-derived fallback.
pub fn job_content_id(extracted: Option<String>) -> (r: String)
    ensures
        extracted matches Some(id) ==> r == id,
        extracted is None ==> exists|n: nat| r@ == spec_fallback_id(n),
{
    match extracted {
        Some(id) => id,
        None => {
            let nanos: u64 = match now_unix_nanos() {
                Some(v) => v,
                None => 0,
            };
            fallback_content_id(nanos)
        },
    }
}

/// The name of a job's unique working subdirectory, derived from a
/// timestamp so concurrent jobs do not collide.
pub open spec fn spec_job_dir_name(nanos: nat) -> Seq<char> {
    "job-"@ + dec_of(nanos)
}

/// Renders the working-directory name for a given timestamp.
pub fn job_dir_name(nanos: u64) -> (r: String)
    ensures
        r@ == spec_job_dir_name(nanos as nat),
{
    let mut s = "job-".to_owned();
    s.append(u64_to_dec(nanos).as_str());
    s
}

/// A fresh working-directory name from the host clock.
pub fn fresh_job_dir_name() -> (r: String)
    ensures
        exists|n: nat| r@ == spec_job_dir_name(n),
{
    let nanos: u64 = match now_unix_nanos() {
        Some(v) => v,
        None => 0,
    };
    job_dir_name(nanos)
}

/// The cache file name of a content id.
pub fn cache_file_name(content_id: &str) -> (r: String)
    ensures
        r@ == content_id@ + ".mp3"@,
{
    let mut s = content_id.to_owned();
    s.append(".mp3");
    s
}

/// The full cache path of a content id under the download base directory.
pub fn cache_target_path(base: &str, content_id: &str) -> (r: String)
    ensures
        r@ == base@ + "/"@ + content_id@ + ".mp3"@,
{
    let mut s = base.to_owned();
    s.append("/");
    s.append(content_id);
    s.append(".mp3");
    s
}

/// How a job proceeds after the cache check.
pub enum DownloadStep {
    /// The cache already holds this content: a single 100% progress event
    /// is emitted and the job resolves to the cached file at once. No
    /// subprocess is run.
    CacheHit { path: String, event: DownloadProgress },
    /// A miss: run the extractor in a fresh working subdirectory and
    /// finalize into `target` afterwards.
    RunExtractor { target: String },
}

/// Decides a job's course once the caller has checked whether the cache
/// target exists.
pub fn plan_after_cache_check(target: String, cache_hit: bool) -> (r: DownloadStep)
    ensures
        cache_hit ==> (r matches DownloadStep::CacheHit { path, event } && path == target
            && event.percent == 100),
        !cache_hit ==> (r matches DownloadStep::RunExtractor { target: t } && t == target),
{
    if cache_hit {
        DownloadStep::CacheHit { path: target, event: DownloadProgress { percent: 100 } }
    } else {
        DownloadStep::RunExtractor { target }
    }
}

/// The output path template handed to the extractor, scoped to the job's
/// working subdirectory.
pub fn output_template(job_dir: &str) -> (r: String)
    ensures
        r@ == job_dir@ + "/%(id)s.%(ext)s"@,
{
    let mut s = job_dir.to_owned();
    s.append("/%(id)s.%(ext)s");
    s
}

/// The full download invocation: best audio, extracted to mp3 at maximum
/// quality, forced to 48 kHz stereo for the playback engine, playlist
/// expansion off, line-buffered progress, output under the job directory.
pub fn download_args(template: &str, url: &str) -> (r: Vec<String>)
    ensures
        r@.len() == 14,
        r@[0]@ == "-f"@,
        r@[1]@ == "bestaudio/best"@,
        r@[2]@ == "-x"@,
        r@[3]@ == "--audio-format"@,
        r@[4]@ == "mp3"@,
        r@[5]@ == "--audio-quality"@,
        r@[6]@ == "0"@,
        r@[7]@ == "--postprocessor-args"@,
        r@[8]@ == "ffmpeg:-ar 48000 -ac 2"@,
        r@[9]@ == "--no-playlist"@,
        r@[10]@ == "--newline"@,
        r@[11]@ == "-o"@,
        r@[12]@ == template@,
        r@[13]@ == url@,
{
    let mut args: Vec<String> = Vec::new();
    args.push("-f".to_owned());
    args.push("bestaudio/best".to_owned());
    args.push("-x".to_owned());
    args.push("--audio-format".to_owned());
    args.push("mp3".to_owned());
    args.push("--audio-quality".to_owned());
    args.push("0".to_owned());
    args.push("--postprocessor-args".to_owned());
    args.push("ffmpeg:-ar 48000 -ac 2".to_owned());
    args.push("--no-playlist".to_owned());
    args.push("--newline".to_owned());
    args.push("-o".to_owned());
    args.push(template.to_owned());
    args.push(url.to_owned());
    args
}

pub open spec fn is_mp3_name(s: Seq<char>) -> bool {
    is_suffix(".mp3"@, s)
}

/// Picks the produced file: among the `.mp3` entries of the working
/// directory, the most recently modified one, keeping the earliest on ties.
/// `names[i]` and `mtimes[i]` describe the same entry.
pub fn newest_mp3_index(names: &Vec<String>, mtimes: &Vec<i64>) -> (r: Option<usize>)
    requires
        names@.len() == mtimes@.len(),
    ensures
        r is None <==> forall|j: int| 0 <= j < names@.len() ==> !is_mp3_name((#[trigger] names@[j])@),
        r matches Some(i) ==> {
            &&& i < names@.len()
            &&& is_mp3_name(names@[i as int]@)
            &&& forall|j: int|
                0 <= j < names@.len() && is_mp3_name((#[trigger] names@[j])@) ==> mtimes@[j]
                    <= mtimes@[i as int]
            &&& forall|j: int|
                0 <= j < i && is_mp3_name((#[trigger] names@[j])@) ==> mtimes@[j]
                    < mtimes@[i as int]
        },
{
    let n = names.len();
    let mut best: Option<usize> = None;
    let mut k: usize = 0;
    while k < n
        invariant
            0 <= k <= n,
            n == names@.len(),
            n == mtimes@.len(),
            best is None ==> forall|j: int| 0 <= j < k ==> !is_mp3_name((#[trigger] names@[j])@),
            best matches Some(i) ==> {
                &&& i < k
                &&& is_mp3_name(names@[i as int]@)
                &&& forall|j: int|
                    0 <= j < k && is_mp3_name((#[trigger] names@[j])@) ==> mtimes@[j]
                        <= mtimes@[i as int]
                &&& forall|j: int|
                    0 <= j < i && is_mp3_name((#[trigger] names@[j])@) ==> mtimes@[j]
                        < mtimes@[i as int]
            },
        decreases n - k,
    {
        if str_ends_with(names[k].as_str(), ".mp3") {
            let replace = match best {
                None => true,
                Some(i) => mtimes[k] > mtimes[i],
            };
            if replace {
                best = Some(k);
            }
        }
        k = k + 1;
    }
    best
}

/// Where the produced file ended up after finalization.
pub struct Finalization {
    /// The path the job resolves to.
    pub path: String,
    /// Whether the cache target now holds the content.
    pub cache_populated: bool,
    /// Whether the produced file must still be deleted (it was copied, not
    /// moved).
    pub remove_source: bool,
}

/// Settles the produced file into the cache. The caller performs the file
/// operations in order and reports what happened: whether the target
/// appeared meanwhile (a concurrent identical job), whether an atomic move
/// succeeded, and — only after a failed move — whether a copy succeeded.
/// When all of that fails the job resolves to the file where it lies, and
/// the cache is left unpopulated.
pub fn finalize_download(
    produced: String,
    target: String,
    target_exists: bool,
    rename_succeeded: bool,
    copy_succeeded: bool,
) -> (r: Finalization)
    ensures
        target_exists || rename_succeeded ==> r.path == target && !r.remove_source,
        !target_exists && !rename_succeeded && copy_succeeded ==> r.path == target
            && r.remove_source,
        !target_exists && !rename_succeeded && !copy_succeeded ==> r.path == produced
            && !r.remove_source,
        r.cache_populated == (target_exists || rename_succeeded || copy_succeeded),
{
    if target_exists || rename_succeeded {
        Finalization { path: target, cache_populated: true, remove_source: false }
    } else if copy_succeeded {
        Finalization { path: target, cache_populated: true, remove_source: true }
    } else {
        Finalization { path: produced, cache_populated: false, remove_source: false }
    }
}

} // verus!
