use lyre::acquire::{
    after_cache_probe, after_fetch, choose_release_asset, extractor_cache_dir, join_path,
    local_binary_name, locate_extractor, plan_extractor_search, platform_asset_name,
    resolved_download_base_dir, AcquireStep, ExtractorSearch, Platform,
};
use lyre::download::{
    cache_file_name, cache_target_path, download_args, fallback_content_id, finalize_download,
    fresh_job_dir_name, job_content_id, job_dir_name, newest_mp3_index, output_template,
    plan_after_cache_check, DownloadStep,
};
use lyre::errors::{AcquisitionError, DownloadError, ExtractionError};
use lyre::metadata::{id_print_args, metadata_from_output, resolve_title, title_print_args};

#[test]
fn asset_names_cover_the_recognized_platforms() {
    assert_eq!(platform_asset_name(Platform::Windows64), "yt-dlp.exe");
    assert_eq!(platform_asset_name(Platform::Windows32), "yt-dlp_x86.exe");
    assert_eq!(platform_asset_name(Platform::Linux), "yt-dlp_linux");
    assert_eq!(platform_asset_name(Platform::MacOs), "yt-dlp_macos");
    assert_eq!(platform_asset_name(Platform::Other), "yt-dlp");
    assert_eq!(local_binary_name(Platform::Windows32), "yt-dlp.exe");
    assert_eq!(local_binary_name(Platform::Linux), "yt-dlp");
}

#[test]
fn release_asset_selection_takes_first_match_or_fails() {
    let names: Vec<String> = vec![
        "yt-dlp.tar.gz".to_string(),
        "yt-dlp_linux".to_string(),
        "yt-dlp_macos".to_string(),
    ];
    assert_eq!(choose_release_asset(&names, Platform::Linux), Ok(1));
    assert_eq!(choose_release_asset(&names, Platform::MacOs), Ok(2));
    assert_eq!(
        choose_release_asset(&names, Platform::Windows64),
        Err(AcquisitionError::NoMatchingAsset)
    );
}

#[test]
fn download_base_dir_honors_the_override() {
    let abs = resolved_download_base_dir(Some("/data/audio".to_string()), "/work").unwrap();
    assert_eq!(abs, "/data/audio");
    let rel = resolved_download_base_dir(Some("audio".to_string()), "/work").unwrap();
    assert_eq!(rel, "/work/audio");
}

#[test]
fn download_base_dir_falls_back_to_the_cache_root() {
    // Host-dependent: when a cache root exists the fallback lies under it.
    match resolved_download_base_dir(None, "/work") {
        Ok(d) => assert!(d.ends_with("/lyre/yt-dlp/downloads")),
        Err(e) => assert_eq!(e, AcquisitionError::NoCacheDirectory),
    }
    match extractor_cache_dir() {
        Some(d) => assert!(d.ends_with("/lyre/yt-dlp")),
        None => {},
    }
}

#[test]
fn extractor_search_runs_the_probe_order() {
    // Host-dependent outcome, but the cache candidate always carries the
    // platform's local binary name.
    match locate_extractor(Platform::Linux) {
        ExtractorSearch::OnPath { path } => assert!(!path.is_empty()),
        ExtractorSearch::CacheCandidate { local } => {
            assert!(local.ends_with("/lyre/yt-dlp/yt-dlp"))
        },
        ExtractorSearch::NoCacheDir => {},
    }
}

#[test]
fn extractor_search_order_is_path_then_cache_then_failure() {
    // A binary on the search path wins, whatever the cache root says.
    match plan_extractor_search(
        Some("/usr/bin/yt-dlp".to_string()),
        Some("/home/u/.cache".to_string()),
        Platform::Linux,
    ) {
        ExtractorSearch::OnPath { path } => assert_eq!(path, "/usr/bin/yt-dlp"),
        _ => panic!("the system path is probed first"),
    }
    // Off the path, a resolvable cache root names the candidate file.
    match plan_extractor_search(None, Some("/home/u/.cache".to_string()), Platform::Linux) {
        ExtractorSearch::CacheCandidate { local } => {
            assert_eq!(local, "/home/u/.cache/lyre/yt-dlp/yt-dlp")
        },
        _ => panic!("the cache candidate comes second"),
    }
    match plan_extractor_search(None, Some("/c".to_string()), Platform::Windows32) {
        ExtractorSearch::CacheCandidate { local } => {
            assert_eq!(local, "/c/lyre/yt-dlp/yt-dlp.exe")
        },
        _ => panic!("the cache candidate comes second"),
    }
    // With neither probe answering, acquisition fails for want of a cache dir.
    assert!(matches!(
        plan_extractor_search(None, None, Platform::Linux),
        ExtractorSearch::NoCacheDir
    ));
}

#[test]
fn fetch_failures_surface_as_the_acquisition_error() {
    assert_eq!(after_fetch("/c/yt-dlp".to_string(), true), Ok("/c/yt-dlp".to_string()));
    assert_eq!(
        after_fetch("/c/yt-dlp".to_string(), false),
        Err(AcquisitionError::FetchFailed)
    );
    assert_eq!(
        AcquisitionError::FetchFailed.message(),
        "failed to fetch the extractor release"
    );
}

#[test]
fn cache_probe_decides_between_cached_copy_and_fetch() {
    match after_cache_probe("/c/yt-dlp".to_string(), true, Platform::Linux) {
        AcquireStep::UseCached { path } => assert_eq!(path, "/c/yt-dlp"),
        _ => panic!("a cached copy is used as it is"),
    }
    match after_cache_probe("/c/yt-dlp".to_string(), false, Platform::Linux) {
        AcquireStep::Fetch { destination, asset_name } => {
            assert_eq!(destination, "/c/yt-dlp");
            assert_eq!(asset_name, "yt-dlp_linux");
        },
        _ => panic!("a missing copy is fetched"),
    }
}

#[test]
fn cache_hit_resolves_at_once_with_a_full_progress_event() {
    let target = cache_target_path("/cache", "abc123");
    assert_eq!(target, "/cache/abc123.mp3");
    match plan_after_cache_check(target.clone(), true) {
        DownloadStep::CacheHit { path, event } => {
            assert_eq!(path, "/cache/abc123.mp3");
            assert_eq!(event.percent, 100);
        },
        DownloadStep::RunExtractor { .. } => panic!("a hit must not spawn the extractor"),
    }
    match plan_after_cache_check(target, false) {
        DownloadStep::RunExtractor { target } => assert_eq!(target, "/cache/abc123.mp3"),
        DownloadStep::CacheHit { .. } => panic!("a miss runs the extractor"),
    }
}

#[test]
fn content_ids_and_job_names() {
    assert_eq!(fallback_content_id(123456), "ts-123456");
    assert_eq!(job_dir_name(7), "job-7");
    assert_eq!(cache_file_name("vid9"), "vid9.mp3");
    assert_eq!(job_content_id(Some("realid".to_string())), "realid");
    assert!(job_content_id(None).starts_with("ts-"));
    assert!(fresh_job_dir_name().starts_with("job-"));
}

#[test]
fn extractor_invocations_carry_the_documented_flags() {
    let id_args = id_print_args("URL");
    assert_eq!(id_args, vec!["--print", "id", "--skip-download", "-q", "URL"]);
    let title_args = title_print_args("URL");
    assert_eq!(title_args, vec!["--print", "title", "--skip-download", "-q", "URL"]);
    let tpl = output_template("/base/job-1");
    assert_eq!(tpl, "/base/job-1/%(id)s.%(ext)s");
    let args = download_args(&tpl, "URL");
    assert_eq!(
        args,
        vec![
            "-f",
            "bestaudio/best",
            "-x",
            "--audio-format",
            "mp3",
            "--audio-quality",
            "0",
            "--postprocessor-args",
            "ffmpeg:-ar 48000 -ac 2",
            "--no-playlist",
            "--newline",
            "-o",
            "/base/job-1/%(id)s.%(ext)s",
            "URL",
        ]
    );
}

#[test]
fn metadata_output_is_trimmed_and_checked() {
    assert_eq!(metadata_from_output(false, "whatever"), Err(ExtractionError::ProcessFailed));
    assert_eq!(metadata_from_output(true, "  \n\t"), Err(ExtractionError::EmptyOutput));
    assert_eq!(metadata_from_output(true, "  dQw4w9WgXcQ\n"), Ok("dQw4w9WgXcQ".to_string()));
}

#[test]
fn titles_prefer_the_cache_then_extraction_then_the_placeholder() {
    assert_eq!(
        resolve_title(Some("Cached".to_string()), Some("Extracted".to_string())),
        "Cached"
    );
    assert_eq!(resolve_title(None, Some("Extracted".to_string())), "Extracted");
    assert_eq!(resolve_title(None, None), "Unknown");
}

#[test]
fn newest_mp3_wins_and_ties_keep_the_earliest() {
    let names: Vec<String> = vec![
        "a.part".to_string(),
        "a.mp3".to_string(),
        "b.mp3".to_string(),
        "c.mp3".to_string(),
    ];
    let mtimes: Vec<i64> = vec![99, 10, 30, 30];
    assert_eq!(newest_mp3_index(&names, &mtimes), Some(2));
    let none: Vec<String> = vec!["a.txt".to_string()];
    assert_eq!(newest_mp3_index(&none, &vec![5]), None);
    assert_eq!(DownloadError::NoOutput.message(), "no mp3 produced");
}

#[test]
fn finalization_prefers_the_cache_and_degrades_gracefully() {
    let f = finalize_download("/j/x.mp3".to_string(), "/c/id.mp3".to_string(), true, false, false);
    assert_eq!(f.path, "/c/id.mp3");
    assert!(f.cache_populated);
    assert!(!f.remove_source);

    let f = finalize_download("/j/x.mp3".to_string(), "/c/id.mp3".to_string(), false, true, false);
    assert_eq!(f.path, "/c/id.mp3");
    assert!(f.cache_populated && !f.remove_source);

    let f = finalize_download("/j/x.mp3".to_string(), "/c/id.mp3".to_string(), false, false, true);
    assert_eq!(f.path, "/c/id.mp3");
    assert!(f.cache_populated && f.remove_source);

    let f = finalize_download("/j/x.mp3".to_string(), "/c/id.mp3".to_string(), false, false, false);
    assert_eq!(f.path, "/j/x.mp3");
    assert!(!f.cache_populated && !f.remove_source);
}

#[test]
fn join_path_inserts_one_separator() {
    assert_eq!(join_path("/a", "b"), "/a/b");
}
