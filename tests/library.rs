use compliant::cli::{parse_repo_list, sort_strings, Format, RepoListResult};
use compliant::compliance::{get_build_variants, process_repository_snapshot};
use compliant::error::CompliantError;
use compliant::fetch::{
    contains_str, delegated_download_args, delegated_outcome, next_download_action,
    summarize_batch, AttemptOutcome, BatchSummary, DownloadAction, DownloadState, FetchPolicy,
};
use compliant::layout::{
    build_dir_path, file_name, folder_name, get_repo_id_from_path, get_repo_path,
    has_build_variants, is_shared_object, join, needs_sync, ref_file_path, repo_id_from_name,
    resolve, select_shared_objects, snapshot_dir_path, NotReady,
};
use compliant::matrix::{
    dedup_strings, get_build_status_summary, partition_presence, ArchVariants, CompliantMatrix,
};
use compliant::process::{
    next_step, probe_event, stop_error, Event, Phase, RepoErrorResponse, Step, StopReason,
};
use compliant::report::{
    check_abi_for_repository, check_shared_object, check_variant, ObjectCheck, VariantScan,
};
use compliant::text::{decimal_string, parse_usize, split_on, text_le_exec};
use compliant::variant::Variant;
use compliant::version::{Version, VersionError};

fn strings(items: &[&str]) -> Vec<String> {
    items.iter().map(|s| s.to_string()).collect()
}

fn passing() -> ObjectCheck {
    ObjectCheck { manylinux_violations: Vec::new(), python_abi_violations: Vec::new() }
}

fn failing() -> ObjectCheck {
    ObjectCheck {
        manylinux_violations: strings(&["memcpy@GLIBC_2.34"]),
        python_abi_violations: Vec::new(),
    }
}

fn scan(name: &str, objects: Vec<ObjectCheck>) -> VariantScan {
    VariantScan { name: name.to_string(), objects }
}

#[test]
fn variant_name_parses_and_reserializes() {
    let v = Variant::from_name("torch26-cxx11-cu124-x86_64-linux").unwrap();
    assert_eq!(v.torch_version, "torch26");
    assert_eq!(v.cxx_abi, "cxx11");
    assert_eq!(v.compute_framework, "cu124");
    assert_eq!(v.arch, "x86_64");
    assert_eq!(v.os, "linux");
    assert_eq!(v.to_string(), "torch26-cxx11-cu124-x86_64-linux");
}

#[test]
fn variant_format_parse_format_round_trip() {
    let v = Variant {
        torch_version: "torch27".to_string(),
        cxx_abi: "cxx98".to_string(),
        compute_framework: "rocm63".to_string(),
        arch: "aarch64".to_string(),
        os: "darwin".to_string(),
    };
    let name = v.to_string();
    let again = Variant::from_name(&name).unwrap();
    assert_eq!(again.to_string(), name);
}

#[test]
fn variant_extra_fields_are_ignored() {
    let v = Variant::from_name("torch26-cxx11-cu124-x86_64-linux-extra").unwrap();
    assert_eq!(v.os, "linux");
    assert_eq!(v.to_string(), "torch26-cxx11-cu124-x86_64-linux");
}

#[test]
fn variant_with_too_few_fields_is_not_a_variant() {
    assert!(Variant::from_name("torch26-cxx11-cu124-x86_64").is_none());
    assert!(Variant::from_name("").is_none());
    assert!(Variant::from_name("universal").is_none());
}

#[test]
fn variant_with_empty_fields_parses() {
    let v = Variant::from_name("----").unwrap();
    assert_eq!(v.torch_version, "");
    assert_eq!(v.to_string(), "----");
}

#[test]
fn folder_name_replaces_slashes() {
    assert_eq!(folder_name("org/name"), "models--org--name");
    assert_eq!(folder_name("plain"), "models--plain");
}

#[test]
fn folder_name_inverse_on_concrete_id() {
    let folder = folder_name("kernels-community/activation");
    assert_eq!(folder, "models--kernels-community--activation");
    assert_eq!(get_repo_id_from_path(&folder).unwrap(), "kernels-community/activation");
    let path = format!("/home/user/.cache/huggingface/hub/{}", folder);
    assert_eq!(get_repo_id_from_path(&path).unwrap(), "kernels-community/activation");
}

#[test]
fn folder_name_inverse_fails_on_boundary_dash() {
    let folder = folder_name("org-/name");
    assert_eq!(get_repo_id_from_path(&folder).unwrap(), "org/-name");
}

#[test]
fn repo_id_without_prefix_still_maps_dashes() {
    assert_eq!(repo_id_from_name("datasets--org--name"), "datasets/org/name");
    assert_eq!(repo_id_from_name("models---x"), "-x");
    assert_eq!(repo_id_from_name("a---b"), "a/-b");
}

#[test]
fn repo_id_from_path_uses_final_component() {
    assert_eq!(get_repo_id_from_path("cache/models--a--b/").unwrap(), "a/b");
    assert_eq!(get_repo_id_from_path("cache/models--a--b/.").unwrap(), "a/b");
    assert!(matches!(
        get_repo_id_from_path("cache/.."),
        Err(CompliantError::Other(m)) if m == "Invalid path: cache/.."
    ));
    assert!(matches!(get_repo_id_from_path("/"), Err(CompliantError::Other(_))));
    assert!(matches!(get_repo_id_from_path(""), Err(CompliantError::Other(_))));
}

#[test]
fn file_name_follows_path_rules() {
    assert_eq!(file_name("a/b/c.so"), Some("c.so".to_string()));
    assert_eq!(file_name("a//b//"), Some("b".to_string()));
    assert_eq!(file_name("."), None);
    assert_eq!(file_name("./"), None);
    assert_eq!(file_name("a/.."), None);
    assert_eq!(file_name("..."), Some("...".to_string()));
}

#[test]
fn paths_are_joined_like_path_join() {
    assert_eq!(join("a", "b"), "a/b");
    assert_eq!(join("a/", "b"), "a/b");
    assert_eq!(join("", "b"), "b");
    assert_eq!(join("a", "/b"), "/b");
    assert_eq!(get_repo_path("org/name", "/cache"), "/cache/models--org--name");
    assert_eq!(ref_file_path("/r", "main"), "/r/refs/main");
    assert_eq!(build_dir_path("/r/snapshots/abc"), "/r/snapshots/abc/build");
}

#[test]
fn ref_contents_are_trimmed_into_snapshot_path() {
    assert_eq!(snapshot_dir_path("/r", "abc123\n"), "/r/snapshots/abc123");
    assert_eq!(snapshot_dir_path("/r", "  abc123  "), "/r/snapshots/abc123");
}

#[test]
fn missing_snapshot_is_not_found_without_fetch_when_auto_fetch_is_off() {
    let entry = resolve("/r/models--org--name", "main", Some("abc123\n"), false, false);
    assert!(matches!(entry, Err(NotReady::SnapshotMissing)));
    assert!(needs_sync(&entry, false));
    let (phase, step) = next_step(Phase::Unresolved, false, probe_event(&entry));
    assert_eq!(phase, Phase::Stopped(StopReason::NotFound));
    assert_eq!(step, Step::Stop(StopReason::NotFound));
    let response = RepoErrorResponse::for_stop("org/name", StopReason::NotFound, "");
    assert_eq!(response.status, "not_found");
    assert_eq!(response.repository, "org/name");
    assert_eq!(response.error, "repository not found locally");
    assert!(matches!(
        stop_error("org/name", StopReason::NotFound, ""),
        CompliantError::RepositoryNotFound(m) if m == "org/name"
    ));
}

#[test]
fn snapshot_without_build_dir_is_build_dir_not_found() {
    let entry = resolve("/r/models--org--name", "main", Some("abc123\n"), true, false);
    assert!(matches!(entry, Err(NotReady::BuildMissing)));
    let (phase, step) = next_step(Phase::Unresolved, false, probe_event(&entry));
    assert_eq!(phase, Phase::Stopped(StopReason::BuildDirMissing));
    assert_eq!(step, Step::Stop(StopReason::BuildDirMissing));
    let (_, step) = next_step(Phase::Unresolved, true, probe_event(&entry));
    assert_eq!(step, Step::Fetch);
    let (_, step) = next_step(Phase::Reprobing, true, probe_event(&entry));
    assert_eq!(step, Step::Stop(StopReason::BuildDirMissing));
    assert!(matches!(
        stop_error("org/name", StopReason::BuildDirMissing, ""),
        CompliantError::BuildDirNotFound(m) if m == "org/name"
    ));
    let response = RepoErrorResponse::for_stop("org/name", StopReason::BuildDirMissing, "");
    assert_eq!(response.status, "missing_build_dir");
}

#[test]
fn resolve_reports_each_missing_link() {
    assert!(matches!(resolve("/r", "main", None, true, true), Err(NotReady::RefMissing)));
    assert!(matches!(
        resolve("/r", "main", Some("abc"), false, true),
        Err(NotReady::SnapshotMissing)
    ));
    let e = resolve("/r", "main", Some("abc\n"), true, true).unwrap();
    assert_eq!(e.ref_path, "/r/refs/main");
    assert_eq!(e.resolved_hash, "abc");
    assert_eq!(e.snapshot_dir, "/r/snapshots/abc");
    assert_eq!(e.build_dir, "/r/snapshots/abc/build");
    let ok = Ok(e);
    assert!(!needs_sync(&ok, false));
    assert!(needs_sync(&ok, true));
    assert!(has_build_variants(&ok, &strings(&["torch26-cxx11-cu124-x86_64-linux"])));
    assert!(!has_build_variants(&ok, &Vec::new()));
}

#[test]
fn process_flow_fetches_then_reprobes() {
    assert_eq!(
        next_step(Phase::Unresolved, true, Event::Probed { missing: Some(NotReady::RefMissing) }),
        (Phase::Syncing, Step::Fetch)
    );
    assert_eq!(
        next_step(Phase::Syncing, true, Event::Synced { ok: true }),
        (Phase::Reprobing, Step::Probe)
    );
    assert_eq!(
        next_step(Phase::Reprobing, true, Event::Probed { missing: None }),
        (Phase::Resolved, Step::Scan)
    );
    assert_eq!(
        next_step(Phase::Reprobing, true, Event::Probed { missing: Some(NotReady::SnapshotMissing) }),
        (Phase::Stopped(StopReason::NotFound), Step::Stop(StopReason::NotFound))
    );
    assert_eq!(
        next_step(Phase::Syncing, true, Event::Synced { ok: false }),
        (Phase::Stopped(StopReason::FetchFailed), Step::Stop(StopReason::FetchFailed))
    );
    assert_eq!(
        next_step(Phase::Unresolved, true, Event::Probed { missing: None }),
        (Phase::Resolved, Step::Scan)
    );
    let r = RepoErrorResponse::for_stop("o/n", StopReason::FetchFailed, "boom");
    assert_eq!(r.status, "fetch_failed");
    assert_eq!(r.error, "boom");
    assert!(matches!(
        stop_error("o/n", StopReason::FetchFailed, "boom"),
        CompliantError::FetchError(m) if m == "boom"
    ));
    assert_eq!(RepoErrorResponse::missing_build_dir("o/n").status, "missing_build_dir");
}

#[test]
fn missing_build_directory_is_build_dir_not_found() {
    let matrix = CompliantMatrix { cuda: Vec::new(), rocm: Vec::new(), rocm_enabled: false };
    let version = Version { major: 3, minor: 9, patch: 0 };
    let r = process_repository_snapshot("org/name", false, &Vec::new(), &matrix, "manylinux_2_28", version, false);
    assert!(matches!(r, Err(CompliantError::BuildDirNotFound(m)) if m == "org/name"));
}

#[test]
fn empty_variant_is_vacuously_compatible() {
    let v = check_variant(&scan("torch26-cxx11-cu124-x86_64-linux", Vec::new()), true);
    assert!(v.is_compatible);
    assert!(!v.has_shared_objects);
    assert!(v.violations.is_empty());
}

#[test]
fn failing_object_makes_variant_incompatible_even_without_detail() {
    let s = scan("v", vec![passing(), failing()]);
    let quiet = check_variant(&s, false);
    assert!(!quiet.is_compatible);
    assert!(quiet.has_shared_objects);
    assert!(quiet.violations.is_empty());
    let loud = check_variant(&s, true);
    assert!(!loud.is_compatible);
    assert_eq!(loud.violations.len(), 1);
    assert_eq!(
        loud.violations[0].message,
        "\n  manylinux violations:\n    - memcpy@GLIBC_2.34\n"
    );
}

#[test]
fn shared_object_report_lists_both_policies() {
    let c = ObjectCheck {
        manylinux_violations: strings(&["a", "b"]),
        python_abi_violations: strings(&["PyFoo"]),
    };
    let (passed, text) = check_shared_object(&c, true);
    assert!(!passed);
    assert_eq!(
        text,
        "\n  manylinux violations:\n    - a\n    - b\n\n  python abi violations:\n    - PyFoo\n"
    );
    let (passed, text) = check_shared_object(&c, false);
    assert!(!passed);
    assert_eq!(text, "");
    let (passed, text) = check_shared_object(&passing(), true);
    assert!(passed);
    assert_eq!(text, "");
}

#[test]
fn overall_compatibility_is_conjunction() {
    let version = Version { major: 3, minor: 9, patch: 0 };
    let good = check_abi_for_repository(
        &vec![scan("a", vec![passing()]), scan("b", Vec::new())],
        "manylinux_2_28",
        version,
        false,
    );
    assert!(good.overall_compatible);
    assert_eq!(good.variants.len(), 2);
    assert_eq!(good.manylinux_version, "manylinux_2_28");
    let bad = check_abi_for_repository(
        &vec![scan("a", vec![passing()]), scan("b", vec![failing()])],
        "manylinux_2_28",
        version,
        false,
    );
    assert!(!bad.overall_compatible);
    assert!(bad.variants[0].is_compatible);
    assert!(!bad.variants[1].is_compatible);
}

#[test]
fn matrix_compatibility_is_a_superset_check() {
    let required = strings(&["a", "b", "c"]);
    let (ok, present, missing) = partition_presence(&required, &strings(&["a", "b"]));
    assert!(!ok);
    assert_eq!(present, strings(&["a", "b"]));
    assert_eq!(missing, strings(&["c"]));
    let (ok, present, missing) = partition_presence(&required, &strings(&["a", "b", "c", "d"]));
    assert!(ok);
    assert_eq!(present, strings(&["a", "b", "c"]));
    assert!(missing.is_empty());
    let (ok, _, _) = partition_presence(&Vec::new(), &Vec::new());
    assert!(ok);
}

#[test]
fn matrix_from_manifest_flattens_and_dedups() {
    let arches = vec![
        ArchVariants { cuda: strings(&["x", "y"]), rocm: strings(&["r1"]) },
        ArchVariants { cuda: strings(&["y", "z"]), rocm: strings(&["r1", "r2"]) },
    ];
    let m = CompliantMatrix::from_manifest(&arches, false);
    assert_eq!(m.cuda, strings(&["x", "y", "z"]));
    assert!(m.rocm.is_empty());
    assert!(m.rocm_status(&Vec::new()).is_none());
    let m = CompliantMatrix::from_manifest(&arches, true);
    assert_eq!(m.rocm, strings(&["r1", "r2"]));
    let s = m.rocm_status(&strings(&["r2"])).unwrap();
    assert!(!s.compatible);
    assert_eq!(s.missing, strings(&["r1"]));
    let c = m.cuda_status(&strings(&["x", "y", "z"]));
    assert!(c.compatible);
    assert_eq!(dedup_strings(&strings(&["a", "a", "b", "a"])), strings(&["a", "b"]));
}

#[test]
fn build_status_summary_counts() {
    let dirs = strings(&["v1", "v2", "v3"]);
    let variants = strings(&["v1", "v2", "v3"]);
    let cuda = strings(&["v1", "v3", "v9"]);
    let rocm = strings(&["v2"]);
    assert_eq!(get_build_status_summary(&dirs, &variants, &cuda, &rocm, false), "Total: 3 (CUDA: 2)");
    assert_eq!(
        get_build_status_summary(&dirs, &variants, &cuda, &rocm, true),
        "Total: 3 (CUDA: 2, ROCM: 1)"
    );
    assert_eq!(
        get_build_status_summary(&dirs, &Vec::new(), &cuda, &rocm, false),
        "Total: 0 (CUDA: 0)"
    );
}

#[test]
fn build_status_summary_skips_names_without_directory() {
    let dirs = strings(&["a-b-c-d-e-extra", "v1"]);
    let variants = strings(&["a-b-c-d-e", "v1"]);
    let cuda = strings(&["a-b-c-d-e", "v1"]);
    assert_eq!(get_build_status_summary(&dirs, &variants, &cuda, &Vec::new(), false), "Total: 1 (CUDA: 1)");
}

#[test]
fn snapshot_result_reconciles_matrix_and_abi() {
    let matrix = CompliantMatrix {
        cuda: strings(&["torch26-cxx11-cu124-x86_64-linux", "torch26-cxx11-cu126-x86_64-linux"]),
        rocm: Vec::new(),
        rocm_enabled: false,
    };
    let scans = vec![
        scan("torch26-cxx11-cu124-x86_64-linux", vec![passing()]),
        scan("notavariant", Vec::new()),
    ];
    let version = Version { major: 3, minor: 9, patch: 0 };
    let r = process_repository_snapshot("o/n", true, &scans, &matrix, "manylinux_2_28", version, true)
        .unwrap();
    assert_eq!(r.repository, "o/n");
    assert_eq!(r.status, "success");
    assert_eq!(r.build_status.summary, "Total: 1 (CUDA: 1)");
    assert!(!r.build_status.cuda.compatible);
    assert_eq!(r.build_status.cuda.missing, strings(&["torch26-cxx11-cu126-x86_64-linux"]));
    assert!(r.build_status.rocm.is_none());
    assert!(r.abi_status.compatible);
    assert_eq!(r.abi_status.python_abi_version, "3.9.0");
    assert_eq!(r.abi_status.variants.len(), 2);
    assert!(!r.abi_status.variants[1].has_shared_objects);
}

#[test]
fn build_variants_skip_unparseable_names() {
    let names = strings(&["torch26-cxx11-cu124-x86_64-linux-x", "bad", "a-b-c-d-e"]);
    assert_eq!(
        get_build_variants(&names),
        strings(&["torch26-cxx11-cu124-x86_64-linux", "a-b-c-d-e"])
    );
}

#[test]
fn partial_failure_is_tolerated() {
    let r = summarize_batch(&vec![true, true, false, true, true], "org/name").unwrap();
    assert_eq!(r, BatchSummary { succeeded: 4, failed: 1 });
}

#[test]
fn all_failed_downloads_are_fatal() {
    let r = summarize_batch(&vec![false, false, false], "org/name");
    assert!(matches!(
        r,
        Err(CompliantError::FetchError(m)) if m == "All 3 downloads failed for repository org/name"
    ));
    assert_eq!(summarize_batch(&Vec::new(), "o/n").unwrap(), BatchSummary { succeeded: 0, failed: 0 });
}

#[test]
fn retries_back_off_exponentially() {
    let policy = FetchPolicy::standard();
    let s0 = DownloadState::start(&policy);
    let (s1, a1) = next_download_action(&policy, s0, "build/x.so", AttemptOutcome::OtherFailure);
    assert_eq!(a1, DownloadAction::Retry { delay_ms: 1000 });
    let (s2, a2) = next_download_action(&policy, s1, "build/x.so", AttemptOutcome::RequestFailed);
    assert_eq!(a2, DownloadAction::Retry { delay_ms: 2000 });
    let (_, a3) = next_download_action(&policy, s2, "build/x.so", AttemptOutcome::OtherFailure);
    assert_eq!(a3, DownloadAction::Fail);
    let (_, ok) = next_download_action(&policy, s2, "build/x.so", AttemptOutcome::Downloaded);
    assert_eq!(ok, DownloadAction::Succeed { pause_ms: 500 });
}

#[test]
fn init_marker_request_failure_is_success() {
    let policy = FetchPolicy::standard();
    let s0 = DownloadState::start(&policy);
    let (_, a) = next_download_action(&policy, s0, "torch-ext/pkg/__init__.py", AttemptOutcome::RequestFailed);
    assert_eq!(a, DownloadAction::Succeed { pause_ms: 0 });
    let (_, b) = next_download_action(&policy, s0, "torch-ext/pkg/__init__.py", AttemptOutcome::OtherFailure);
    assert_eq!(b, DownloadAction::Retry { delay_ms: 1000 });
    assert!(contains_str("abc", "bc"));
    assert!(!contains_str("abc", "abcd"));
    assert!(contains_str("abc", ""));
}

#[test]
fn delegated_tool_arguments_and_outcome() {
    assert_eq!(
        delegated_download_args("o/n", "main", true),
        strings(&["download", "o/n", "--revision", "main", "--force"])
    );
    assert_eq!(delegated_download_args("o/n", "v1", false).len(), 4);
    assert!(delegated_outcome(true, "o/n", "").is_ok());
    assert!(matches!(
        delegated_outcome(false, "o/n", "denied\n"),
        Err(CompliantError::FetchError(m)) if m == "Failed to download repository o/n: denied\n"
    ));
}

#[test]
fn shared_objects_are_selected_by_extension() {
    assert!(is_shared_object("a/b/libk.so"));
    assert!(is_shared_object("a/b.so/"));
    assert!(!is_shared_object("a/.so"));
    assert!(!is_shared_object("a/lib.so.1"));
    assert!(!is_shared_object("a/so"));
    let files = strings(&["v/x.so", "v/__init__.py", "v/sub/y.so", "v/z.sox"]);
    assert_eq!(select_shared_objects(&files), strings(&["v/x.so", "v/sub/y.so"]));
}

#[test]
fn versions_parse_and_print() {
    assert_eq!(Version::from_str("3.9"), Ok(Version { major: 3, minor: 9, patch: 0 }));
    assert_eq!(Version::from_str(" 3.10.2\n"), Ok(Version { major: 3, minor: 10, patch: 2 }));
    assert_eq!(Version::from_str("3"), Ok(Version { major: 3, minor: 0, patch: 0 }));
    assert_eq!(Version::from_str("+3.1"), Ok(Version { major: 3, minor: 1, patch: 0 }));
    assert_eq!(Version::from_str("   "), Err(VersionError::Empty));
    assert_eq!(Version::from_str("x.1"), Err(VersionError::InvalidMajor));
    assert_eq!(Version::from_str("3.x"), Err(VersionError::InvalidMinor));
    assert_eq!(Version::from_str("3.1."), Err(VersionError::InvalidPatch));
    assert_eq!(Version::from_str("1.2.3.4"), Err(VersionError::TooManyComponents));
    assert_eq!(Version::from_str("1.x.3.4"), Err(VersionError::InvalidMinor));
    assert_eq!(Version { major: 3, minor: 9, patch: 0 }.to_string(), "3.9.0");
}

#[test]
fn decimal_parsing_and_printing() {
    assert_eq!(parse_usize("0"), Some(0));
    assert_eq!(parse_usize("18446744073709551615"), Some(usize::MAX));
    assert_eq!(parse_usize("18446744073709551616"), None);
    assert_eq!(parse_usize("+"), None);
    assert_eq!(parse_usize("-1"), None);
    assert_eq!(parse_usize(""), None);
    assert_eq!(decimal_string(0), "0");
    assert_eq!(decimal_string(1234), "1234");
    assert_eq!(split_on("a..b", '.'), strings(&["a", "", "b"]));
}

#[test]
fn repo_list_is_trimmed_and_filtered() {
    assert_eq!(parse_repo_list(" a/b, ,c/d ,"), strings(&["a/b", "c/d"]));
    assert!(parse_repo_list("").is_empty());
    let l = RepoListResult::new(strings(&["c/d", "a/b"]));
    assert_eq!(l.count, 2);
    assert_eq!(l.repositories, strings(&["a/b", "c/d"]));
    assert!(Format::Json.is_json());
    assert!(!Format::Console.is_json());
}

#[test]
fn error_text_has_heading() {
    assert_eq!(
        CompliantError::BuildDirNotFound("o/n".to_string()).to_string(),
        "Build directory not found in repository: o/n"
    );
    assert_eq!(CompliantError::Other("x".to_string()).to_string(), "Unknown error: x");
}

#[test]
fn repository_listing_is_sorted() {
    let l = RepoListResult::new(strings(&["b/x", "a/z", "a/y", "a/y"]));
    assert_eq!(l.repositories, strings(&["a/y", "a/y", "a/z", "b/x"]));
    assert_eq!(l.count, 4);
    assert_eq!(sort_strings(Vec::new()), Vec::<String>::new());
    assert_eq!(sort_strings(strings(&["ab", "a", "B", ""])), strings(&["", "B", "a", "ab"]));
    assert!(text_le_exec("a", "ab"));
    assert!(!text_le_exec("ab", "a"));
    assert!(text_le_exec("same", "same"));
}

#[test]
fn trimmed_version_text_is_parsed_as_is() {
    assert_eq!(Version::parse_text("3.11"), Ok(Version { major: 3, minor: 11, patch: 0 }));
    assert_eq!(Version::parse_text(" 3"), Err(VersionError::InvalidMajor));
    assert_eq!(Version::parse_text(""), Err(VersionError::Empty));
}

#[test]
fn snapshot_summary_counts_only_variant_directories() {
    let matrix = CompliantMatrix {
        cuda: strings(&["torch26-cxx11-cu124-x86_64-linux"]),
        rocm: Vec::new(),
        rocm_enabled: false,
    };
    let scans = vec![scan("torch26-cxx11-cu124-x86_64-linux-extra", Vec::new())];
    let version = Version { major: 3, minor: 9, patch: 0 };
    let r = process_repository_snapshot("o/n", true, &scans, &matrix, "manylinux_2_28", version, false)
        .unwrap();
    assert_eq!(r.build_status.summary, "Total: 0 (CUDA: 0)");
    assert!(r.build_status.cuda.compatible);
}

#[test]
fn fetch_policy_limits_concurrency() {
    let p = FetchPolicy::standard();
    assert_eq!(p.max_concurrent, 10);
    assert_eq!(p.max_retries, 2);
}

#[test]
fn folder_name_inverse_with_dash_leading_name() {
    let folder = folder_name("org/-name");
    assert_eq!(get_repo_id_from_path(&folder).unwrap(), "org/-name");
}
