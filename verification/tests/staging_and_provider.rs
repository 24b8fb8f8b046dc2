use meetily_sherpa::dll::{
    check_archive_listing, collect_step, crate_target_dir, dlls_in_dir, find_lib_dir,
    has_dll_extension, http_status_failure, is_sherpa_runtime_dll, lib_subdir, prebuilt_archive_name,
    prebuilt_archive_stem, prebuilt_archive_url, prebuilt_cache_root, prebuilt_stem_lib_dir,
    prebuilt_target_root, sherpa_dlls_in_dir, sherpa_prebuilt_lib_dir, should_stage,
    stage_failure, target_dir_from_manifest, utf8_name, workspace_target_dir, CandidateProbe,
    DirEntryInfo, DllSource, DllStep, LibDirChoice, LibProbe, PrebuiltChoice, StageFailure,
};
use meetily_sherpa::paths::{join_path, PathStyle};

const U: PathStyle = PathStyle::Unix;
const W: PathStyle = PathStyle::Windows;
use meetily_sherpa::provider::{SherpaProvider, TranscriptionError};
use std::sync::Arc;

fn file(name: &str) -> DirEntryInfo {
    DirEntryInfo { name: name.as_bytes().to_vec(), utf8_name: Some(name.to_string()), is_file: true }
}

fn raw_file(bytes: &[u8]) -> DirEntryInfo {
    DirEntryInfo { name: bytes.to_vec(), utf8_name: None, is_file: true }
}

fn ext(name: &str) -> bool {
    has_dll_extension(&name.as_bytes().to_vec())
}

#[test]
fn archive_names_and_address() {
    assert_eq!(prebuilt_archive_stem(), "sherpa-onnx-v1.13.3-win-x64-shared-MT-Release-lib");
    assert_eq!(prebuilt_archive_name(), "sherpa-onnx-v1.13.3-win-x64-shared-MT-Release-lib.tar.bz2");
    assert_eq!(
        prebuilt_archive_url(),
        "https://github.com/k2-fsa/sherpa-onnx/releases/download/v1.13.3/sherpa-onnx-v1.13.3-win-x64-shared-MT-Release-lib.tar.bz2"
    );
}

#[test]
fn dll_extension_follows_path_rules() {
    assert!(ext("onnxruntime.dll"));
    assert!(ext("Kaldi.DLL"));
    assert!(ext("a.b.Dll"));
    assert!(!ext(".dll"));
    assert!(!ext("lib.dll.bak"));
    assert!(!ext("dll"));
    assert!(!ext(".."));
    assert!(!ext("x.dl"));
    assert!(!ext("x."));
    assert!(has_dll_extension(&vec![0xff, b'.', b'd', b'L', b'l']));
}

#[test]
fn runtime_dll_names() {
    assert!(is_sherpa_runtime_dll(Some("sherpa-onnx-c-api.dll")));
    assert!(is_sherpa_runtime_dll(Some("ONNXRUNTIME.DLL")));
    assert!(is_sherpa_runtime_dll(Some("kaldi-native-fbank-core.dll")));
    assert!(is_sherpa_runtime_dll(Some("espeak-ng.dll")));
    assert!(is_sherpa_runtime_dll(Some("ssentencepiece_core.dll")));
    assert!(is_sherpa_runtime_dll(Some("ucd.dll")));
    assert!(is_sherpa_runtime_dll(Some("piper_phonemize.dll")));
    assert!(is_sherpa_runtime_dll(Some("kissfft-float.dll")));
    assert!(!is_sherpa_runtime_dll(Some("msvcp140.dll")));
    assert!(!is_sherpa_runtime_dll(Some("sherpa.lib")));
    assert!(!is_sherpa_runtime_dll(None));
}

#[test]
fn dll_listing_is_sorted_and_filtered() {
    let entries = vec![
        file("zlib.dll"),
        file("readme.txt"),
        DirEntryInfo { name: b"folder.dll".to_vec(), utf8_name: Some("folder.dll".to_string()), is_file: false },
        file("Apple.DLL"),
        file("onnxruntime.dll"),
        file("apple.dll"),
    ];
    assert_eq!(dlls_in_dir(&entries), vec![3, 5, 4, 0]);
}

#[test]
fn dll_listing_orders_raw_names_by_bytes() {
    let entries = vec![raw_file(&[0xff, b'.', b'd', b'l', b'l']), file("\u{ffff}.dll")];
    assert_eq!(dlls_in_dir(&entries), vec![1, 0]);
}

#[test]
fn runtime_listing_keeps_only_runtime_dlls() {
    let entries = vec![
        file("sherpa-onnx-c-api.dll"),
        file("msvcp140.dll"),
        file("onnxruntime.dll"),
        raw_file(&[b'f', b's', b't', 0xff, b'.', b'd', b'l', b'l']),
        file("fbank.txt"),
    ];
    assert_eq!(sherpa_dlls_in_dir(&entries), vec![2, 0]);
    assert_eq!(dlls_in_dir(&entries), vec![3, 1, 2, 0]);
    assert_eq!(utf8_name(&entries[3]), None);
    assert_eq!(utf8_name(&entries[0]), Some("sherpa-onnx-c-api.dll"));
}

#[test]
fn target_directories() {
    assert_eq!(
        workspace_target_dir(U, "/src/app/src-tauri", "x86_64-pc-windows-msvc", "release"),
        "/src/app/src-tauri/../../target/x86_64-pc-windows-msvc/release"
    );
    assert_eq!(
        crate_target_dir(U, "/src/app/src-tauri", "x86_64-pc-windows-msvc", "debug"),
        "/src/app/src-tauri/target/x86_64-pc-windows-msvc/debug"
    );
    assert_eq!(
        crate_target_dir(W, "C:\\src\\app", "t", "debug"),
        "C:\\src\\app\\target\\t\\debug"
    );
    assert_eq!(
        target_dir_from_manifest(U, "/m", "t", "release", true, true),
        Some("/m/../../target/t/release".to_string())
    );
    assert_eq!(target_dir_from_manifest(U, "/m", "t", "release", false, true), Some("/m/target/t/release".to_string()));
    assert_eq!(target_dir_from_manifest(U, "/m", "t", "release", false, false), None);
}

#[test]
fn prebuilt_cache_lookup() {
    assert_eq!(prebuilt_target_root(Some("r".to_string()), Some("d".to_string())), Some("r".to_string()));
    assert_eq!(prebuilt_target_root(None, Some("d".to_string())), Some("d".to_string()));
    assert_eq!(prebuilt_cache_root(U, "/t/release"), "/t/release/sherpa-onnx-prebuilt");
    assert_eq!(
        prebuilt_stem_lib_dir(U, "/c"),
        "/c/sherpa-onnx-v1.13.3-win-x64-shared-MT-Release-lib/lib"
    );
    assert_eq!(lib_subdir(U, "/c/x"), "/c/x/lib");
    assert!(matches!(sherpa_prebuilt_lib_dir(false, true, true, None), PrebuiltChoice::NotFound));
    assert!(matches!(sherpa_prebuilt_lib_dir(true, false, true, None), PrebuiltChoice::NotFound));
    assert!(matches!(sherpa_prebuilt_lib_dir(true, true, true, None), PrebuiltChoice::StemLib));
    assert!(matches!(sherpa_prebuilt_lib_dir(true, true, false, None), PrebuiltChoice::NotFound));
    let listing = vec![
        None,
        Some(CandidateProbe { lib_is_dir: true, has_dlls: false }),
        Some(CandidateProbe { lib_is_dir: true, has_dlls: true }),
        Some(CandidateProbe { lib_is_dir: true, has_dlls: true }),
    ];
    assert!(matches!(sherpa_prebuilt_lib_dir(true, true, false, Some(listing)), PrebuiltChoice::Entry(2)));
}

#[test]
fn archive_lib_directory_lookup() {
    assert!(matches!(find_lib_dir(true, None), LibDirChoice::Direct));
    assert!(matches!(find_lib_dir(false, None), LibDirChoice::NotFound));
    let listing = vec![
        Some(LibProbe { is_dir: false, lib_is_dir: false }),
        Some(LibProbe { is_dir: true, lib_is_dir: true }),
    ];
    assert!(matches!(find_lib_dir(false, Some(listing)), LibDirChoice::Entry(1)));
    let broken = vec![None, Some(LibProbe { is_dir: true, lib_is_dir: true })];
    assert!(matches!(find_lib_dir(false, Some(broken)), LibDirChoice::NotFound));
}

#[test]
fn dll_sources_are_tried_in_order() {
    assert!(matches!(collect_step(DllSource::EnvLibDir, None), DllStep::Try(DllSource::TargetDir)));
    let only_other = vec![file("msvcp140.dll")];
    assert!(matches!(
        collect_step(DllSource::TargetDir, Some(&only_other)),
        DllStep::Try(DllSource::PrebuiltCache)
    ));
    assert!(matches!(collect_step(DllSource::PrebuiltCache, Some(&Vec::new())), DllStep::Download));
    match collect_step(DllSource::EnvLibDir, Some(&only_other)) {
        DllStep::Use(v) => assert_eq!(v, vec![0]),
        _ => panic!("expected the listed DLL"),
    }
    let mixed = vec![file("msvcp140.dll"), file("sherpa-onnx.dll"), file("onnxruntime.dll")];
    match collect_step(DllSource::TargetDir, Some(&mixed)) {
        DllStep::Use(v) => assert_eq!(v, vec![2, 1]),
        _ => panic!("expected the runtime DLLs"),
    }
}

#[test]
fn archive_listing_checks() {
    assert_eq!(
        check_archive_listing("/tmp/a.tar.bz2", None),
        Err("no lib directory in archive /tmp/a.tar.bz2".to_string())
    );
    assert_eq!(
        check_archive_listing("/tmp/a.tar.bz2", Some(Ok(vec![file("notes.txt")]))),
        Err("archive contained no DLL files".to_string())
    );
    assert_eq!(check_archive_listing("a", Some(Err("denied".to_string()))), Err("denied".to_string()));
    assert_eq!(
        check_archive_listing("a", Some(Ok(vec![file("b.dll"), file("x.txt"), file("a.dll")]))),
        Ok(vec![2, 0])
    );
}

#[test]
fn staging_messages() {
    assert_eq!(stage_failure(StageFailure::CopyFailed, "disk full"), "copy failed: disk full");
    assert_eq!(stage_failure(StageFailure::DownloadFailed, "dns"), "download failed: dns");
    assert_eq!(stage_failure(StageFailure::UnpackFailed, "eof"), "unpack failed: eof");
    assert_eq!(stage_failure(StageFailure::InvalidDllPath, "/"), "invalid DLL path: /");
    assert_eq!(http_status_failure("404 Not Found", "https://x/y"), "HTTP 404 Not Found for https://x/y");
    assert!(should_stage("windows"));
    assert!(!should_stage("linux"));
}

#[test]
fn join_path_inserts_one_separator() {
    assert_eq!(join_path(U, "a", "b"), "a/b");
    assert_eq!(join_path(U, "a/", "b"), "a/b");
    assert_eq!(join_path(U, "", "b"), "b");
    assert_eq!(join_path(U, "a\\", "b"), "a\\/b");
}

#[test]
fn join_path_on_windows_uses_backslash() {
    assert_eq!(join_path(W, "C:\\app", "models"), "C:\\app\\models");
    assert_eq!(join_path(W, "C:\\app\\", "models"), "C:\\app\\models");
    assert_eq!(join_path(W, "C:/app/", "models"), "C:/app/models");
    assert_eq!(join_path(W, "C:", "models"), "C:models");
    assert_eq!(join_path(W, "", "models"), "models");
}

#[test]
fn provider_wraps_engine_and_trims_text() {
    let engine = Arc::new(5u8);
    let provider = SherpaProvider::new(engine.clone());
    assert!(Arc::ptr_eq(provider.engine(), &engine));
    assert_eq!(provider.provider_name(), "SherpaOnnx");
    let r = SherpaProvider::<u8>::transcript_from(Ok("  hello there \n".to_string())).unwrap();
    assert_eq!(r.text, "hello there");
    assert!(!r.is_partial);
    match SherpaProvider::<u8>::transcript_from(Err("decoder crashed".to_string())) {
        Err(TranscriptionError::EngineFailed(m)) => assert_eq!(m, "decoder crashed"),
        Ok(_) => panic!("expected a failure"),
    }
}

#[test]
fn join_path_absolute_part_replaces_base() {
    assert_eq!(join_path(U, "/src/app", "/tmp/prof"), "/tmp/prof");
    assert_eq!(
        workspace_target_dir(U, "/src/app", "x86_64-unknown-linux-gnu", "/tmp/prof"),
        "/tmp/prof"
    );
    assert_eq!(join_path(W, "C:\\app", "D:y"), "D:y");
    assert_eq!(join_path(W, "C:\\app", "\\\\server\\share"), "\\\\server\\share");
    assert_eq!(join_path(W, "C:\\app", "//server/share"), "//server/share");
}

#[test]
fn join_path_rooted_part_keeps_only_the_drive_on_windows() {
    assert_eq!(join_path(W, "C:\\app\\models", "\\tmp"), "C:\\tmp");
    assert_eq!(join_path(W, "C:", "/tmp"), "C:/tmp");
    assert_eq!(join_path(W, "relative\\dir", "\\tmp"), "\\tmp");
}
