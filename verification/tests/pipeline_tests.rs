use std::io::Write;

use noraneko_winupdater::assets::Asset;
use noraneko_winupdater::assets::Release;
use noraneko_winupdater::config::Config;
use noraneko_winupdater::errors::UpdateError;
use noraneko_winupdater::updater::Options;
use noraneko_winupdater::updater::PipelineAction;
use noraneko_winupdater::updater::PipelineEvent;
use noraneko_winupdater::updater::PipelineState;
use noraneko_winupdater::updater::UpdateOutcome;
use noraneko_winupdater::updater::Updater;

fn temp_config() -> Config {
    Config {
        path: String::new(),
        work_dir: String::from("C:\\Work"),
        update_self: true,
        ignore_crl_errors: false,
        branch: String::from("nightly"),
        exe_dir: String::from("C:\\Updater"),
        config_file: String::from("C:\\Updater\\Noraneko-WinUpdater.ini"),
        portable_marker: false,
    }
}

fn opts(portable: bool, check_only: bool) -> Options {
    Options {
        scheduled: false,
        portable,
        check_only,
        create_task: false,
        remove_task: false,
        version: String::from("1.0.0"),
    }
}

fn release_with_zip(tag: &str) -> Release {
    Release {
        tag_name: String::from(tag),
        assets: vec![Asset {
            name: String::from("noraneko-windows-x86_64-portable.zip"),
            browser_download_url: String::from("https://example.com/win.zip"),
        }],
    }
}

#[test]
fn test_check_only_stops_before_download() {
    let updater = Updater::new(temp_config(), opts(false, true));
    let state = PipelineState::FetchingRelease { current: String::from("1.2.3") };
    let event = PipelineEvent::ReleaseFetched { result: Ok(release_with_zip("v1.2.4")) };
    let (next, action) = updater.step(state, event);
    match next {
        PipelineState::Done { outcome: UpdateOutcome::CheckOnlyStop { current, latest } } => {
            assert_eq!(current, "1.2.3");
            assert_eq!(latest, "1.2.4");
        },
        _ => panic!("expected a check-only stop"),
    }
    assert!(matches!(action, PipelineAction::Stop));
}

#[test]
fn test_no_update_available() {
    let updater = Updater::new(temp_config(), opts(false, false));
    let state = PipelineState::FetchingRelease { current: String::from("1.2.3") };
    let event = PipelineEvent::ReleaseFetched { result: Ok(release_with_zip("v1.2.3")) };
    let (next, action) = updater.step(state, event);
    assert!(matches!(
        next,
        PipelineState::Done { outcome: UpdateOutcome::NoUpdateAvailable }
    ));
    assert!(matches!(action, PipelineAction::Stop));
}

#[test]
fn test_connectivity_failure_aborts() {
    let updater = Updater::new(temp_config(), opts(false, false));
    let (next, action) = updater.step(
        PipelineState::Probing,
        PipelineEvent::ConnectivityChecked { ok: false, detail: String::from("API returned status 503") },
    );
    match next {
        PipelineState::Done { outcome: UpdateOutcome::Failed(UpdateError::Connectivity(d)) } => {
            assert_eq!(d, "API returned status 503");
        },
        _ => panic!("expected a connectivity failure"),
    }
    assert!(matches!(action, PipelineAction::Stop));
}

#[test]
fn test_pipeline_start_and_version_fallback() {
    let updater = Updater::new(temp_config(), opts(false, false));
    let (s1, a1) = updater.step(PipelineState::Idle, PipelineEvent::Start);
    assert!(matches!(s1, PipelineState::Probing));
    assert!(matches!(a1, PipelineAction::ProbeConnectivity));
    let (s2, a2) = updater.step(
        s1,
        PipelineEvent::ConnectivityChecked { ok: true, detail: String::new() },
    );
    assert!(matches!(s2, PipelineState::ReadingVersion));
    assert!(matches!(a2, PipelineAction::ReadCurrentVersion));
    let (s3, a3) = updater.step(s2, PipelineEvent::CurrentVersionRead { version: None });
    match &s3 {
        PipelineState::FetchingRelease { current } => assert_eq!(current, "0.0.0"),
        _ => panic!("expected to be fetching the release"),
    }
    assert!(matches!(a3, PipelineAction::FetchLatestRelease));
}

#[test]
fn test_release_selects_asset_and_downloads() {
    let updater = Updater::new(temp_config(), opts(true, false));
    let state = PipelineState::FetchingRelease { current: String::from("1.0.0") };
    let event = PipelineEvent::ReleaseFetched { result: Ok(release_with_zip("v1.1.0")) };
    let (next, action) = updater.step(state, event);
    assert!(matches!(next, PipelineState::Downloading { .. }));
    match action {
        PipelineAction::DownloadAsset { asset } => {
            assert_eq!(asset.name, "noraneko-windows-x86_64-portable.zip");
        },
        _ => panic!("expected a download action"),
    }
}

#[test]
fn test_no_suitable_asset_fails_run() {
    let updater = Updater::new(temp_config(), opts(false, false));
    let release = Release {
        tag_name: String::from("v9.9.9"),
        assets: vec![Asset {
            name: String::from("noraneko-linux.tar.gz"),
            browser_download_url: String::from("https://example.com/linux.tar.gz"),
        }],
    };
    let (next, action) = updater.step(
        PipelineState::FetchingRelease { current: String::from("1.0.0") },
        PipelineEvent::ReleaseFetched { result: Ok(release) },
    );
    assert!(matches!(
        next,
        PipelineState::Done { outcome: UpdateOutcome::Failed(UpdateError::NoSuitableAsset) }
    ));
    assert!(matches!(action, PipelineAction::Stop));
}

#[test]
fn test_install_finished_reports_transition() {
    let updater = Updater::new(temp_config(), opts(false, false));
    let (next, _) = updater.step(
        PipelineState::Installing { current: String::from("1.0.0"), latest: String::from("1.1.0") },
        PipelineEvent::InstallFinished { result: Ok(()) },
    );
    match next {
        PipelineState::Done { outcome: UpdateOutcome::Updated { from, to } } => {
            assert_eq!(from, "1.0.0");
            assert_eq!(to, "1.1.0");
        },
        _ => panic!("expected an updated outcome"),
    }
}

#[test]
fn test_scheduled_task_script_selection() {
    let mut o = opts(false, false);
    o.create_task = true;
    let updater = Updater::new(temp_config(), o);
    assert_eq!(updater.scheduled_task_script(), Some("ScheduledTask-Create.ps1"));
    let mut o2 = opts(false, false);
    o2.remove_task = true;
    let updater2 = Updater::new(temp_config(), o2);
    assert_eq!(updater2.scheduled_task_script(), Some("ScheduledTask-Remove.ps1"));
    let updater3 = Updater::new(temp_config(), opts(false, false));
    assert_eq!(updater3.scheduled_task_script(), None);
}

fn small_zip() -> Vec<u8> {
    let mut cursor = std::io::Cursor::new(Vec::new());
    let mut writer = zip::ZipWriter::new(&mut cursor);
    let options = zip::write::SimpleFileOptions::default();
    writer.start_file("app/file.txt", options).expect("start file");
    writer.write_all(b"payload").expect("write entry");
    writer.finish().expect("finish zip");
    cursor.into_inner()
}

fn sha256_hex(data: &[u8]) -> String {
    let digest = <sha2::Sha256 as sha2::Digest>::digest(data);
    digest.iter().map(|b| format!("{:02x}", b)).collect()
}

#[test]
fn test_download_without_checksum_extracts_archive() {
    let updater = Updater::new(temp_config(), opts(true, false));
    let state = PipelineState::Downloading {
        current: String::from("1.0.0"),
        latest: String::from("1.1.0"),
        asset: Asset {
            name: String::from("noraneko-windows-x86_64-portable.zip"),
            browser_download_url: String::from("https://example.com/win.zip"),
        },
        checksum: None,
    };
    let (next, action) = updater.step(
        state,
        PipelineEvent::AssetDownloaded { result: Ok(small_zip()) },
    );
    assert!(matches!(next, PipelineState::Installing { .. }));
    match action {
        PipelineAction::WriteEntries { entries } => {
            assert_eq!(entries.len(), 1);
            assert_eq!(entries[0].name, "app/file.txt");
            assert_eq!(entries[0].data, b"payload".to_vec());
        },
        _ => panic!("expected extracted entries"),
    }
}

#[test]
fn test_download_with_checksum_fetches_manifest_then_extracts() {
    let updater = Updater::new(temp_config(), opts(true, false));
    let data = small_zip();
    let state = PipelineState::Downloading {
        current: String::from("1.0.0"),
        latest: String::from("1.1.0"),
        asset: Asset {
            name: String::from("noraneko-windows-x86_64-portable.zip"),
            browser_download_url: String::from("https://example.com/win.zip"),
        },
        checksum: Some(Asset {
            name: String::from("sha256sums.txt"),
            browser_download_url: String::from("https://example.com/sha256sums.txt"),
        }),
    };
    let (next, action) = updater.step(
        state,
        PipelineEvent::AssetDownloaded { result: Ok(data.clone()) },
    );
    assert!(matches!(next, PipelineState::FetchingManifest { .. }));
    match &action {
        PipelineAction::FetchManifest { asset } => assert_eq!(asset.name, "sha256sums.txt"),
        _ => panic!("expected a manifest fetch"),
    }

    let manifest = format!(
        "{}  noraneko-windows-x86_64-portable.zip\n",
        sha256_hex(&data)
    );
    let (next2, action2) = updater.step(next, PipelineEvent::ManifestFetched { result: Ok(manifest) });
    assert!(matches!(next2, PipelineState::Installing { .. }));
    assert!(matches!(action2, PipelineAction::WriteEntries { .. }));
}

#[test]
fn test_checksum_mismatch_aborts_installation() {
    let updater = Updater::new(temp_config(), opts(true, false));
    let state = PipelineState::FetchingManifest {
        current: String::from("1.0.0"),
        latest: String::from("1.1.0"),
        file_name: String::from("noraneko-windows-x86_64-portable.zip"),
        data: small_zip(),
    };
    let manifest = String::from("abcd1234  noraneko-windows-x86_64-portable.zip\n");
    let (next, action) = updater.step(state, PipelineEvent::ManifestFetched { result: Ok(manifest) });
    assert!(matches!(
        next,
        PipelineState::Done {
            outcome: UpdateOutcome::Failed(UpdateError::ChecksumMismatch { .. })
        }
    ));
    assert!(matches!(action, PipelineAction::Stop));
}

#[test]
fn test_installer_path_for_setup_executable() {
    let updater = Updater::new(temp_config(), opts(false, false));
    let state = PipelineState::Downloading {
        current: String::from("1.0.0"),
        latest: String::from("1.1.0"),
        asset: Asset {
            name: String::from("noraneko-windows-x86_64-setup.exe"),
            browser_download_url: String::from("https://example.com/setup.exe"),
        },
        checksum: None,
    };
    let (next, action) = updater.step(
        state,
        PipelineEvent::AssetDownloaded { result: Ok(b"not used by the decision".to_vec()) },
    );
    assert!(matches!(next, PipelineState::InstallingSilent { .. }));
    match action {
        PipelineAction::RunInstallerSilent { file_name } => {
            assert_eq!(file_name, "noraneko-windows-x86_64-setup.exe");
        },
        _ => panic!("expected the silent installer to run"),
    }
}

#[test]
fn test_silent_installer_success_finishes_run() {
    let updater = Updater::new(temp_config(), opts(false, false));
    let state = PipelineState::InstallingSilent {
        current: String::from("1.0.0"),
        latest: String::from("1.1.0"),
        file_name: String::from("noraneko-windows-x86_64-setup.exe"),
    };
    let (next, action) = updater.step(
        state,
        PipelineEvent::InstallerAttemptFinished { ok: true, detail: String::new() },
    );
    assert!(matches!(
        next,
        PipelineState::Done { outcome: UpdateOutcome::Updated { .. } }
    ));
    assert!(matches!(action, PipelineAction::Stop));
}

#[test]
fn test_silent_installer_failure_falls_back_to_interactive() {
    let updater = Updater::new(temp_config(), opts(false, false));
    let state = PipelineState::InstallingSilent {
        current: String::from("1.0.0"),
        latest: String::from("1.1.0"),
        file_name: String::from("noraneko-windows-x86_64-setup.exe"),
    };
    let (next, action) = updater.step(
        state,
        PipelineEvent::InstallerAttemptFinished {
            ok: false,
            detail: String::from("installer exited with exit code: 1"),
        },
    );
    assert!(matches!(next, PipelineState::InstallingInteractive { .. }));
    match action {
        PipelineAction::RunInstallerInteractive { file_name } => {
            assert_eq!(file_name, "noraneko-windows-x86_64-setup.exe");
        },
        _ => panic!("expected the interactive fallback"),
    }

    let (after_ok, _) = updater.step(
        next,
        PipelineEvent::InstallerAttemptFinished { ok: true, detail: String::new() },
    );
    match after_ok {
        PipelineState::Done { outcome: UpdateOutcome::Updated { from, to } } => {
            assert_eq!(from, "1.0.0");
            assert_eq!(to, "1.1.0");
        },
        _ => panic!("expected an updated outcome after the fallback succeeded"),
    }
}

#[test]
fn test_installer_fails_only_after_both_attempts() {
    let updater = Updater::new(temp_config(), opts(false, false));
    let state = PipelineState::InstallingInteractive {
        current: String::from("1.0.0"),
        latest: String::from("1.1.0"),
    };
    let (next, action) = updater.step(
        state,
        PipelineEvent::InstallerAttemptFinished { ok: false, detail: String::from("installer failed") },
    );
    match next {
        PipelineState::Done { outcome: UpdateOutcome::Failed(UpdateError::InstallerFailure(d)) } => {
            assert_eq!(d, "installer failed");
        },
        _ => panic!("expected an installer failure after both attempts"),
    }
    assert!(matches!(action, PipelineAction::Stop));
}

#[test]
fn test_unexpected_event_leaves_state_unchanged() {
    let updater = Updater::new(temp_config(), opts(false, false));
    let (next, action) = updater.step(PipelineState::Idle, PipelineEvent::CurrentVersionRead {
        version: None,
    });
    assert!(matches!(next, PipelineState::Idle));
    assert!(matches!(action, PipelineAction::Stop));
}

#[test]
fn test_failure_events_map_to_error_variants() {
    let updater = Updater::new(temp_config(), opts(false, false));
    let (s1, _) = updater.step(
        PipelineState::FetchingRelease { current: String::from("1.0.0") },
        PipelineEvent::ReleaseFetched { result: Err(String::from("API returned status 500")) },
    );
    assert!(matches!(
        s1,
        PipelineState::Done { outcome: UpdateOutcome::Failed(UpdateError::ReleaseFetch(_)) }
    ));

    let (s2, _) = updater.step(
        PipelineState::Downloading {
            current: String::from("1.0.0"),
            latest: String::from("1.1.0"),
            asset: Asset {
                name: String::from("noraneko-windows-x86_64-setup.exe"),
                browser_download_url: String::from("https://example.com/setup.exe"),
            },
            checksum: None,
        },
        PipelineEvent::AssetDownloaded { result: Err(String::from("download returned status 404")) },
    );
    assert!(matches!(
        s2,
        PipelineState::Done { outcome: UpdateOutcome::Failed(UpdateError::Download(_)) }
    ));

    let (s3, _) = updater.step(
        PipelineState::Installing { current: String::from("1.0.0"), latest: String::from("1.1.0") },
        PipelineEvent::InstallFinished { result: Err(String::from("access denied")) },
    );
    assert!(matches!(
        s3,
        PipelineState::Done { outcome: UpdateOutcome::Failed(UpdateError::MergeFailed(_)) }
    ));
}

#[test]
fn test_error_messages() {
    assert_eq!(
        UpdateError::NoSuitableAsset.message(),
        "no suitable download found for this platform"
    );
    assert_eq!(
        UpdateError::ChecksumMismatch {
            expected: String::from("aa"),
            actual: String::from("bb"),
        }
        .message(),
        "checksum mismatch: expected aa, got bb"
    );
    assert_eq!(
        UpdateError::PathTraversal { name: String::from("../../evil.txt") }.message(),
        "illegal file path in archive: ../../evil.txt"
    );
    assert_eq!(
        UpdateError::ChecksumNotFound { file_name: String::from("myfile.zip") }.message(),
        "checksum for myfile.zip not found in checksum file"
    );
}
