use noraneko_winupdater::assets::Asset;
use noraneko_winupdater::assets::Release;
use noraneko_winupdater::config::Config;
use noraneko_winupdater::updater::Options;
use noraneko_winupdater::updater::Updater;

fn temp_config() -> Config {
    Config {
        path: String::new(),
        work_dir: String::from("C:\\Work"),
        update_self: true,
        ignore_crl_errors: false,
        branch: String::from("nightly"),
        exe_dir: String::from("C:\\Updater"),
        config_file: String::from("C:\\Updater\\Noraneko-WinUpdater.ini"),
        portable_marker: false,
    }
}

fn opts(portable: bool, check_only: bool) -> Options {
    Options {
        scheduled: false,
        portable,
        check_only,
        create_task: false,
        remove_task: false,
        version: String::from("1.0.0"),
    }
}

#[test]
fn test_new() {
    let cfg = temp_config();
    let updater = Updater::new(cfg.clone(), opts(false, true));
    assert_eq!(updater.opts.version, "1.0.0");
    assert_eq!(updater.cfg.exe_dir, cfg.exe_dir);
}

#[test]
fn test_find_asset() {
    let cfg = temp_config();
    let updater = Updater::new(cfg.clone(), opts(true, false));
    let release = Release {
        tag_name: String::from("v1.0.0"),
        assets: vec![
            Asset {
                name: String::from("noraneko-1.0.0-linux-x86_64.tar.gz"),
                browser_download_url: String::from("https://example.com/linux.tar.gz"),
            },
            Asset {
                name: String::from("noraneko-1.0.0-windows-x86_64-portable.zip"),
                browser_download_url: String::from("https://example.com/win.zip"),
            },
            Asset {
                name: String::from("noraneko-1.0.0-windows-x86_64-setup.exe"),
                browser_download_url: String::from("https://example.com/setup.exe"),
            },
        ],
    };
    let asset = updater.find_asset(&release).unwrap();
    assert_eq!(asset.name, "noraneko-1.0.0-windows-x86_64-portable.zip");

    let updater_installed = Updater::new(cfg, opts(false, false));
    let asset_installed = updater_installed.find_asset(&release).unwrap();
    assert!(!asset_installed.name.is_empty());
    assert_eq!(asset_installed.name, "noraneko-1.0.0-windows-x86_64-setup.exe");
}

#[test]
fn test_find_asset_none_fits() {
    let updater = Updater::new(temp_config(), opts(false, false));
    let release = Release {
        tag_name: String::from("v1.0.0"),
        assets: vec![Asset {
            name: String::from("noraneko-1.0.0-linux-x86_64.tar.gz"),
            browser_download_url: String::from("https://example.com/linux.tar.gz"),
        }],
    };
    assert!(updater.find_asset(&release).is_err());
}

#[test]
fn test_find_asset_fallback() {
    let updater = Updater::new(temp_config(), opts(false, false));
    let release = Release {
        tag_name: String::from("v1.0.0"),
        assets: vec![Asset {
            name: String::from("Noraneko-Windows-Build.exe"),
            browser_download_url: String::from("https://example.com/build.exe"),
        }],
    };
    let asset = updater.find_asset(&release).unwrap();
    assert_eq!(asset.name, "Noraneko-Windows-Build.exe");
}

#[test]
fn test_find_checksum_asset() {
    let cfg = temp_config();
    let updater = Updater::new(cfg, opts(false, false));
    let release = Release {
        tag_name: String::from("v1.0.0"),
        assets: vec![
            Asset {
                name: String::from("noraneko-1.0.0-windows.zip"),
                browser_download_url: String::from("https://example.com/win.zip"),
            },
            Asset {
                name: String::from("sha256sums.txt"),
                browser_download_url: String::from("https://example.com/sha256sums.txt"),
            },
        ],
    };
    let checksum = updater.find_checksum_asset(&release).unwrap();
    assert_eq!(checksum.name, "sha256sums.txt");

    let release_sha = Release {
        tag_name: String::from("v1.0.0"),
        assets: vec![
            Asset {
                name: String::from("noraneko-1.0.0-windows.zip"),
                browser_download_url: String::from("https://example.com/win.zip"),
            },
            Asset {
                name: String::from("noraneko-1.0.0-windows.zip.sha256"),
                browser_download_url: String::from("https://example.com/checksum.sha256"),
            },
        ],
    };
    assert!(updater.find_checksum_asset(&release_sha).is_some());
}

#[test]
fn test_find_checksum_asset_absent() {
    let updater = Updater::new(temp_config(), opts(false, false));
    let release = Release {
        tag_name: String::from("v1.0.0"),
        assets: vec![Asset {
            name: String::from("noraneko-1.0.0-windows.zip"),
            browser_download_url: String::from("https://example.com/win.zip"),
        }],
    };
    assert!(updater.find_checksum_asset(&release).is_none());
}

#[test]
fn test_find_asset_other_architecture() {
    let cfg = temp_config();
    let updater = Updater::new(cfg, opts(true, false)).with_arch(String::from("i686"));
    let release = Release {
        tag_name: String::from("v1.0.0"),
        assets: vec![
            Asset {
                name: String::from("noraneko-1.0.0-windows-i686-portable.zip"),
                browser_download_url: String::from("https://example.com/win32.zip"),
            },
            Asset {
                name: String::from("noraneko-1.0.0-windows-x86_64-portable.zip"),
                browser_download_url: String::from("https://example.com/win64.zip"),
            },
        ],
    };
    let asset = updater.find_asset(&release).unwrap();
    assert_eq!(asset.name, "noraneko-1.0.0-windows-i686-portable.zip");
}
