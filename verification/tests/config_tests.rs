use noraneko_winupdater::config::Config;
use noraneko_winupdater::config::log_entry_text;

fn temp_cfg() -> Config {
    Config {
        path: String::new(),
        work_dir: String::from("C:\\Work"),
        update_self: true,
        ignore_crl_errors: false,
        branch: String::from("nightly"),
        exe_dir: String::from("C:\\Updater"),
        config_file: String::from("C:\\Updater\\Noraneko-WinUpdater.ini"),
        portable_marker: false,
    }
}

#[test]
fn test_load_defaults() {
    let cfg = Config::from_ini("", "C:\\Updater", "C:\\Temp", false);
    assert_eq!(cfg.branch, "nightly");
    assert!(cfg.update_self);
    assert!(!cfg.ignore_crl_errors);
    assert_eq!(cfg.work_dir, "C:\\Temp");
    assert_eq!(cfg.config_file, "C:\\Updater\\Noraneko-WinUpdater.ini");
}

#[test]
fn test_load_existing_config() {
    let config_content = "[Settings]\nPath=C:\\Program Files\\Noraneko\\noraneko.exe\nWorkDir=D:\\Temp\nUpdateSelf=0\nIgnoreCrlErrors=1\nBranch=beta\n";
    let cfg = Config::from_ini(config_content, "C:\\Updater", "C:\\Temp", false);
    assert_eq!(cfg.path, "C:\\Program Files\\Noraneko\\noraneko.exe");
    assert_eq!(cfg.work_dir, "D:\\Temp");
    assert!(!cfg.update_self);
    assert!(cfg.ignore_crl_errors);
    assert_eq!(cfg.branch, "beta");
}

#[test]
fn test_load_settings_only_in_section() {
    let content = "Branch=beta\n[Other]\nBranch=other\n[Settings]\nBranch=stable\n";
    let cfg = Config::from_ini(content, "C:\\Updater", "C:\\Temp", false);
    assert_eq!(cfg.branch, "stable");
}

#[test]
fn test_load_workdir_dot_and_comments() {
    let content = "[Settings]\n; a comment\n# another\nWorkDir=.\nPath=0\n";
    let cfg = Config::from_ini(content, "C:\\Updater", "C:\\Temp", false);
    assert_eq!(cfg.work_dir, "C:\\Updater");
    assert_eq!(cfg.path, "");
}

#[test]
fn test_save() {
    let cfg = Config {
        path: String::from("C:\\Test\\noraneko.exe"),
        work_dir: String::from("D:\\Temp"),
        update_self: false,
        ignore_crl_errors: true,
        branch: String::from("stable"),
        exe_dir: String::from("C:\\Updater"),
        config_file: String::from("C:\\Updater\\Noraneko-WinUpdater.ini"),
        portable_marker: false,
    };
    let content = cfg.to_ini("C:\\Temp");
    assert!(content.contains("Path=C:\\Test\\noraneko.exe"));
    assert!(content.contains("UpdateSelf=0"));
    assert!(content.contains("IgnoreCrlErrors=1"));
    assert!(content.contains("Branch=stable"));
}

#[test]
fn test_save_workdir_forms() {
    let mut cfg = temp_cfg();
    cfg.work_dir = cfg.exe_dir.clone();
    assert!(cfg.to_ini("C:\\Temp").contains("WorkDir=.\n"));
    cfg.work_dir = String::from("C:\\Temp");
    assert!(cfg.to_ini("C:\\Temp").contains("WorkDir=\n"));
    cfg.work_dir = String::from("D:\\Elsewhere");
    assert!(cfg.to_ini("C:\\Temp").contains("WorkDir=D:\\Elsewhere\n"));
    assert!(cfg.to_ini("C:\\Temp").contains("Path=0\n"));
}

#[test]
fn test_log_entry() {
    let empty = Config::from_ini("", "C:\\Updater", "C:\\Temp", false).to_ini("C:\\Temp");
    let after_run = log_entry_text(&empty, "LastRun", "2024-01-01 12:00:00");
    let content = log_entry_text(&after_run, "LastResult", "No new version found");
    assert!(content.contains("[Log]"));
    assert!(content.contains("LastRun=2024-01-01 12:00:00"));
    assert!(content.contains("LastResult=No new version found"));
}

#[test]
fn test_log_entry_updates_in_place() {
    let first = log_entry_text("[Settings]\nBranch=nightly\n", "LastRun", "a");
    let second = log_entry_text(&first, "LastRun", "b");
    assert!(second.contains("LastRun=b"));
    assert!(!second.contains("LastRun=a"));
    assert_eq!(second.matches("LastRun=").count(), 1);
}

#[test]
fn test_is_portable() {
    let mut cfg = temp_cfg();
    assert!(!cfg.is_portable());
    cfg.portable_marker = true;
    assert!(cfg.is_portable());
}
