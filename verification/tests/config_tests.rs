use package_assistant::changelog::ChangelogQuery;
use package_assistant::command::CmdOutput;
use package_assistant::config::{
    build_config_file_path, get_config_file_path, Config, Data, PackageConfig, PackageManagerType,
};
use package_assistant::error::Error;
use package_assistant::package_manager::{
    get_package_manager, PackageManager, PackageUpdateItem,
};

fn package_config(kind: Option<PackageManagerType>) -> PackageConfig {
    PackageConfig {
        package_manager: kind,
        download_command: String::from("pm download"),
        update_command: String::from("pm update"),
        noconfirm_update_command: String::new(),
        cached_package_path: None,
    }
}

#[test]
fn default_config_is_unconfigured() {
    let config = Config::new();
    assert!(config.service.enable_service);
    assert_eq!(config.service.update_check_frequency, 30);
    assert!(config.service.download_in_background);
    assert!(config.service.update_on_reboot);
    assert!(config.package.package_manager.is_none());
    assert!(config.package.download_command.is_empty());
    assert!(config.package.update_command.is_empty());
    assert!(config.package.noconfirm_update_command.is_empty());
    assert!(config.package.cached_package_path.is_none());
}

#[test]
fn default_data_has_seen_nothing() {
    let data = Data::default();
    assert_eq!(data.update_timestamp, 0);
}

#[test]
fn selector_names_round_trip() {
    for kind in [
        PackageManagerType::Zypper,
        PackageManagerType::Dnf,
        PackageManagerType::Apt,
        PackageManagerType::Pacman,
    ] {
        let name = kind.config_name();
        assert_eq!(PackageManagerType::from_config_name(name), Some(kind));
    }
    assert_eq!(PackageManagerType::from_config_name("zypper"), Some(PackageManagerType::Zypper));
    assert_eq!(PackageManagerType::from_config_name("Zypper"), None);
    assert_eq!(PackageManagerType::from_config_name(""), None);
}

#[test]
fn config_file_path_is_under_the_directory() {
    assert_eq!(get_config_file_path("/etc/package-assistant"), "/etc/package-assistant/settings.toml");
    assert_eq!(build_config_file_path("x"), "x/settings.toml");
}

#[test]
fn factory_builds_the_configured_backend() {
    let zypper_cfg = package_config(Some(PackageManagerType::Zypper));
    assert!(matches!(
        get_package_manager(&zypper_cfg),
        Ok(PackageManager::Zypper(_))
    ));
    let dnf_cfg = package_config(Some(PackageManagerType::Dnf));
    assert!(matches!(get_package_manager(&dnf_cfg), Ok(PackageManager::Dnf(_))));
}

#[test]
fn factory_rejects_the_unimplemented_backends() {
    for kind in [None, Some(PackageManagerType::Apt), Some(PackageManagerType::Pacman)] {
        let cfg = package_config(kind);
        assert!(matches!(
            get_package_manager(&cfg),
            Err(Error::UnsupportedPackageManager)
        ));
    }
}

#[test]
fn manager_prepares_the_elevated_commands() {
    let cfg = package_config(Some(PackageManagerType::Zypper));
    let manager = get_package_manager(&cfg).unwrap();
    assert_eq!(manager.check_update_command(), "zypper --xmlout lu");
    assert_eq!(manager.download_update_command().unwrap(), "pkexec pm download");
    assert_eq!(manager.do_update_command(true).unwrap(), "pkexec pm update");
    assert!(matches!(
        manager.do_update_command(false),
        Err(Error::EmptyCommand)
    ));
}

#[test]
fn manager_classifies_finished_commands() {
    let ok = CmdOutput { success: true, stdout: Vec::new(), stderr: Vec::new() };
    assert!(PackageManager::download_update_result(ok).is_ok());
    let failed = CmdOutput {
        success: false,
        stdout: Vec::new(),
        stderr: b"no network".to_vec(),
    };
    match PackageManager::download_update_result(failed) {
        Err(Error::DownloadError(msg)) => assert_eq!(msg, "no network"),
        _ => panic!("expected a download error"),
    }
    let failed = CmdOutput {
        success: false,
        stdout: Vec::new(),
        stderr: b"conflict".to_vec(),
    };
    match PackageManager::do_update_result(false, failed) {
        Err(Error::UpdateError(msg)) => assert_eq!(msg, "conflict"),
        _ => panic!("expected an update error"),
    }
    let interactive_failed = CmdOutput {
        success: false,
        stdout: Vec::new(),
        stderr: Vec::new(),
    };
    assert!(matches!(
        PackageManager::do_update_result(true, interactive_failed),
        Err(Error::UpdateError(_))
    ));
}

#[test]
fn missing_cache_path_is_surfaced() {
    let cfg = package_config(Some(PackageManagerType::Zypper));
    let manager = get_package_manager(&cfg).unwrap();
    assert!(matches!(
        manager.get_cached_package_path(),
        Err(Error::UnkownCachedPackagePath)
    ));
    let query = ChangelogQuery { name: None };
    assert!(matches!(
        manager.get_cached_changelogs(&query, &vec![], 0),
        Err(Error::UnkownCachedPackagePath)
    ));
}

#[test]
fn update_item_display_shows_known_versions() {
    let bare = PackageUpdateItem {
        name: String::from("pkg"),
        old_version: None,
        new_version: None,
    };
    assert_eq!(bare.display_string(), "pkg");
    let with_new = PackageUpdateItem {
        name: String::from("pkg"),
        old_version: None,
        new_version: Some(String::from("2.0")),
    };
    assert_eq!(with_new.display_string(), "pkg (2.0)");
    let with_both = PackageUpdateItem {
        name: String::from("pkg"),
        old_version: Some(String::from("1.0")),
        new_version: Some(String::from("2.0")),
    };
    assert_eq!(with_both.display_string(), "pkg (2.0) -> (1.0)");
}
