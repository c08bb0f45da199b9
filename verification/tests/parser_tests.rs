use package_assistant::command::CmdOutput;
use package_assistant::config::{PackageConfig, PackageManagerType};
use package_assistant::dnf::{parse_dnf_output, DnfManger};
use package_assistant::error::Error;
use package_assistant::zypper::{parse_zypper_updates, ZypperManager};

fn config(kind: PackageManagerType) -> PackageConfig {
    PackageConfig {
        package_manager: Some(kind),
        download_command: String::from("pm download"),
        update_command: String::from("pm update"),
        noconfirm_update_command: String::from("pm update -y"),
        cached_package_path: Some(String::from("/cache")),
    }
}

fn success(stdout: &str) -> CmdOutput {
    CmdOutput {
        success: true,
        stdout: stdout.as_bytes().to_vec(),
        stderr: Vec::new(),
    }
}

fn failure(stderr: &str) -> CmdOutput {
    CmdOutput {
        success: false,
        stdout: Vec::new(),
        stderr: stderr.as_bytes().to_vec(),
    }
}

#[test]
fn zypper_reads_one_update_element() {
    let items =
        parse_zypper_updates(r#"<update name="pkg" edition="2.0" edition-old="1.0"/>"#).unwrap();
    assert_eq!(items.len(), 1);
    assert_eq!(items[0].name, "pkg");
    assert_eq!(items[0].new_version.as_deref(), Some("2.0"));
    assert_eq!(items[0].old_version.as_deref(), Some("1.0"));
}

#[test]
fn zypper_skips_an_empty_name() {
    let items = parse_zypper_updates(r#"<update name="" edition="2.0"/>"#).unwrap();
    assert!(items.is_empty());
}

#[test]
fn zypper_reads_a_full_document() {
    let xml = r#"<?xml version="1.0"?><stream><update-status><update-list><update name="alpha" edition="1.1" edition-old="1.0"><summary>x</summary></update><update name="" edition="9"/><update name="beta" edition="2.4.1"/></update-list></update-status></stream>"#;
    let items = parse_zypper_updates(xml).unwrap();
    assert_eq!(items.len(), 2);
    assert_eq!(items[0].name, "alpha");
    assert_eq!(items[0].new_version.as_deref(), Some("1.1"));
    assert_eq!(items[0].old_version.as_deref(), Some("1.0"));
    assert_eq!(items[1].name, "beta");
    assert_eq!(items[1].new_version.as_deref(), Some("2.4.1"));
    assert_eq!(items[1].old_version, None);
}

#[test]
fn zypper_missing_attributes_stay_absent() {
    let items = parse_zypper_updates(r#"<update name="solo"/>"#).unwrap();
    assert_eq!(items[0].name, "solo");
    assert_eq!(items[0].new_version, None);
    assert_eq!(items[0].old_version, None);
}

#[test]
fn zypper_malformed_xml_is_an_error() {
    let r = parse_zypper_updates("<update name=\"pkg\"></mismatch>");
    assert!(matches!(r, Err(Error::XMLError(_))));
}

#[test]
fn zypper_backend_propagates_command_failure() {
    let cfg = config(PackageManagerType::Zypper);
    let manager = ZypperManager { config: &cfg };
    let r = manager.check_update(failure("repo down"));
    match r {
        Err(Error::ZypperError(msg)) => assert_eq!(msg, "repo down"),
        _ => panic!("expected a zypper error"),
    }
}

#[test]
fn zypper_backend_reads_successful_output() {
    let cfg = config(PackageManagerType::Zypper);
    let manager = ZypperManager { config: &cfg };
    let items = manager
        .check_update(success(r#"<update name="pkg" edition="2.0"/>"#))
        .unwrap();
    assert_eq!(items.len(), 1);
    assert_eq!(items[0].name, "pkg");
}

#[test]
fn dnf_reads_the_tabular_line() {
    let items = parse_dnf_output("bash.x86_64        5.2-1    updates");
    assert_eq!(items.len(), 1);
    assert_eq!(items[0].name, "bash.x86_64");
    assert_eq!(items[0].new_version.as_deref(), Some("5.2-1"));
    assert_eq!(items[0].old_version, None);
}

#[test]
fn dnf_reads_only_matching_lines() {
    let stdout = "Last metadata expiration check: 0:12:34 ago.\n\nbash.x86_64        5.2-1    updates\nkernel.x86_64      6.1.0    extras\nzsh.x86_64         5.9-2    updates\n";
    let items = parse_dnf_output(stdout);
    assert_eq!(items.len(), 2);
    assert_eq!(items[0].name, "bash.x86_64");
    assert_eq!(items[1].name, "zsh.x86_64");
    assert_eq!(items[1].new_version.as_deref(), Some("5.9-2"));
}

#[test]
fn dnf_needs_the_exact_shape() {
    assert!(parse_dnf_output("updates").is_empty());
    assert!(parse_dnf_output("bash updates").is_empty());
    assert!(parse_dnf_output("bash 5.2-1 updates ").is_empty());
    assert!(parse_dnf_output(" bash 5.2-1 updates").is_empty());
    assert!(parse_dnf_output("bash 5.2-1 updatesx").is_empty());
    assert!(parse_dnf_output("bash 5.2-1 other").is_empty());
}

#[test]
fn dnf_backend_degrades_failure_to_no_updates() {
    let cfg = config(PackageManagerType::Dnf);
    let manager = DnfManger { config: &cfg };
    let items = manager.check_update(failure("metadata error")).unwrap();
    assert!(items.is_empty());
}

#[test]
fn dnf_backend_reads_successful_output() {
    let cfg = config(PackageManagerType::Dnf);
    let manager = DnfManger { config: &cfg };
    let items = manager
        .check_update(success("bash.x86_64  5.2-1  updates"))
        .unwrap();
    assert_eq!(items.len(), 1);
    assert_eq!(items[0].name, "bash.x86_64");
}
