use package_assistant::command::{
    get_installed_pkg_timestamp, interactive_result, parse_u64, prepare_shell_command,
    process_cmd_output, rpm_changelogtime_query, CmdErrorKind, CmdOutput,
};
use package_assistant::error::Error;

fn output(success: bool, stdout: &[u8], stderr: &[u8]) -> CmdOutput {
    CmdOutput {
        success,
        stdout: stdout.to_vec(),
        stderr: stderr.to_vec(),
    }
}

#[test]
fn empty_command_fails_before_anything_runs() {
    assert!(matches!(
        prepare_shell_command("", true),
        Err(Error::EmptyCommand)
    ));
    assert!(matches!(
        prepare_shell_command("", false),
        Err(Error::EmptyCommand)
    ));
}

#[test]
fn elevation_prefixes_the_helper() {
    assert_eq!(
        prepare_shell_command("zypper dup", true).unwrap(),
        "pkexec zypper dup"
    );
    assert_eq!(prepare_shell_command("zypper dup", false).unwrap(), "zypper dup");
}

#[test]
fn successful_output_decodes_stdout() {
    let r = process_cmd_output(output(true, b"all good\n", b""), CmdErrorKind::Download);
    assert_eq!(r.unwrap(), "all good\n");
}

#[test]
fn failed_output_wraps_stderr_in_the_kind() {
    let r = process_cmd_output(output(false, b"", b"broken"), CmdErrorKind::Download);
    match r {
        Err(Error::DownloadError(msg)) => assert_eq!(msg, "broken"),
        _ => panic!("expected a download error"),
    }
    let r = process_cmd_output(output(false, b"", b"broken"), CmdErrorKind::Update);
    assert!(matches!(r, Err(Error::UpdateError(_))));
    let r = process_cmd_output(output(false, b"", b"broken"), CmdErrorKind::Dnf);
    assert!(matches!(r, Err(Error::DnfError(_))));
}

#[test]
fn undecodable_stream_is_a_utf8_error() {
    let r = process_cmd_output(output(true, &[0xff, 0xfe], &[]), CmdErrorKind::Zypper);
    assert!(matches!(r, Err(Error::Utf8StringError(_))));
    let r = process_cmd_output(output(false, &[], &[0xff]), CmdErrorKind::Zypper);
    assert!(matches!(r, Err(Error::Utf8StringError(_))));
}

#[test]
fn interactive_run_only_checks_the_exit() {
    assert!(interactive_result(true).is_ok());
    assert!(matches!(interactive_result(false), Err(Error::UpdateError(m)) if m.is_empty()));
}

#[test]
fn decimal_parsing_is_exact() {
    assert_eq!(parse_u64("0").unwrap(), 0);
    assert_eq!(parse_u64("1702300000").unwrap(), 1702300000);
    assert_eq!(parse_u64("18446744073709551615").unwrap(), u64::MAX);
    assert!(matches!(parse_u64(""), Err(Error::ParseIntError)));
    assert!(matches!(parse_u64("12x"), Err(Error::ParseIntError)));
    assert!(matches!(parse_u64("-5"), Err(Error::ParseIntError)));
    assert!(matches!(
        parse_u64("18446744073709551616"),
        Err(Error::ParseIntError)
    ));
}

#[test]
fn timestamp_query_arguments_are_fixed() {
    let args = rpm_changelogtime_query("bash");
    assert_eq!(args, vec!["-q", "bash", "--qf", "%{CHANGELOGTIME}"]);
}

#[test]
fn timestamp_is_read_from_the_first_line() {
    let r = get_installed_pkg_timestamp(output(true, b"1702300000\nignored", b""));
    assert_eq!(r.unwrap(), 1702300000);
    let r = get_installed_pkg_timestamp(output(true, b"1702300000\r\nignored", b""));
    assert_eq!(r.unwrap(), 1702300000);
}

#[test]
fn timestamp_of_a_failed_query_is_an_rpm_error() {
    let r = get_installed_pkg_timestamp(output(false, b"", b"package not installed"));
    match r {
        Err(Error::RPMCommandError(msg)) => assert_eq!(msg, "package not installed"),
        _ => panic!("expected an rpm command error"),
    }
}

#[test]
fn empty_rpm_response_is_invalid() {
    let r = get_installed_pkg_timestamp(output(true, b"", b""));
    assert!(matches!(r, Err(Error::InvalidRPMResponse)));
}

#[test]
fn garbled_rpm_response_is_a_parse_error() {
    let r = get_installed_pkg_timestamp(output(true, b"(none)\n", b""));
    assert!(matches!(r, Err(Error::ParseIntError)));
}
