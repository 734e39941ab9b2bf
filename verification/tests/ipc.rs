use std::path::Path;

use ohmyeyes::ipc::{
    decode_command, encode_command, endpoint_name, instance_name, ipc_timeout,
    platform_scoped_name, receive, retry_connect, retry_listen, validate_runtime_directory,
    Received, IPC_NAME,
};
use ohmyeyes::linux::{desktop_entry, desktop_exec_argument, disabled, quoted_argument, Removal};
use ohmyeyes::time::Duration;
use ohmyeyes::{AppCommand, SystemPauseReason};

#[test]
fn instance_and_ipc_names_are_distinct() {
    let instance = instance_name(Some(1_000));
    let ipc = platform_scoped_name(IPC_NAME, Some(1_000));

    assert_ne!(instance, ipc);
    assert!(instance.contains(".uid-"));
    assert_eq!(instance, "app.ohmyeyes.desktop.uid-1000");
    assert_eq!(ipc, "app.ohmyeyes.desktop.ipc.uid-1000");
    assert_eq!(endpoint_name(Some(0)), "app.ohmyeyes.desktop.ipc.uid-0");
    assert_eq!(instance_name(None), "app.ohmyeyes.desktop");
    assert_ne!(instance_name(None), endpoint_name(None));
}

#[test]
fn ipc_commands_round_trip() {
    for command in [
        AppCommand::OpenSettings,
        AppCommand::RunInBackground,
        AppCommand::ShowNow,
    ] {
        let encoded = std::str::from_utf8(encode_command(command))
            .expect("IPC command should be UTF-8")
            .trim();
        assert_eq!(decode_command(encoded), Some(command));
        assert_eq!(receive(encode_command(command)), Received::Command(command));
    }
    assert_eq!(decode_command("unknown"), None);
}

#[test]
fn commands_that_are_not_sent_open_the_settings() {
    for command in [
        AppCommand::Quit,
        AppCommand::ToggleReminders,
        AppCommand::SystemPause(SystemPauseReason::Power),
    ] {
        assert_eq!(encode_command(command), b"open-settings\n");
    }
}

#[test]
fn only_whole_lines_are_read() {
    assert_eq!(receive(b""), Received::Malformed);
    assert_eq!(receive(b"show-now"), Received::Malformed);
    assert_eq!(receive(b"\xff\n"), Received::Malformed);
    assert_eq!(receive(&[b' '; 65]), Received::Malformed);
    assert_eq!(receive(b"hello\n"), Received::Unknown);
    assert_eq!(receive(b"\n"), Received::Unknown);
    let mut longest = vec![b' '; 64];
    longest[63] = b'\n';
    longest[20..28].copy_from_slice(b"show-now");
    assert_eq!(receive(&longest), Received::Command(AppCommand::ShowNow));
    assert_eq!(
        receive("\u{2003}show-now\u{a0}\r\n".as_bytes()),
        Received::Command(AppCommand::ShowNow)
    );
    longest.insert(0, b' ');
    assert_eq!(receive(&longest), Received::Malformed);
}

#[test]
fn runtime_directories_belong_to_the_user() {
    assert!(validate_runtime_directory(true, 7, 7).is_ok());
    for (is_directory, owner) in [(false, 7), (true, 8), (false, 8)] {
        assert_eq!(
            validate_runtime_directory(is_directory, owner, 7).expect_err("not usable"),
            "XDG_RUNTIME_DIR is not a directory owned by the current user"
        );
    }
}

#[test]
fn patience_ends_at_the_deadline() {
    let deadline = ipc_timeout();
    let before = Duration::from_millis(1_999);
    assert_eq!(deadline, Duration::from_secs(2));
    assert_eq!(
        retry_connect(before, deadline),
        Some(Duration::from_millis(50))
    );
    assert_eq!(retry_connect(deadline, deadline), None);
    assert_eq!(
        retry_listen(true, before, deadline),
        Some(Duration::from_millis(25))
    );
    assert_eq!(retry_listen(false, before, deadline), None);
    assert_eq!(retry_listen(true, deadline, deadline), None);
}

#[test]
fn desktop_exec_path_is_quoted_and_escaped() {
    let escaped = desktop_exec_argument(Path::new("/tmp/Oh My$Eyes\\app"))
        .expect("path should be valid UTF-8");

    assert_eq!(escaped, "\"/tmp/Oh My\\$Eyes\\\\app\"");
    assert_eq!(quoted_argument("a\"`é"), "\"a\\\"\\`é\"");
}

#[test]
fn autostart_file_can_be_enabled_replaced_and_disabled() {
    let first = desktop_exec_argument(Path::new("/opt/Oh My Eyes/ohmyeyes")).expect("valid");
    assert!(desktop_entry(&first).contains("Exec=\"/opt/Oh My Eyes/ohmyeyes\" --background"));
    let replaced = desktop_exec_argument(Path::new("/opt/ohmyeyes")).expect("valid");
    assert!(desktop_entry(&replaced).contains("Exec=\"/opt/ohmyeyes\" --background"));
    assert_eq!(
        desktop_entry("\"x\""),
        "[Desktop Entry]\nType=Application\nVersion=1.0\nName=OhMyEyes\nComment=20-20-20 eye-break reminder\nExec=\"x\" --background\nTerminal=false\nStartupNotify=false\nX-GNOME-Autostart-enabled=true\n"
    );

    assert_eq!(disabled(Removal::Removed), Ok(()));
    assert_eq!(disabled(Removal::NotFound), Ok(()));
    assert_eq!(
        disabled(Removal::Failed("denied".to_owned())),
        Err("denied".to_owned())
    );
}
