use std::path::PathBuf;

use ohmyeyes::app::{match_display, Match};
use ohmyeyes::app_startup::{join_texts, Startup};
use ohmyeyes::app_state::{
    append_status, pause_reason_mask, AppCore, AppStep, DisplayInfo, Platform,
};
use ohmyeyes::config::{LoadedSettings, NormalizedPosition, ResumePolicy, Settings};
use ohmyeyes::image_asset::{load_default, DecodedImage, GifAssembly, GifFrame};
use ohmyeyes::ipc::{encode_command, receive, Received};
use ohmyeyes::launch::{
    command_for_running_instance, parse_arguments, retry_lock, takeover_patience, LaunchOptions,
};
use ohmyeyes::monitors::{enumerate_displays, Monitor};
use ohmyeyes::time::Duration;
use ohmyeyes::{linux_wayland, windows, AppCommand, SystemPauseReason};

fn display(id: &str) -> DisplayInfo {
    DisplayInfo::from_wayland(linux_wayland::NativeDisplay {
        id: id.to_owned(),
        label: format!("Label of {id}"),
    })
}

fn legacy_display(id: &str, legacy_id: &str) -> DisplayInfo {
    DisplayInfo::from_windows(windows::NativeDisplay {
        id: id.to_owned(),
        legacy_id: legacy_id.to_owned(),
        label: String::new(),
        left: 1,
        top: 2,
        width: 3,
        height: 4,
    })
}

fn loaded(settings: Settings) -> Result<LoadedSettings, String> {
    Ok(LoadedSettings {
        settings,
        warnings: Vec::new(),
    })
}

fn app_with(platform: Platform, settings: Settings, image: DecodedImage) -> AppCore {
    let mut startup = Startup::begin(platform, loaded(settings));
    assert!(!startup.displays_found(Ok(vec![display("left"), display("right")])));
    if platform == Platform::Windows {
        startup.overlay_created(Ok(()));
    }
    startup.finish(image, false)
}

fn app(platform: Platform) -> AppCore {
    app_with(
        platform,
        Settings::default(),
        load_default().expect("bundled eye should decode"),
    )
}

/// Steps by their debug text, without what they carry.
fn names(steps: &[AppStep]) -> Vec<String> {
    steps
        .iter()
        .map(|step| match step {
            AppStep::Window(command) => format!("{command:?}"),
            AppStep::ShowOverlay { display, contents } => {
                format!("ShowOverlay {display} {}", contents.frame)
            }
            AppStep::UpdatePreview { frame } => format!("UpdatePreview {frame}"),
            AppStep::AppendStatus(message) => format!("Append {message}"),
            AppStep::RepaintAfter(wait) => format!("RepaintAfter {}", wait.as_millis()),
            other => format!("{other:?}"),
        })
        .collect()
}

fn secs(secs: u64) -> Duration {
    Duration::from_secs(secs)
}

#[test]
fn status_messages_are_appended_without_losing_context() {
    let mut status = None;

    append_status(&mut status, "first".to_owned());
    append_status(&mut status, "second".to_owned());

    assert_eq!(status.as_deref(), Some("first; second"));
}

#[test]
fn system_pause_reasons_use_independent_mask_bits() {
    let power = pause_reason_mask(SystemPauseReason::Power);
    let session = pause_reason_mask(SystemPauseReason::Session);

    assert_ne!(power, 0);
    assert_ne!(session, 0);
    assert_eq!(power & session, 0);
    assert_eq!((power | session) & !power, session);
}

#[test]
fn reminders_are_shown_and_hidden_in_time() {
    let mut app = app(Platform::Linux);
    let mut steps = Vec::new();
    app.tick(&mut steps, secs(1_199));
    assert!(steps.is_empty());
    app.tick(&mut steps, secs(1_200));
    assert_eq!(names(&steps), ["ShowOverlay 0 0"]);
    assert_eq!(
        app.wake_after(secs(1_200), None),
        Some(Duration::from_secs(20))
    );
    steps.clear();
    app.tick(&mut steps, secs(1_220));
    assert_eq!(names(&steps), ["HideOverlay"]);
    assert!(!app.is_showing());
}

#[test]
fn settings_open_and_close() {
    let mut windows = app(Platform::Windows);
    assert_eq!(names(&windows.close_requested()), ["CancelClose", "Visible(false)"]);
    assert!(!windows.is_settings_open());
    assert!(windows.close_requested().is_empty());
    let steps = windows.process_command(secs(1), AppCommand::OpenSettings);
    assert_eq!(
        names(&steps),
        [
            "UpdatePreview 0",
            "Visible(true)",
            "Fullscreen(false)",
            "Decorations(true)",
            "MousePassthrough(false)",
            "NormalLevel",
            "SettingsSize",
            "Focus"
        ]
    );
    let mut steps = Vec::new();
    windows.initialize_settings_window(&mut steps);
    assert!(steps.is_empty());
    assert_eq!(
        names(&windows.process_command(secs(1), AppCommand::RunInBackground)),
        ["Visible(false)"]
    );

    let mut linux = app(Platform::Linux);
    assert_eq!(
        names(&linux.close_requested()),
        ["CancelClose", "SpawnBackground"]
    );
    assert!(linux.background_spawned(Err("busy".to_owned())).is_empty());
    assert_eq!(
        linux.status().as_deref(),
        Some("Could not continue in background: busy")
    );
    assert_eq!(
        names(&linux.process_command(secs(1), AppCommand::RunInBackground)),
        ["SpawnBackground"]
    );
    assert_eq!(names(&linux.background_spawned(Ok(()))), ["Close"]);
    assert!(linux.is_quitting());
    assert!(linux.close_requested().is_empty());
}

#[test]
fn windows_without_overlays_of_their_own_stay_unseen() {
    let mut app = app(Platform::Other);
    app.close_requested();
    let shown = app.process_command(secs(1), AppCommand::ShowNow);
    assert_eq!(
        names(&shown),
        [
            "Repaint",
            "Fullscreen(false)",
            "Decorations(false)",
            "MousePassthrough(true)",
            "NormalLevel",
            "ControllerSize",
            "OffscreenPosition",
            "Visible(true)"
        ]
    );
    let opened = app.process_command(secs(2), AppCommand::OpenSettings);
    assert_eq!(
        names(&opened)[..8],
        [
            "UpdatePreview 0",
            "Fullscreen(false)",
            "Decorations(true)",
            "MousePassthrough(false)",
            "NormalLevel",
            "SettingsSize",
            "SettingsPosition",
            "Focus"
        ]
    );
    assert_eq!(
        names(&app.process_command(secs(3), AppCommand::RunInBackground)),
        [
            "Fullscreen(false)",
            "Decorations(false)",
            "MousePassthrough(true)",
            "NormalLevel",
            "ControllerSize",
            "OffscreenPosition"
        ]
    );
    let mut steps = Vec::new();
    app.tick(&mut steps, secs(30));
    assert_eq!(names(&steps), ["CloseOverlayViewport", "Visible(false)"]);
    assert!(app
        .process_command(secs(31), AppCommand::DisplayTopologyChanged)
        .is_empty());
}

#[test]
fn toggling_reminders_hides_saves_and_checks() {
    let mut app = app(Platform::Windows);
    app.tray_created(Ok(()));
    app.process_command(secs(1), AppCommand::ShowNow);
    let steps = app.process_command(secs(2), AppCommand::ToggleReminders);
    assert_eq!(
        names(&steps),
        ["HideOverlay", "Save", "CheckTrayItem(false)"]
    );
    assert!(!app.settings().reminders_enabled);
    assert_eq!(app.settings().display_id.as_deref(), Some("left"));
    app.saved(Ok(()));
    assert_eq!(app.status().as_deref(), Some("Settings saved"));
    app.saved(Err("disk full".to_owned()));
    assert_eq!(
        app.status().as_deref(),
        Some("Could not save settings: disk full")
    );
    let steps = app.process_command(secs(3), AppCommand::ToggleReminders);
    assert_eq!(names(&steps), ["Save", "CheckTrayItem(true)"]);
    assert!(app.settings().reminders_enabled);
}

#[test]
fn breaks_last_until_the_last_reason_is_gone() {
    let settings = Settings {
        resume_policy: ResumePolicy::Continue,
        ..Settings::default()
    };
    let image = load_default().expect("bundled eye should decode");
    let mut app = app_with(Platform::Windows, settings, image);
    let power = SystemPauseReason::Power;
    let session = SystemPauseReason::Session;
    assert!(app
        .process_command(secs(200), AppCommand::SystemPause(power))
        .is_empty());
    assert!(app
        .process_command(secs(300), AppCommand::SystemPause(session))
        .is_empty());
    assert_eq!(app.wake_after(secs(300), None), None);
    app.process_command(secs(400), AppCommand::SystemResume(power));
    assert_eq!(app.wake_after(secs(400), None), None);
    assert!(app
        .process_command(secs(450), AppCommand::ShowNow)
        .is_empty());
    app.process_command(secs(500), AppCommand::SystemResume(session));
    assert_eq!(app.wake_after(secs(500), None), Some(secs(1_000)));
}

#[test]
fn session_notifications_are_reported() {
    let mut app = app(Platform::Windows);
    app.process_command(secs(1), AppCommand::SessionNotificationsDelayed);
    assert_eq!(
        app.session_status().as_deref(),
        Some("Waiting for Windows lock and unlock notifications...")
    );
    app.process_command(secs(1), AppCommand::SessionNotificationsUnavailable(2));
    assert_eq!(
        app.session_status().clone(),
        Some(format!(
            "Lock and unlock monitoring is unavailable: {}",
            std::io::Error::from_raw_os_error(2)
        ))
    );
    app.process_command(secs(1), AppCommand::SessionNotificationsReady);
    assert_eq!(app.session_status(), &None);
}

#[test]
fn displays_are_followed_on_windows() {
    let mut app = app(Platform::Windows);
    assert_eq!(
        names(&app.process_command(secs(1), AppCommand::DisplayTopologyChanged)),
        ["EnumerateDisplays"]
    );
    assert!(app
        .displays_enumerated(Err("no access".to_owned()))
        .is_empty());
    assert_eq!(
        app.status().as_deref(),
        Some("Could not refresh displays: no access")
    );
    let steps = app.displays_enumerated(Ok(vec![display("right"), display("left")]));
    assert!(steps.is_empty());
    assert_eq!(app.selected(), 1);
    let steps = app.displays_enumerated(Ok(vec![
        display("other"),
        legacy_display("new-left", "left"),
    ]));
    assert_eq!(names(&steps), ["Save"]);
    assert_eq!(app.selected(), 1);
    assert_eq!(app.settings().display_id.as_deref(), Some("new-left"));
    app.process_command(secs(1), AppCommand::ShowNow);
    let steps = app.displays_enumerated(Ok(vec![display("third")]));
    assert_eq!(
        names(&steps),
        [
            "Save",
            "Append Selected display was disconnected; switched to the primary display",
            "ShowOverlay 0 0"
        ]
    );
    assert_eq!(app.settings().display_id.as_deref(), Some("third"));
    let steps = app.displays_enumerated(Ok(Vec::new()));
    assert_eq!(names(&steps).len(), 2);
    assert_eq!(app.displays().len(), 0);
}

#[test]
fn outputs_are_followed_on_linux() {
    let mut app = app(Platform::Linux);
    assert_eq!(
        names(&app.process_command(secs(1), AppCommand::DisplayTopologyChanged)),
        ["EnumerateDisplays"]
    );
    assert!(app.displays_enumerated(Ok(Vec::new())).is_empty());
    assert!(app.displays_enumerated(Err("timeout".to_owned())).is_empty());
    assert_eq!(
        app.status().as_deref(),
        Some(
            "Wayland compositor reported no outputs; Could not refresh Wayland outputs: timeout"
        )
    );
    let steps = app.displays_enumerated(Ok(vec![legacy_display("new-left", "left")]));
    assert_eq!(
        names(&steps),
        [
            "Save",
            "Append Selected output was disconnected; switched to the first available output"
        ]
    );
}

#[test]
fn failures_of_the_overlay_are_reported() {
    let mut windows = app(Platform::Windows);
    windows.overlay_not_shown("a");
    assert_eq!(
        windows.status().as_deref(),
        Some("Could not show reminder overlay: a")
    );
    windows.overlay_not_hidden("b");
    assert_eq!(
        windows.status().as_deref(),
        Some("Could not hide reminder overlay: b")
    );
    windows.overlay_not_rendered("c");
    assert_eq!(
        windows.status().as_deref(),
        Some("Could not hide reminder overlay: b; Could not render reminder overlay: c")
    );
    let mut linux = app(Platform::Linux);
    linux.overlay_not_shown("a");
    assert_eq!(
        linux.status().as_deref(),
        Some("Could not show Wayland reminder overlay: a")
    );
    linux.overlay_not_hidden("b");
    linux.overlay_not_rendered("c");
    assert_eq!(
        linux.status().as_deref(),
        Some("Could not hide Wayland reminder overlay: b; Could not render Wayland reminder overlay: c")
    );
}

#[test]
fn edits_are_saved_after_a_rest() {
    let mut app = app(Platform::Linux);
    let edited = Settings {
        interval_minutes: 5,
        ..Settings::default()
    };
    assert!(app.has_room_for(secs(10), &edited));
    assert!(app.has_room(secs(10)));
    let steps = app.settings_edited(secs(10), edited, 1, true, false);
    assert_eq!(names(&steps), ["RepaintAfter 500"]);
    assert_eq!(app.wake_after(secs(10), None), Some(secs(300)));
    let mut steps = Vec::new();
    app.flush_settings_save_if_due(&mut steps, Duration::from_millis(10_400));
    assert_eq!(names(&steps), ["RepaintAfter 100"]);
    steps.clear();
    app.flush_settings_save_if_due(&mut steps, Duration::from_millis(10_500));
    assert_eq!(names(&steps), ["Save"]);
    assert_eq!(app.settings().display_id.as_deref(), Some("right"));
    steps.clear();
    app.flush_settings_save_if_due(&mut steps, secs(60));
    assert!(steps.is_empty());

    app.process_command(secs(60), AppCommand::ShowNow);
    let faint = Settings {
        opacity_percent: 9,
        ..app.settings().clone()
    };
    let steps = app.settings_edited(secs(61), faint, 1, false, true);
    assert_eq!(names(&steps), ["RepaintAfter 500", "ShowOverlay 1 0"]);
    assert_eq!(
        names(&app.process_command(secs(61), AppCommand::Quit)),
        ["Save", "Close"]
    );
    assert_eq!(names(&app.request_quit()), ["Close"]);
}

#[test]
fn positions_are_taken_over() {
    let mut app = app(Platform::Linux);
    app.process_command(secs(1), AppCommand::ShowNow);
    let steps = app.position_chosen(secs(1), NormalizedPosition::default());
    assert_eq!(names(&steps), ["RepaintAfter 500", "ShowOverlay 0 0"]);
}

fn moving_image() -> DecodedImage {
    let frame = |shade| {
        Ok(GifFrame {
            numerator: 100,
            denominator: 1,
            width: 1,
            height: 1,
            rgba: vec![shade, 0, 0, 255],
        })
    };
    GifAssembly::new(1, 1)
        .with_frame(frame(1))
        .and_then(|assembly| assembly.with_frame(frame(2)))
        .and_then(|assembly| assembly.finish())
        .expect("frames should fit")
}

#[test]
fn animations_move_overlay_and_preview() {
    let mut app = app_with(Platform::Linux, Settings::default(), moving_image());
    let mut steps = Vec::new();
    assert_eq!(app.update_animation(&mut steps, secs(1)), None);
    app.process_command(secs(1), AppCommand::ShowNow);
    assert_eq!(
        app.update_animation(&mut steps, Duration::from_millis(1_130)),
        Some(Duration::from_millis(70))
    );
    assert_eq!(names(&steps), ["UpdatePreview 1", "ShowOverlay 0 1"]);
    assert_eq!(
        app.wake_after(
            Duration::from_millis(1_130),
            Some(Duration::from_millis(70))
        ),
        Some(Duration::from_millis(70))
    );
    assert_eq!(
        app.wake_after(
            Duration::from_millis(1_130),
            Some(Duration::from_millis(7))
        ),
        Some(Duration::from_millis(50))
    );
    steps.clear();
    app.update_animation(&mut steps, Duration::from_millis(1_150));
    assert!(steps.is_empty());
    assert_eq!(
        names(&app.process_command(Duration::from_millis(1_150), AppCommand::ShowNow)),
        ["UpdatePreview 0", "ShowOverlay 0 0"]
    );
}

#[test]
fn images_are_chosen() {
    let mut app = app(Platform::Linux);
    let steps = app.image_chosen(moving_image(), Some(PathBuf::from("moving.gif")));
    assert_eq!(names(&steps), ["UpdatePreview 0", "Save", "Repaint"]);
    assert_eq!(app.settings().image_path, Some(PathBuf::from("moving.gif")));
    assert_eq!(app.image().width_and_height(), (1, 1));
    app.image_not_loaded("broken");
    assert_eq!(app.status().as_deref(), Some("Could not load image: broken"));
    let image = load_default().expect("bundled eye should decode");
    app.image_chosen(image, None);
    assert_eq!(app.settings().image_path, None);
}

#[test]
fn system_settings_take_effect() {
    let mut app = app(Platform::Windows);
    let with_tray = Settings {
        show_tray_icon: true,
        start_at_login: true,
        ..Settings::default()
    };
    app.settings_edited(secs(1), with_tray, 0, false, false);
    let steps = app.apply_system_settings(Ok(()));
    assert_eq!(names(&steps), ["CreateTray(true)", "Save"]);
    app.tray_created(Err("no shell".to_owned()));
    assert_eq!(
        app.status().as_deref(),
        Some("Could not create tray icon: no shell")
    );
    app.tray_created(Ok(()));
    let steps = app.apply_system_settings(Err("denied".to_owned()));
    assert_eq!(names(&steps), ["Save"]);
    assert_eq!(
        app.status().as_deref(),
        Some("Could not update start at login: denied")
    );
    assert!(!app.settings().start_at_login);
    app.settings_edited(secs(1), Settings::default(), 0, false, false);
    assert_eq!(
        names(&app.apply_system_settings(Ok(()))),
        ["RemoveTray", "Save"]
    );
    let mut steps = Vec::new();
    let mut linux = self::app(Platform::Linux);
    linux.refresh_tray(&mut steps);
    assert!(steps.is_empty());
}

#[test]
fn starts_report_what_is_amiss() {
    let image = || load_default().expect("bundled eye should decode");
    let mut startup = Startup::begin(Platform::Windows, Err("damaged".to_owned()));
    startup.image_not_loaded("C:/eye.png", "gone");
    startup.image_reset_not_saved("locked");
    assert!(!startup.displays_found(Err("no driver".to_owned())));
    startup.activation_unavailable("in use");
    startup.session_unavailable("no service");
    let app = startup.finish(image(), true);
    assert_eq!(
        app.status().as_deref(),
        Some("Could not load settings: damaged; Could not load C:/eye.png: gone; using bundled eye; Could not clear invalid image setting: locked; Could not enumerate displays: no driver; Single-instance activation is unavailable: in use")
    );
    assert_eq!(
        app.session_status().as_deref(),
        Some("Lock and unlock monitoring is unavailable: no service")
    );
    assert!(app.is_settings_open());
    assert_eq!(app.settings(), &Settings::default());

    let mut startup = Startup::begin(Platform::Linux, loaded(Settings::default()));
    assert!(!startup.displays_found(Err("no layers".to_owned())));
    let app = startup.finish(image(), true);
    assert_eq!(
        app.status().as_deref(),
        Some("Could not create Wayland reminder overlay: no layers")
    );
    assert!(app.is_settings_open());

    let mut startup = Startup::begin(Platform::Windows, loaded(Settings::default()));
    assert!(!startup.displays_found(Ok(vec![display("only")])));
    startup.overlay_created(Err("no window".to_owned()));
    let app = startup.finish(image(), true);
    assert_eq!(
        app.status().as_deref(),
        Some("Could not create reminder overlay: no window")
    );
    assert!(app.is_settings_open());
}

#[test]
fn quiet_starts_stay_in_the_background() {
    let warned = LoadedSettings::from_file(Settings {
        interval_minutes: 0,
        duration_seconds: 0,
        display_id: Some("old".to_owned()),
        ..Settings::default()
    });
    let mut startup = Startup::begin(Platform::Windows, Ok(warned));
    assert!(startup.displays_found(Ok(vec![display("first"), legacy_display("new", "old")])));
    assert_eq!(startup.settings().display_id.as_deref(), Some("new"));
    startup.migration_not_saved("full");
    startup.overlay_created(Ok(()));
    let app = startup.finish(load_default().expect("bundled eye should decode"), true);
    assert_eq!(
        app.status().as_deref(),
        Some("interval_minutes was outside its supported range and was clamped; duration_seconds was outside its supported range and was clamped; Could not migrate the selected display identifier: full")
    );
    assert_eq!(app.selected(), 1);
    assert!(!app.is_settings_open());
    assert_eq!(app.platform(), Platform::Windows);
    assert_eq!(join_texts(&[]), "");
}

#[test]
fn displays_are_matched_by_platform() {
    let displays = [display("a"), legacy_display("b", "old")];
    let id = |id: &str| Some(id.to_owned());
    assert_eq!(
        match_display(Platform::Windows, &displays, &id("b")),
        (1, Match::Exact)
    );
    assert_eq!(
        match_display(Platform::Windows, &displays, &id("old")),
        (1, Match::Legacy)
    );
    assert_eq!(
        match_display(Platform::Linux, &displays, &id("old")),
        (0, Match::Missing)
    );
    assert_eq!(
        match_display(Platform::Linux, &displays, &None),
        (0, Match::Unspecified)
    );
}

#[test]
fn arguments_say_how_to_start() {
    let parse = |platform: Platform, arguments: &[&str]| {
        let arguments: Vec<String> = arguments.iter().map(|text| text.to_string()).collect();
        parse_arguments(&arguments, platform)
    };
    let plain = LaunchOptions {
        show_now: false,
        background: false,
        takeover: false,
    };
    assert_eq!(parse(Platform::Linux, &["ohmyeyes"]), plain);
    assert_eq!(
        parse(Platform::Linux, &["ohmyeyes", "--background-takeover"]),
        LaunchOptions {
            background: true,
            takeover: true,
            ..plain
        }
    );
    assert_eq!(
        parse(Platform::Linux, &["ohmyeyes", "--foreground-takeover"]),
        LaunchOptions {
            takeover: true,
            ..plain
        }
    );
    assert_eq!(
        parse(Platform::Windows, &["x", "--background-takeover"]),
        plain
    );
    let both = parse(Platform::Windows, &["x", "--show-now", "--background"]);
    assert!(both.show_now && both.background);
    assert_eq!(
        command_for_running_instance(both),
        AppCommand::RunInBackground
    );
    assert_eq!(
        command_for_running_instance(parse(Platform::Linux, &["--show-now"])),
        AppCommand::ShowNow
    );
    assert_eq!(
        command_for_running_instance(plain),
        AppCommand::OpenSettings
    );
    let patience = takeover_patience();
    assert_eq!(patience, secs(3));
    assert_eq!(
        retry_lock(true, secs(2), patience),
        Some(Duration::from_millis(25))
    );
    assert_eq!(retry_lock(true, secs(3), patience), None);
    assert_eq!(retry_lock(false, secs(2), patience), None);
}

#[test]
fn monitors_of_the_toolkit_become_displays() {
    let monitors = [
        Monitor {
            name: Some("Built-in".to_owned()),
            size: (2_560, 1_600),
            position: (0, 0),
        },
        Monitor {
            name: None,
            size: (1_920, 1_080),
            position: (-1_920, 40),
        },
    ];
    let displays = enumerate_displays(&monitors);
    assert_eq!(displays.len(), 2);
    assert_eq!(displays[0].id, "Built-in:2560x1600@0,0");
    assert_eq!(displays[0].label, "Built-in (2560 x 1600)");
    assert_eq!(displays[1].id, "Display 2:1920x1080@-1920,40");
    assert_eq!(displays[1].legacy_id, displays[1].id);
    assert_eq!(displays[1].label, "Display 2 (1920 x 1080)");
    assert_eq!((displays[1].left, displays[1].top), (-1_920, 40));
    assert_eq!((displays[1].width, displays[1].height), (1_920, 1_080));

    let primary = enumerate_displays(&[]);
    assert_eq!(primary.len(), 1);
    assert_eq!(primary[0].id, "primary");
    assert_eq!(primary[0].label, "Primary display");
}

#[test]
fn a_second_launch_reaches_the_running_instance() {
    let sent = |show_now: bool| {
        let command = command_for_running_instance(LaunchOptions {
            show_now,
            background: false,
            takeover: false,
        });
        match receive(encode_command(command)) {
            Received::Command(command) => command,
            other => panic!("{other:?} is no command"),
        }
    };
    let mut app = app(Platform::Windows);
    app.close_requested();
    let steps = app.process_command(secs(1), sent(false));
    assert!(app.is_settings_open());
    assert!(!app.is_showing());
    assert_eq!(names(&steps).last().map(String::as_str), Some("Focus"));
    let steps = app.process_command(secs(2), sent(true));
    assert_eq!(names(&steps), ["ShowOverlay 0 0"]);
    assert!(app.is_showing());
}

#[test]
fn waiting_edits_are_saved_before_the_settings_close() {
    let mut app = app(Platform::Linux);
    app.position_chosen(secs(1), NormalizedPosition::default());
    assert_eq!(
        names(&app.close_requested()),
        ["CancelClose", "Save", "SpawnBackground"]
    );
    assert_eq!(app.wake_after(secs(2), None), Some(secs(1_198)));
}

fn placed(id: &str, left: i32, top: i32, width: u32, height: u32) -> DisplayInfo {
    DisplayInfo::from_windows(windows::NativeDisplay {
        id: id.to_owned(),
        legacy_id: format!("legacy {id}"),
        label: format!("{id} ({width} x {height})"),
        left,
        top,
        width,
        height,
    })
}

fn rectangles(displays: &[DisplayInfo]) -> Vec<(i32, i32, u32, u32)> {
    displays
        .iter()
        .map(|display| (display.left, display.top, display.width, display.height))
        .collect()
}

#[test]
fn displays_keep_their_places_and_labels() {
    let mut startup = Startup::begin(Platform::Windows, loaded(Settings::default()));
    startup.displays_found(Ok(vec![
        placed("main", 0, 0, 1_920, 1_080),
        placed("side", 1_920, -200, 1_080, 1_920),
    ]));
    startup.overlay_created(Ok(()));
    let eye = load_default().expect("bundled eye should decode");
    let mut app = startup.finish(eye, false);
    assert_eq!(
        rectangles(app.displays()),
        [(0, 0, 1_920, 1_080), (1_920, -200, 1_080, 1_920)]
    );
    assert_eq!(app.displays()[1].label, "side (1080 x 1920)");
    assert_eq!(app.displays()[1].legacy_id, "legacy side");

    app.process_command(secs(1), AppCommand::ShowNow);
    let steps = app.displays_enumerated(Ok(vec![
        placed("side", -1_080, 3, 1_080, 1_920),
        placed("main", 0, 0, 3_840, 2_160),
    ]));
    assert_eq!(names(&steps), ["ShowOverlay 1 0"]);
    assert_eq!(
        rectangles(app.displays()),
        [(-1_080, 3, 1_080, 1_920), (0, 0, 3_840, 2_160)]
    );
    assert_eq!(app.displays()[1].label, "main (3840 x 2160)");
}
