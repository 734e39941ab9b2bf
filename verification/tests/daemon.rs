use std::path::PathBuf;

use ohmyeyes::config::Settings;
use ohmyeyes::image_asset::{load_default, DecodedImage, GifAssembly, GifFrame};
use ohmyeyes::linux_daemon::{
    forget_image, heard_command, next_wait, selected_display, Daemon, DaemonPlan, DaemonStep,
    Heard, OverlayContents,
};
use ohmyeyes::linux_wayland::NativeDisplay;
use ohmyeyes::time::Duration;
use ohmyeyes::{AppCommand, SystemPauseReason};

/// Performs plans without a compositor.
struct FakeOverlay {
    show_calls: Vec<(String, OverlayContents)>,
    hide_count: usize,
    save_count: usize,
    displays: Result<Vec<NativeDisplay>, String>,
}

impl FakeOverlay {
    fn new(displays: Vec<NativeDisplay>) -> Self {
        Self {
            show_calls: Vec::new(),
            hide_count: 0,
            save_count: 0,
            displays: Ok(displays),
        }
    }

    fn perform(&mut self, daemon: &mut Daemon, step: DaemonStep) {
        match step {
            DaemonStep::Show {
                display_id,
                contents,
            } => self.show_calls.push((display_id, contents)),
            DaemonStep::Hide => self.hide_count += 1,
            DaemonStep::Save => self.save_count += 1,
            DaemonStep::OpenSettings => {}
            DaemonStep::QueryOutputs => {
                let _ = self.refresh_displays(daemon);
            }
        }
    }

    fn process_command(&mut self, daemon: &mut Daemon, command: AppCommand) -> Result<bool, String> {
        let DaemonPlan { steps, exit } = daemon.process_command(Duration::from_secs(1), command)?;
        for step in steps {
            self.perform(daemon, step);
        }
        Ok(exit)
    }

    fn refresh_displays(&mut self, daemon: &mut Daemon) -> Result<(), String> {
        let displays = self.displays.clone()?;
        if daemon.select_output(&displays)? {
            self.save_count += 1;
        }
        if let Some(step) = daemon.adopt_outputs(displays)? {
            self.perform(daemon, step);
        }
        Ok(())
    }
}

fn display(id: &str) -> NativeDisplay {
    NativeDisplay {
        id: id.to_owned(),
        label: id.to_owned(),
    }
}

fn daemon(settings: Settings, displays: Vec<NativeDisplay>) -> Daemon {
    Daemon::new(
        settings,
        load_default().expect("default image should load"),
        displays,
    )
}

#[test]
fn display_selection_uses_configured_id_or_first_output() {
    let displays = vec![display("left"), display("right")];
    let configured = Settings {
        display_id: Some("right".to_owned()),
        ..Settings::default()
    };
    let missing = Settings {
        display_id: Some("missing".to_owned()),
        ..Settings::default()
    };

    assert_eq!(selected_display(&configured, &displays), 1);
    assert_eq!(selected_display(&missing, &displays), 0);
    assert_eq!(selected_display(&configured, &[]), 0);
    assert_eq!(selected_display(&Settings::default(), &displays), 0);
}

#[test]
fn configured_image_falls_back_and_persists_the_repair() {
    let mut settings = Settings {
        image_path: Some(PathBuf::from("missing.png")),
        interval_minutes: 7,
        ..Settings::default()
    };

    forget_image(&mut settings);

    assert_eq!(settings.image_path, None);
    assert_eq!(settings.interval_minutes, 7);
}

#[test]
fn daemon_processes_overlay_and_scheduler_commands() {
    let displays = vec![display("primary")];
    let mut overlay = FakeOverlay::new(displays.clone());
    let mut daemon = daemon(Settings::default(), displays);

    assert!(!overlay
        .process_command(&mut daemon, AppCommand::RunInBackground)
        .expect("background command should succeed"));
    assert!(!overlay
        .process_command(&mut daemon, AppCommand::SessionNotificationsReady)
        .expect("irrelevant native command should be ignored"));
    assert!(!overlay
        .process_command(&mut daemon, AppCommand::ShowNow)
        .expect("show command should succeed"));
    assert_eq!(overlay.show_calls.len(), 1);
    assert_eq!(overlay.show_calls[0].0, "primary");
    assert_eq!(overlay.show_calls[0].1.frame, 0);
    assert_eq!(overlay.show_calls[0].1.width_percent, 25);
    assert_eq!(overlay.show_calls[0].1.opacity_percent, 55);
    assert_eq!(
        overlay.show_calls[0].1.image_size,
        daemon.image().width_and_height()
    );
    assert!(!overlay
        .process_command(&mut daemon, AppCommand::ToggleReminders)
        .expect("toggle command should succeed"));
    assert!(!daemon.settings().reminders_enabled);
    assert_eq!(overlay.hide_count, 1);
    assert_eq!(overlay.save_count, 1);
    overlay.displays = Err("enumeration failed".to_owned());
    assert!(!overlay
        .process_command(&mut daemon, AppCommand::DisplayTopologyChanged)
        .expect("display errors should be contained"));
    assert!(overlay
        .process_command(&mut daemon, AppCommand::Quit)
        .expect("quit command should succeed"));
}

#[test]
fn settings_replace_the_daemon() {
    let mut daemon = daemon(Settings::default(), vec![display("primary")]);
    let plan = daemon
        .process_command(Duration::zero(), AppCommand::OpenSettings)
        .expect("settings should open");

    assert!(plan.exit);
    assert!(matches!(plan.steps[..], [DaemonStep::OpenSettings]));
    for command in [
        AppCommand::SessionNotificationsDelayed,
        AppCommand::SessionNotificationsUnavailable(5),
        AppCommand::SystemPause(SystemPauseReason::Session),
        AppCommand::SystemResume(SystemPauseReason::Power),
    ] {
        let plan = daemon
            .process_command(Duration::zero(), command)
            .expect("command should be ignored");
        assert!(plan.steps.is_empty() && !plan.exit);
    }
}

#[test]
fn display_refresh_preserves_or_repairs_selection() {
    let settings = Settings {
        display_id: Some("right".to_owned()),
        ..Settings::default()
    };
    let displays = vec![display("left"), display("right")];
    let mut overlay = FakeOverlay::new(displays.clone());
    let mut daemon = daemon(settings, displays);
    assert_eq!(daemon.selected(), 1);
    overlay
        .process_command(&mut daemon, AppCommand::ShowNow)
        .expect("overlay should be shown");
    overlay.displays = Ok(vec![display("right"), display("left")]);
    overlay
        .refresh_displays(&mut daemon)
        .expect("outputs should refresh");
    assert_eq!(daemon.selected(), 0);
    assert_eq!(daemon.settings().display_id.as_deref(), Some("right"));
    assert_eq!(overlay.show_calls.len(), 2);
    assert_eq!(overlay.save_count, 0);

    overlay.displays = Ok(vec![display("replacement")]);
    overlay
        .refresh_displays(&mut daemon)
        .expect("missing output should be repaired");
    assert_eq!(daemon.settings().display_id.as_deref(), Some("replacement"));
    assert_eq!(overlay.save_count, 1);

    overlay.displays = Ok(Vec::new());
    assert_eq!(
        overlay
            .refresh_displays(&mut daemon)
            .expect_err("empty outputs should fail"),
        "Wayland compositor reported no outputs"
    );
}

#[test]
fn event_loop_handles_pending_error_and_quit() {
    let mut daemon = daemon(Settings::default(), vec![display("primary")]);

    assert!(daemon
        .tick(Duration::zero())
        .expect("nothing is due")
        .is_empty());
    let (step, rest) = daemon
        .update_animation(Duration::zero())
        .expect("static image is valid");
    assert!(step.is_none());
    assert_eq!(rest, None);
    assert_eq!(
        heard_command(Heard::Command(AppCommand::Quit)),
        Ok(Some(AppCommand::Quit))
    );
    assert!(
        daemon
            .process_command(Duration::zero(), AppCommand::Quit)
            .expect("queued quit should stop the loop")
            .exit
    );
}

#[test]
fn event_loop_reports_disconnected_command_channel() {
    assert_eq!(
        heard_command(Heard::Disconnected)
            .expect_err("disconnected channel should stop the loop"),
        "daemon command channel disconnected"
    );
    assert_eq!(heard_command(Heard::Silence), Ok(None));
}

#[test]
fn daemon_wait_uses_the_earliest_bounded_deadline() {
    let poll = Duration::from_secs(1);
    assert_eq!(
        next_wait(
            Some(Duration::from_millis(800)),
            Some(Duration::from_millis(20))
        ),
        Duration::from_millis(20)
    );
    assert_eq!(
        next_wait(Some(Duration::from_millis(30)), None),
        Duration::from_millis(30)
    );
    assert_eq!(
        next_wait(None, Some(Duration::from_millis(40))),
        Duration::from_millis(40)
    );
    assert_eq!(next_wait(None, None), poll);
    assert_eq!(next_wait(Some(Duration::from_secs(20)), None), poll);
}

#[test]
fn showing_without_a_display_is_reported() {
    let mut overlay = FakeOverlay::new(Vec::new());
    let mut daemon = daemon(Settings::default(), Vec::new());

    assert_eq!(
        overlay
            .process_command(&mut daemon, AppCommand::ShowNow)
            .expect_err("showing without outputs should fail"),
        "Wayland compositor reported no usable output"
    );
}

fn moving_image() -> DecodedImage {
    let frame = |shade| {
        Ok(GifFrame {
            numerator: 100,
            denominator: 1,
            width: 1,
            height: 1,
            rgba: vec![shade, 0, 0, 255],
        })
    };
    GifAssembly::new(1, 1)
        .with_frame(frame(1))
        .and_then(|assembly| assembly.with_frame(frame(2)))
        .and_then(|assembly| assembly.finish())
        .expect("frames should fit")
}

#[test]
fn reminders_come_and_go_with_time() {
    let settings = Settings {
        interval_minutes: 1,
        duration_seconds: 2,
        ..Settings::default()
    };
    let mut daemon = Daemon::new(settings, moving_image(), vec![display("primary")]);

    assert!(daemon.has_room(Duration::from_secs(60)));
    assert!(!daemon.has_room(Duration::longest()));
    let nothing = daemon.tick(Duration::from_millis(59_999));
    assert!(nothing.expect("nothing is due").is_empty());
    assert_eq!(
        daemon.wait_at(Duration::from_millis(59_999), None),
        Duration::from_millis(1)
    );
    let shown = daemon.tick(Duration::from_secs(60)).expect("reminder is due");
    assert!(matches!(&shown[..], [DaemonStep::Show { display_id, .. }] if display_id == "primary"));

    let (step, rest) = daemon
        .update_animation(Duration::from_millis(60_030))
        .expect("animation runs");
    assert!(step.is_none());
    assert_eq!(rest, Some(Duration::from_millis(70)));
    let (step, rest) = daemon
        .update_animation(Duration::from_millis(60_100))
        .expect("animation runs");
    assert!(matches!(
        step,
        Some(DaemonStep::Show { contents, .. }) if contents.frame == 1
    ));
    assert_eq!(rest, Some(Duration::from_millis(100)));

    let hidden = daemon.tick(Duration::from_secs(62)).expect("reminder is over");
    assert!(matches!(hidden[..], [DaemonStep::Hide]));
}
