use std::io;
use std::path::Path;
use std::sync::Arc;

use ohmyeyes::binary_float::Single;
use ohmyeyes::image_asset::load_default;
use ohmyeyes::windows::{
    add_target, describe_monitor, display_dimensions, error_code, finish_enumeration, launch_path,
    path_query, registration, should_retry_session_registration, source_name, system_event_command,
    tray_command, wide_string, DisplayIdentities, PathQuery, Rect, SessionMonitor, SessionRegistration,
    SessionStep, RPC_S_INVALID_BINDING_CODE,
};
use ohmyeyes::windows_overlay::{
    bitmap_fits, can_render, check_pixel_length, overlay_surface_length, render_overlay_surface,
    render_scaled_image, scaled_overlay_size, OverlayCommand, OverlayFrame, OverlayMailbox, OverlayPlacement,
};
use ohmyeyes::{AppCommand, SystemPauseReason};

fn at(x: f32, y: f32) -> [Single; 2] {
    [Single { bits: x.to_bits() }, Single { bits: y.to_bits() }]
}

fn wide(text: &str) -> Vec<u16> {
    text.encode_utf16().chain([0, b'?' as u16]).collect()
}

#[test]
fn tall_overlay_image_is_scaled_to_fit_monitor_height() {
    let frame = overlay_frame([1, 4_096]);

    assert_eq!(scaled_overlay_size(&frame), (1, 1_080));
}

#[test]
fn normal_overlay_image_uses_configured_monitor_width() {
    let frame = overlay_frame([400, 200]);

    assert_eq!(scaled_overlay_size(&frame), (480, 240));
}

#[test]
fn wide_overlay_image_keeps_at_least_one_pixel_of_height() {
    let frame = overlay_frame([4_096, 1]);

    assert_eq!(scaled_overlay_size(&frame), (480, 1));
}

#[test]
fn zero_width_percentage_is_defensive_even_before_settings_normalization() {
    let mut frame = overlay_frame([400, 200]);
    frame.width_percent = 0;

    assert_eq!(scaled_overlay_size(&frame), (1, 1));
}

#[test]
fn matching_aspect_ratio_can_fill_the_monitor() {
    let mut frame = overlay_frame([1_920, 1_080]);
    frame.width_percent = 100;

    assert_eq!(scaled_overlay_size(&frame), (1_920, 1_080));
}

#[test]
fn excessive_width_percentage_and_large_monitor_do_not_overflow() {
    let mut frame = overlay_frame([1, 1]);
    frame.width = u32::MAX;
    frame.width_percent = u8::MAX;

    let (width, height) = scaled_overlay_size(&frame);

    assert_eq!(width, frame.height);
    assert_eq!(height, frame.height);
}

#[test]
fn display_dimensions_support_negative_origins_and_reject_overflow() {
    let secondary = Rect {
        left: -1_920,
        top: -1_080,
        right: 0,
        bottom: 0,
    };
    let overflowing = Rect {
        left: i32::MIN,
        top: 0,
        right: i32::MAX,
        bottom: 1,
    };

    assert_eq!(display_dimensions(&secondary), Some((1_920, 1_080)));
    assert_eq!(display_dimensions(&overflowing), None);
    assert_eq!(
        display_dimensions(&Rect {
            left: 10,
            top: 0,
            right: 10,
            bottom: 1,
        }),
        None
    );
}

#[test]
fn overlay_surface_allocation_is_bounded() {
    assert_eq!(overlay_surface_length(1_920, 1_080), Ok(8_294_400));
    assert!(overlay_surface_length(16_384, 16_384).is_err());
}

#[test]
fn rendered_surface_uses_only_the_visible_image_bounds() {
    let mut frame = overlay_frame([400, 200]);
    frame.image_rgba = vec![255; 400 * 200 * 4].into();
    let mut pixels = Vec::new();

    let surface = render_overlay_surface(&frame, &mut pixels).expect("surface should render");

    assert_eq!((surface.left, surface.top), (720, 420));
    assert_eq!((surface.width, surface.height), (480, 240));
    assert_eq!(pixels.len(), 480 * 240 * 4);
    let allocation = pixels.as_ptr();
    render_overlay_surface(&frame, &mut pixels).expect("surface should render again");
    assert_eq!(pixels.as_ptr(), allocation);
}

#[test]
fn rendered_surface_clips_at_the_selected_display_edge() {
    let mut frame = overlay_frame([400, 200]);
    frame.position = at(0.0, 0.0);
    frame.image_rgba = vec![255; 400 * 200 * 4].into();
    let mut pixels = Vec::new();

    let surface = render_overlay_surface(&frame, &mut pixels).expect("surface should render");

    assert_eq!((surface.left, surface.top), (0, 0));
    assert_eq!((surface.width, surface.height), (240, 120));
}

#[test]
fn rendered_surface_is_premultiplied_bgra() {
    let mut frame = overlay_frame([1, 1]);
    frame.width = 2;
    frame.height = 2;
    frame.width_percent = 50;
    frame.opacity_percent = u8::MAX;
    frame.image_rgba = Arc::from([100, 50, 25, 128]);
    let mut pixels = Vec::new();

    let surface = render_overlay_surface(&frame, &mut pixels).expect("surface should render");

    assert_eq!((surface.left, surface.top), (1, 1));
    assert_eq!((surface.width, surface.height), (1, 1));
    assert_eq!(pixels, [12, 25, 50, 128]);
}

#[test]
fn bundled_eye_produces_visible_native_overlay_pixels() {
    let image = load_default().expect("bundled eye should decode");
    let mut frame = overlay_frame(image.size);
    frame.image_rgba = Arc::clone(&image.frame_or_first(0).rgba);
    let mut pixels = Vec::new();

    render_overlay_surface(&frame, &mut pixels).expect("surface should render");

    assert!(pixels.chunks_exact(4).any(|pixel| pixel[3] > 0));
    assert!(pixels.len() < frame.width as usize * frame.height as usize * 4);
    assert!(pixels
        .chunks_exact(4)
        .all(|pixel| pixel[0] <= pixel[3] && pixel[1] <= pixel[3] && pixel[2] <= pixel[3]));
}

#[test]
fn rendered_surface_rejects_invalid_pixel_buffer() {
    let frame = overlay_frame([1, 1]);
    let mut pixels = Vec::new();

    let error =
        render_overlay_surface(&frame, &mut pixels).expect_err("empty pixels should be rejected");

    assert_eq!(error, "image pixel buffer has an invalid length");
}

#[test]
fn clipped_surfaces_show_the_right_part_of_the_image() {
    let mut frame = overlay_frame([4, 2]);
    frame.left = -7;
    frame.top = 5;
    frame.width = 4;
    frame.height = 4;
    frame.width_percent = 100;
    frame.opacity_percent = 100;
    frame.position = at(0.0, 1.0);
    let rgba: Vec<u8> = (0..8_u8).flat_map(|pixel| [pixel, 0, 0, 255]).collect();
    frame.image_rgba = rgba.into();
    let mut pixels = vec![9; 3];

    let placement = render_overlay_surface(&frame, &mut pixels).expect("surface should render");

    assert_eq!(
        placement,
        OverlayPlacement {
            left: -7,
            top: 8,
            width: 2,
            height: 1
        }
    );
    assert_eq!(pixels, [0, 0, 2, 255, 0, 0, 3, 255]);
}

#[test]
fn scaled_images_are_drawn_where_there_is_memory() {
    let mut frame = overlay_frame([1, 1]);
    frame.width = 2;
    frame.height = 2;
    frame.width_percent = 100;
    frame.opacity_percent = 50;
    let scaled = [200, 100, 50, 255].repeat(4);
    let mut pixels = Vec::new();

    assert_eq!(
        render_scaled_image(&frame, &scaled, false, &mut pixels),
        Err("could not allocate the overlay pixel buffer".to_owned())
    );
    assert!(pixels.is_empty());
    let placement = render_scaled_image(&frame, &scaled, true, &mut pixels)
        .expect("surface should render");
    assert_eq!((placement.width, placement.height), (2, 2));
    assert_eq!(pixels, [24, 49, 99, 127].repeat(4));
}

#[test]
fn surfaces_that_cannot_be_shown_are_reported() {
    let mut pixels = vec![1, 2, 3];
    let mut empty = overlay_frame([1, 1]);
    empty.width = 0;
    assert_eq!(
        render_overlay_surface(&empty, &mut pixels).expect_err("nothing to draw on"),
        "overlay or image dimensions are empty"
    );

    let mut huge = overlay_frame([1, 1]);
    huge.width = 16_384;
    huge.height = 16_384;
    huge.width_percent = 100;
    huge.image_rgba = Arc::from([0; 4]);
    assert_eq!(
        render_overlay_surface(&huge, &mut pixels).expect_err("too many pixels"),
        "overlay pixel buffer exceeds 256 MiB"
    );

    let mut outside = overlay_frame([1, 1]);
    outside.width_percent = 0;
    outside.position = at(1.0, 0.5);
    outside.image_rgba = Arc::from([0; 4]);
    assert_eq!(
        render_overlay_surface(&outside, &mut pixels).expect_err("one pixel beyond the edge"),
        "overlay is outside the selected display"
    );
    assert_eq!(pixels, [1, 2, 3]);

    let mut far = overlay_frame([1, 1]);
    far.image_rgba = Arc::from([0; 4]);
    far.left = i32::MAX;
    assert_eq!(
        render_overlay_surface(&far, &mut pixels).expect_err("too far right"),
        "overlay horizontal position is outside Windows coordinates"
    );
    far.left = 0;
    far.top = i32::MAX;
    assert_eq!(
        render_overlay_surface(&far, &mut pixels).expect_err("too far down"),
        "overlay vertical position is outside Windows coordinates"
    );
}

#[test]
fn surfaces_beyond_single_precision_have_no_visible_part() {
    let mut frame = overlay_frame([1, 1]);
    frame.width = 0x100_0003;
    frame.height = 1;
    frame.width_percent = 0;
    frame.position = at(1.0, 0.0);
    frame.image_rgba = Arc::from([0; 4]);
    let mut pixels = Vec::new();
    assert_eq!(
        render_overlay_surface(&frame, &mut pixels).expect_err("rounded beyond the edge"),
        "overlay has no visible width"
    );
    frame.width = 1;
    frame.height = 0x100_0003;
    frame.position = at(0.0, 1.0);
    assert_eq!(
        render_overlay_surface(&frame, &mut pixels).expect_err("rounded beyond the edge"),
        "overlay has no visible height"
    );
}

#[test]
fn session_registration_retries_only_the_documented_startup_error() {
    assert!(should_retry_session_registration(
        &io::Error::from_raw_os_error(RPC_S_INVALID_BINDING_CODE)
    ));
    assert!(!should_retry_session_registration(
        &io::Error::from_raw_os_error(5)
    ));
}

#[test]
fn error_codes_are_passed_on() {
    assert_eq!(error_code(&io::Error::from_raw_os_error(5)), 5);
    assert_eq!(error_code(&io::Error::from_raw_os_error(-5)), 0);
    assert_eq!(error_code(&io::Error::other("no code")), 0);
    assert_eq!(registration(None), SessionRegistration::Registered);
    assert_eq!(
        registration(Some(&io::Error::from_raw_os_error(1_702))),
        SessionRegistration::Retry
    );
    assert_eq!(
        registration(Some(&io::Error::from_raw_os_error(8))),
        SessionRegistration::Failed(8)
    );
}

#[test]
fn session_notifications_are_asked_for_until_they_come() {
    let mut monitor = SessionMonitor::new();
    assert_eq!(
        monitor.first_answer(SessionRegistration::Retry),
        SessionStep::NotifyAndStartTimer(AppCommand::SessionNotificationsDelayed)
    );
    assert_eq!(monitor.timer_started(None), SessionStep::Wait);
    assert!(monitor.retry_timer_active);
    assert_eq!(
        monitor.later_answer(SessionRegistration::Retry),
        SessionStep::Wait
    );
    assert_eq!(
        monitor.later_answer(SessionRegistration::Registered),
        SessionStep::StopTimerAndNotify(AppCommand::SessionNotificationsReady)
    );
    assert!(monitor.registered && !monitor.retry_timer_active);

    let mut refused = SessionMonitor::new();
    assert_eq!(
        refused.first_answer(SessionRegistration::Failed(5)),
        SessionStep::Notify(AppCommand::SessionNotificationsUnavailable(5))
    );
    assert_eq!(
        refused.timer_started(Some(9)),
        SessionStep::Notify(AppCommand::SessionNotificationsUnavailable(9))
    );
    assert_eq!(
        refused.later_answer(SessionRegistration::Failed(7)),
        SessionStep::StopTimerAndNotify(AppCommand::SessionNotificationsUnavailable(7))
    );
    assert!(!refused.registered && !refused.retry_timer_active);
    assert_eq!(
        SessionMonitor::new().first_answer(SessionRegistration::Registered),
        SessionStep::Notify(AppCommand::SessionNotificationsReady)
    );
}

#[test]
fn wide_strings_stop_at_the_first_null() {
    assert_eq!(
        wide_string(&[b'A' as u16, b'B' as u16, 0, b'C' as u16]),
        "AB"
    );
}

#[test]
fn wide_strings_decode_pairs_and_replace_the_rest() {
    assert_eq!(wide_string(&wide("é😀")), "é😀");
    assert_eq!(
        wide_string(&[0xd83d, b'x' as u16, 0xde00]),
        "\u{fffd}x\u{fffd}"
    );
    assert_eq!(wide_string(&[]), "");
    assert_eq!(source_name(&[0]), None);
    assert_eq!(source_name(&wide("N")), Some("N".to_owned()));
}

#[test]
fn displays_are_described_and_ordered() {
    let identities = DisplayIdentities::new();
    let identities = add_target(
        identities,
        r"\\.\DISPLAY1",
        &wide(r"\\?\DISPLAY#OLD"),
        &wide("Old name"),
    );
    let identities = add_target(
        identities,
        r"\\.\display1",
        &wide(r"\\?\DISPLAY#DELÉ"),
        &wide("Dell"),
    );
    let identities = add_target(identities, r"\\.\DISPLAY2", &wide(r"\\?\X"), &wide(""));
    let identities = add_target(identities, r"\\.\DISPLAY3", &wide(""), &wide("ignored"));
    let rect = |left: i32, top: i32| Rect {
        left,
        top,
        right: left + 100,
        bottom: top + 50,
    };
    let mut found = Vec::new();
    for (name, left, top, primary) in [
        ("", 300, -50, false),
        (r"\\.\DISPLAY3", 200, 0, false),
        (r"\\.\DISPLAY2", -100, 0, false),
        (r"\\.\DISPLAY1", 0, 0, true),
    ] {
        found.push(
            describe_monitor(&identities, &rect(left, top), &wide(name), primary)
                .expect("display has pixels"),
        );
    }
    assert!(describe_monitor(
        &identities,
        &Rect {
            left: 0,
            top: 0,
            right: 0,
            bottom: 9
        },
        &[],
        false
    )
    .is_none());

    let displays = finish_enumeration(found).expect("there are displays");
    let ids: Vec<&str> = displays.iter().map(|display| display.id.as_str()).collect();
    assert_eq!(
        ids,
        [
            r"display-path:\\?\display#delé",
            "display@300,-50",
            r"display-path:\\?\x",
            r"\\.\DISPLAY3"
        ]
    );
    let labels: Vec<&str> = displays
        .iter()
        .map(|display| display.label.as_str())
        .collect();
    assert_eq!(
        labels,
        [
            "Dell (100 x 50)",
            "Display (100 x 50)",
            "Display 2 (100 x 50)",
            "Display 3 (100 x 50)"
        ]
    );
    assert_eq!(displays[0].legacy_id, r"\\.\DISPLAY1");
    assert_eq!(displays[2].left, -100);
    assert_eq!(
        finish_enumeration(Vec::new()).expect_err("no displays"),
        "Windows reported no active displays"
    );
}

#[test]
fn messages_of_windows_become_commands() {
    for (message, wparam, command) in [
        (126, 0, Some(AppCommand::DisplayTopologyChanged)),
        (
            536,
            4,
            Some(AppCommand::SystemPause(SystemPauseReason::Power)),
        ),
        (
            536,
            18,
            Some(AppCommand::SystemResume(SystemPauseReason::Power)),
        ),
        (
            689,
            7,
            Some(AppCommand::SystemPause(SystemPauseReason::Session)),
        ),
        (
            689,
            8,
            Some(AppCommand::SystemResume(SystemPauseReason::Session)),
        ),
        (536, 7, None),
        (689, 4, None),
        (0, 4, None),
    ] {
        assert_eq!(system_event_command(message, wparam), command);
    }
    assert_eq!(tray_command("open"), Some(AppCommand::OpenSettings));
    assert_eq!(tray_command("show"), Some(AppCommand::ShowNow));
    assert_eq!(tray_command("reminders"), Some(AppCommand::ToggleReminders));
    assert_eq!(tray_command("quit"), Some(AppCommand::Quit));
    assert_eq!(tray_command("separator"), None);
    assert_eq!(launch_path(Path::new("/opt/eyes")), Ok("/opt/eyes"));
}

#[test]
fn the_newest_command_waits_for_the_window() {
    let mut mailbox = OverlayMailbox::new();
    assert!(mailbox.put(OverlayCommand::Hide));
    assert!(!mailbox.put(OverlayCommand::Show(overlay_frame([1, 1]))));
    assert!(matches!(mailbox.take(), Some(OverlayCommand::Show(_))));
    assert!(mailbox.take().is_none());
    assert!(mailbox.put(OverlayCommand::Shutdown));
    mailbox.revoke();
    assert!(mailbox.take().is_none());
}

#[test]
fn bitmaps_are_used_again_where_they_fit() {
    let placement = OverlayPlacement {
        left: 1,
        top: 2,
        width: 3,
        height: 4,
    };
    assert!(bitmap_fits(3, 4, 48, &placement, 48));
    assert!(!bitmap_fits(4, 3, 48, &placement, 48));
    assert!(!bitmap_fits(3, 4, 40, &placement, 48));
    assert_eq!(check_pixel_length(2, &[0, 0]), Ok(()));
    assert_eq!(
        check_pixel_length(3, &[0, 0]),
        Err("GDI surface and pixel buffer lengths differ".to_owned())
    );
}

fn overlay_frame(image_size: [u32; 2]) -> OverlayFrame {
    OverlayFrame {
        left: 0,
        top: 0,
        width: 1_920,
        height: 1_080,
        image_rgba: Arc::from([]),
        image_size,
        width_percent: 25,
        opacity_percent: 55,
        position: at(0.5, 0.5),
    }
}

#[test]
fn paths_are_asked_for_until_there_is_room() {
    assert_eq!(path_query(0), PathQuery::Answered);
    assert_eq!(path_query(122), PathQuery::Again);
    assert_eq!(path_query(5), PathQuery::Failed(5));
}

#[test]
fn frames_beyond_all_measure_are_known() {
    let mut frame = overlay_frame([2, 2]);
    assert!(can_render(&frame));
    frame.image_size = [u32::MAX, u32::MAX];
    assert!(!can_render(&frame));
    frame.image_size = [u32::MAX, 1];
    assert!(can_render(&frame));
    frame.width = 0;
    frame.image_size = [u32::MAX, u32::MAX];
    assert!(can_render(&frame));
}
