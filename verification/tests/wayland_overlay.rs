use ohmyeyes::binary_float::Single;
use ohmyeyes::resample::can_resize;
use ohmyeyes::wayland_overlay::{
    buffer_geometry, can_lay_out, damage, displays, initial_displays, BufferGeometry, Damage,
    OutputDescription, OutputMode, OverlayFrame, OverlaySurface, ShowPlan, ShowRequest,
};

fn output(id: u32, name: Option<&str>, size: Option<(i32, i32)>) -> OutputDescription {
    OutputDescription {
        id,
        name: name.map(str::to_owned),
        description: None,
        model: "Virtual".to_owned(),
        logical_size: size,
        scale_factor: 2,
        modes: Vec::new(),
    }
}

fn request(display_id: &str, shade: u8) -> ShowRequest {
    ShowRequest {
        display_id: display_id.to_owned(),
        frame: OverlayFrame {
            rgba: vec![shade, 0, 0, 255],
            image_size: [1, 1],
            opacity_percent: 55,
        },
        width_percent: 25,
        position: [Single { bits: 0.5_f32.to_bits() }; 2],
    }
}

fn recreate(plan: ShowPlan) -> ohmyeyes::wayland_overlay::NewOverlay {
    match plan {
        ShowPlan::Recreate(new) => new,
        other => panic!("unexpected plan: {other:?}"),
    }
}

#[test]
fn outputs_become_displays() {
    let mut moded = output(7, None, None);
    moded.modes = vec![
        OutputMode {
            dimensions: (640, 480),
            current: false,
        },
        OutputMode {
            dimensions: (3_840, 2_160),
            current: true,
        },
    ];
    let outputs = [output(1, Some("DP-1"), Some((1_920, 1_080))), moded];
    let list = displays(&outputs);
    assert_eq!(list[0].id, "DP-1");
    assert_eq!(list[0].label, "DP-1 — Virtual (1920 x 1080)");
    assert_eq!(list[1].id, "wayland-output-7");
    assert_eq!(list[1].label, "Wayland output — Virtual (1920 x 1080)");
    assert_eq!(initial_displays(&outputs).expect("two outputs").len(), 2);
    assert_eq!(
        initial_displays(&[]).expect_err("no outputs"),
        "Wayland compositor reported no outputs"
    );
}

#[test]
fn overlays_in_place_are_kept() {
    let outputs = [
        output(1, Some("DP-1"), Some((1_000, 1_000))),
        output(2, Some("DP-2"), Some((2_000, 1_000))),
    ];
    let mut surface = OverlaySurface::new();
    let new = recreate(surface.show(&outputs, 4, request("DP-2", 1)).expect("shown"));
    assert_eq!(new.output, 1);
    assert_eq!(new.pool_bytes, Ok(500 * 500 * 4 * 4));
    assert_eq!(new.overlay.logical_size, (500, 500));
    assert_eq!(new.overlay.margin, (750, 250));
    assert_eq!(new.overlay.scale, 2);
    assert!(!new.overlay.configured);
    surface.activate(new.overlay);

    let plan = surface.show(&outputs, 4, request("DP-2", 2));
    assert!(matches!(plan, Ok(ShowPlan::Keep)));
    assert!(surface.configure((0, 9)));
    let active = surface.active().expect("overlay is up");
    assert_eq!(active.logical_size, (500, 500));
    assert!(active.configured);
    let plan = surface.show(&outputs, 4, request("DP-2", 3));
    assert!(matches!(plan, Ok(ShowPlan::Redraw)));
    assert_eq!(surface.active().expect("overlay is up").frame.rgba[0], 3);

    assert!(surface.configure((400, 300)));
    let again = recreate(surface.show(&outputs, 4, request("DP-2", 4)).expect("shown"));
    assert_eq!(again.overlay.logical_size, (500, 500));
    assert!(surface.active().is_none());
    assert!(!surface.configure((1, 1)));
    surface.activate(again.overlay);
    let moved = recreate(surface.show(&outputs, 2, request("DP-1", 5)).expect("shown"));
    assert_eq!(moved.output, 0);
    assert_eq!(moved.overlay.scale, 1);
    surface.activate(moved.overlay);
    surface.take_down();
    assert!(surface.active().is_none());
}

#[test]
fn unknown_outputs_fall_back_to_the_first() {
    let outputs = [output(1, Some("DP-1"), Some((100, 100)))];
    let mut surface = OverlaySurface::new();
    let new = recreate(surface.show(&outputs, 3, request("gone", 1)).expect("shown"));
    assert_eq!(new.output, 0);
    assert_eq!(new.overlay.output_id, "DP-1");
    assert_eq!(
        surface
            .show(&[], 3, request("DP-1", 1))
            .expect_err("no outputs"),
        "Wayland compositor reported no usable output"
    );
    assert_eq!(
        surface
            .show(&[output(1, None, None)], 3, request("DP-9", 1))
            .expect_err("no size"),
        "Wayland output DP-9 has no active size"
    );
    let mut empty = request("DP-1", 1);
    empty.frame.image_size = [0, 1];
    assert_eq!(
        surface.show(&outputs, 3, empty).expect_err("empty image"),
        "overlay or image dimensions are empty"
    );
    let mut huge = output(1, Some("DP-1"), Some((40_000, 40_000)));
    huge.scale_factor = 1;
    let new = recreate(surface.show(&[huge], 3, request("DP-1", 1)).expect("shown"));
    assert_eq!(
        new.pool_bytes,
        Err("overlay pixel buffer exceeds 256 MiB".to_owned())
    );
}

#[test]
fn buffers_have_sides_in_range() {
    assert_eq!(
        buffer_geometry((100, 50), 2),
        Ok(BufferGeometry {
            width: 200,
            height: 100,
            stride: 800
        })
    );
    for (size, scale, message) in [
        ((1, 1), -1, "invalid Wayland scale"),
        ((u32::MAX, 1), 2, "overlay width is too large"),
        ((1, u32::MAX), 2, "overlay height is too large"),
        ((0x2000_0000, 1), 1, "overlay stride is too large"),
        ((1, 0x8000_0000), 1, "overlay height is too large"),
    ] {
        assert_eq!(
            buffer_geometry(size, scale).expect_err("out of range"),
            message
        );
    }
}

#[test]
fn damage_is_in_the_terms_of_the_surface() {
    let geometry = BufferGeometry {
        width: 200,
        height: 100,
        stride: 800,
    };
    assert_eq!(
        damage(4, geometry, (u32::MAX, 1)),
        Ok(Damage::Buffer {
            width: 200,
            height: 100
        })
    );
    assert_eq!(
        damage(3, geometry, (100, 50)),
        Ok(Damage::Surface {
            width: 100,
            height: 50
        })
    );
    assert_eq!(
        damage(3, geometry, (u32::MAX, 1)).expect_err("too wide"),
        "overlay logical width is too large"
    );
    assert_eq!(
        damage(3, geometry, (1, u32::MAX)).expect_err("too high"),
        "overlay logical height is too large"
    );
}

#[test]
fn resizing_has_limits() {
    assert!(can_resize(4_096, 4_096, 8_192, 8_192));
    assert!(!can_resize(1, 1, 0x100_0001, 1));
    assert!(!can_resize(0x100_0001, 1, 1, 1));
    assert!(can_resize(0x100_0001, 1, 0x100_0001, 1));
    assert!(can_resize(0, 1, 0x100_0001, 1));
    assert!(!can_resize(0, 0, u32::MAX, u32::MAX));
}

#[test]
fn only_absurd_images_cannot_be_laid_out() {
    let outputs = [output(1, Some("DP-1"), Some((i32::MAX, 1_080)))];
    let mut wish = request("DP-1", 0);
    assert!(can_lay_out(&outputs, &wish));
    wish.width_percent = 255;
    wish.frame.image_size = [1, u32::MAX];
    assert!(!can_lay_out(&outputs, &wish));
    wish.frame.image_size = [0, u32::MAX];
    assert!(can_lay_out(&outputs, &wish));
    assert!(can_lay_out(&[], &wish));
}
