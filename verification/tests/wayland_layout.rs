use ohmyeyes::binary_float::Single;
use ohmyeyes::linux_wayland::{
    logical_output_size_from, overlay_buffer_len, overlay_layout, output_id_from,
    output_label_from, render_frame, MAX_OVERLAY_BYTES,
};

fn at(x: f32, y: f32) -> [Single; 2] {
    [Single { bits: x.to_bits() }, Single { bits: y.to_bits() }]
}

#[test]
fn tall_overlay_is_fitted_to_the_output() {
    let layout = overlay_layout((1_920, 1_080), [1, 4_096], 25, at(0.5, 0.5))
        .expect("layout should be valid");

    assert_eq!(layout.size, (1, 1_080));
    assert_eq!(layout.margin, (960, 0));
}

#[test]
fn overlay_position_is_clamped_inside_the_output() {
    let top_left =
        overlay_layout((1_920, 1_080), [2, 1], 25, at(0.0, 0.0)).expect("layout should be valid");
    let bottom_right =
        overlay_layout((1_920, 1_080), [2, 1], 25, at(1.0, 1.0)).expect("layout should be valid");

    assert_eq!(top_left.margin, (0, 0));
    assert_eq!(bottom_right.margin, (1_440, 840));
}

#[test]
fn overlay_layout_rejects_empty_dimensions_and_scales_landscape_images() {
    for (monitor, image) in [
        ((0, 1_080), [1, 1]),
        ((1_920, 0), [1, 1]),
        ((1_920, 1_080), [0, 1]),
        ((1_920, 1_080), [1, 0]),
    ] {
        assert_eq!(
            overlay_layout(monitor, image, 25, at(0.5, 0.5))
                .expect_err("empty dimensions should fail"),
            "overlay or image dimensions are empty"
        );
    }

    let layout = overlay_layout((1_920, 1_080), [16, 9], 50, at(0.5, 0.5))
        .expect("landscape layout should fit");
    assert_eq!(layout.size, (960, 540));
    assert_eq!(layout.margin, (480, 270));
}

/// The layout in the machine's own floating point.
fn machine_layout(
    monitor: (u32, u32),
    image: [u32; 2],
    percent: u8,
    position: [f32; 2],
) -> ((u32, u32), (i32, i32)) {
    let requested_width = (u64::from(monitor.0) * u64::from(percent) / 100).max(1);
    let requested_height = requested_width * u64::from(image[1]) / u64::from(image[0]);
    let fit = (requested_width as f64 / f64::from(monitor.0))
        .max(requested_height as f64 / f64::from(monitor.1))
        .max(1.0);
    let width = ((requested_width as f64 / fit).round() as u64).max(1) as u32;
    let height = ((requested_height as f64 / fit).round() as u64).max(1) as u32;
    let place = |part: f32, whole: u32, extent: u32| {
        let center = part.clamp(0.0, 1.0) * whole as f32;
        (center - extent as f32 / 2.0)
            .round()
            .clamp(0.0, whole.saturating_sub(extent) as f32) as i32
    };
    (
        (width, height),
        (
            place(position[0], monitor.0, width),
            place(position[1], monitor.1, height),
        ),
    )
}

struct Numbers(u64);

impl Numbers {
    fn next(&mut self) -> u64 {
        self.0 ^= self.0 << 13;
        self.0 ^= self.0 >> 7;
        self.0 ^= self.0 << 17;
        self.0
    }

    fn side(&mut self) -> u32 {
        let bits = self.next() % 32 + 1;
        ((self.next() % (1 << bits)) as u32).max(1)
    }

    fn part(&mut self) -> f32 {
        match self.next() % 4 {
            0 => f32::from_bits(self.next() as u32),
            1 => (self.next() % 1_001) as f32 / 1_000.0,
            2 => f32::from_bits((self.next() % 0x3f80_0001) as u32),
            _ => (self.next() % 65) as f32 / 64.0,
        }
    }
}

#[test]
fn layout_agrees_with_the_machine_in_single_and_double_precision() {
    let mut numbers = Numbers(0x9e37_79b9_7f4a_7c15);
    for _ in 0..200_000 {
        let monitor = (numbers.side(), numbers.side());
        let image = [numbers.side(), numbers.side()];
        let percent = (numbers.next() % 101) as u8;
        let position = [numbers.part(), numbers.part()];
        let layout = overlay_layout(monitor, image, percent, at(position[0], position[1]))
            .expect("layout should be valid");
        assert_eq!(
            (layout.size, layout.margin),
            machine_layout(monitor, image, percent, position),
            "{monitor:?} {image:?} {percent} {position:?}"
        );
    }
}

#[test]
fn a_position_that_is_no_number_starts_at_the_edge() {
    let layout = overlay_layout((1_920, 1_080), [2, 1], 25, at(f32::NAN, f32::INFINITY))
        .expect("layout should be valid");
    assert_eq!(layout.margin, (0, 840));
}

#[test]
fn overlay_buffer_size_is_checked() {
    assert_eq!(
        overlay_buffer_len((100, 50), 2).expect("buffer should fit"),
        80_000
    );
    assert_eq!(
        overlay_buffer_len((1, 1), -1).expect_err("negative scale should fail"),
        "invalid Wayland scale"
    );
    assert_eq!(
        overlay_buffer_len((8_192, 8_192), 1).expect("limit should be accepted"),
        MAX_OVERLAY_BYTES as usize
    );
    assert_eq!(
        overlay_buffer_len((8_193, 8_192), 1).expect_err("oversized buffer should fail"),
        "overlay pixel buffer exceeds 256 MiB"
    );
    assert_eq!(
        overlay_buffer_len((u32::MAX, u32::MAX), i32::MAX)
            .expect_err("overflowing buffer should fail"),
        "overlay pixel buffer is too large"
    );
}

#[test]
fn output_identity_and_labels_have_stable_fallbacks() {
    assert_eq!(output_id_from(7, Some("DP-1")), "DP-1");
    assert_eq!(output_id_from(7, None), "wayland-output-7");
    assert_eq!(
        output_label_from(
            Some("DP-1"),
            Some("Dell Display"),
            "Dell U2720Q",
            Some((2_560, 1_440))
        ),
        "DP-1 — Dell Display (2560 x 1440)"
    );
    assert_eq!(
        output_label_from(Some("DP-1"), Some("DP-1"), "Dell U2720Q", None),
        "DP-1 — Dell U2720Q"
    );
    assert_eq!(
        output_label_from(None, None, "Virtual", None),
        "Wayland output — Virtual"
    );
}

#[test]
fn logical_output_size_prefers_logical_geometry_and_falls_back_to_mode() {
    assert_eq!(
        logical_output_size_from(Some((1_280, 720)), 2, Some((3_840, 2_160))),
        Some((1_280, 720))
    );
    assert_eq!(
        logical_output_size_from(None, 2, Some((3_840, 2_160))),
        Some((1_920, 1_080))
    );
    assert_eq!(
        logical_output_size_from(Some((-1, 720)), 0, Some((1_920, 1_080))),
        Some((1_920, 1_080))
    );
    assert_eq!(logical_output_size_from(None, 1, Some((0, 1_080))), None);
    assert_eq!(logical_output_size_from(None, 1, None), None);
}

#[test]
fn rendered_pixels_are_premultiplied_bgra() {
    let mut canvas = [0; 4];
    render_frame(&mut canvas, 1, 1, &[100, 50, 200, 128], [1, 1], 50).expect("frame should render");

    assert_eq!(canvas, [50, 12, 25, 64]);
}

#[test]
fn render_frame_rejects_invalid_source_and_small_canvas() {
    assert_eq!(
        render_frame(&mut [0; 4], 1, 1, &[0; 3], [1, 1], 100)
            .expect_err("invalid RGBA source should fail"),
        "decoded image buffer has invalid dimensions"
    );
    assert_eq!(
        render_frame(&mut [0; 3], 1, 1, &[10, 20, 30, 255], [1, 1], 100)
            .expect_err("small canvas should fail"),
        "Wayland shared-memory buffer is smaller than expected"
    );

    let mut canvas = [0; 8];
    render_frame(&mut canvas, 2, 1, &[10, 20, 30, 255], [1, 1], 100).expect("frame should resize");
    assert_eq!(canvas, [30, 20, 10, 255, 30, 20, 10, 255]);
}

#[test]
fn short_sources_are_rejected_at_every_size() {
    let mut canvas = [7; 4];
    assert_eq!(
        render_frame(
            &mut canvas,
            u32::MAX,
            u32::MAX,
            &[0; 3],
            [u32::MAX, u32::MAX],
            255
        ),
        Err("decoded image buffer has invalid dimensions".to_owned())
    );
    assert_eq!(canvas, [7; 4]);
}
