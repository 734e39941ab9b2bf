use std::path::Path;
use std::sync::Arc;

use image::codecs::gif::GifEncoder;
use image::{Delay, Frame, Rgba, RgbaImage};
use ohmyeyes::default_eye::icon_of;
use ohmyeyes::image_asset::{
    bundled_icon, check_file_size, decode, decode_file, decode_plain_svg, decode_svg,
    decoded_image_from_frames, decoding_limits, is_svg_extension, is_svg_file, load_default, picture, unpremultiply_rgba,
    validate_dimensions,
    DecodedFrame, GifAssembly, GifFrame, ImageAssetError, MAX_DIMENSION, MAX_FILE_SIZE,
    MAX_FRAME_MILLIS, MAX_GIF_FRAMES, MIN_FRAME_MILLIS, MAX_SVG_FILE_SIZE,
};
use ohmyeyes::plain_svg::is_plain_svg;
use ohmyeyes::time::Duration;

#[test]
fn bundled_eye_is_a_decodable_rgba_image() {
    let image = load_default().expect("bundled eye should decode");
    assert!(image.size[0] > 0);
    assert!(image.size[1] > 0);
    assert!(image.size[0] as f32 / image.size[1] as f32 > 1.0);
    let rgba = &image.frame_or_first(0).rgba;
    assert!(rgba.chunks_exact(4).any(|pixel| pixel[3] == 0));
    assert!(rgba.chunks_exact(4).any(|pixel| pixel[3] > 0));
}

#[test]
fn animated_gif_preserves_frames_and_timing() {
    let bytes = encode_gif(vec![
        gif_frame([255, 0, 0, 255], 50),
        gif_frame([0, 255, 0, 255], 60),
    ]);
    let image = decode(&bytes).expect("GIF should decode");

    assert!(image.is_animated());
    assert_eq!(image.frame_or_first(0).rgba.as_ref(), [255, 0, 0, 255]);
    assert_eq!(image.frame_or_first(1).rgba.as_ref(), [0, 255, 0, 255]);
    assert_eq!(image.frame_at(Duration::from_millis(49)).0, 0);
    assert_eq!(image.frame_at(Duration::from_millis(50)).0, 1);
    assert_eq!(image.frame_at(Duration::from_millis(110)).0, 0);
}

#[test]
fn static_image_timing_and_frame_fallback_are_stable() {
    let image = decoded_image_from_frames(
        [1, 1],
        vec![DecodedFrame {
            rgba: Arc::from([10, 20, 30, 255]),
            duration: Duration::zero(),
        }],
    )
    .expect("static image should be created");

    assert!(!image.is_animated());
    assert_eq!(
        image.frame_at(Duration::from_secs(10)),
        (0, Duration::longest())
    );
    assert_eq!(image.frame_or_first(99).rgba.as_ref(), [10, 20, 30, 255]);
}

#[test]
fn gif_frame_delays_are_clamped_to_safe_bounds() {
    let bytes = encode_gif(vec![
        gif_frame([255, 0, 0, 255], 1),
        gif_frame([0, 255, 0, 255], 61_000),
    ]);
    let image = decode(&bytes).expect("GIF should decode");
    let shortest = Duration::from_millis(MIN_FRAME_MILLIS);
    let longest = Duration::from_millis(MAX_FRAME_MILLIS);

    assert_eq!(image.frame_or_first(0).duration, shortest);
    assert_eq!(image.frame_or_first(1).duration, longest);
    assert_eq!(image.frame_at(Duration::zero()), (0, shortest));
    assert_eq!(image.frame_at(shortest), (1, longest));
}

#[test]
fn gif_cycle_duration_is_bounded() {
    let frames = (0..6).map(|_| gif_frame([0, 0, 0, 0], 60_000)).collect();
    let error = decode(&encode_gif(frames)).expect_err("long GIF should be rejected");

    assert!(matches!(error, ImageAssetError::AnimationTooLong));
}

#[test]
fn gif_frame_count_is_bounded() {
    let frames = (0..=MAX_GIF_FRAMES)
        .map(|_| gif_frame([0, 0, 0, 0], 20))
        .collect();
    let error = decode(&encode_gif(frames)).expect_err("too many frames should be rejected");

    assert!(matches!(error, ImageAssetError::TooManyFrames));
}

#[test]
fn svg_is_rasterized_with_alpha() {
    let svg = br##"<svg xmlns="http://www.w3.org/2000/svg" width="2" height="1">
            <rect width="1" height="1" fill="#ff0000"/>
        </svg>"##;
    let image = decode_svg(svg).expect("SVG should rasterize");

    assert_eq!(image.size, [2, 1]);
    assert_eq!(image.frame_or_first(0).rgba[0..4], [255, 0, 0, 255]);
    assert_eq!(image.frame_or_first(0).rgba[4..8], [0, 0, 0, 0]);
}

#[test]
fn svg_external_images_are_not_loaded() {
    let directory = tempfile::tempdir().expect("temporary directory should be created");
    let image_path = directory.path().join("external.png");
    RgbaImage::from_pixel(1, 1, Rgba([255, 0, 0, 255]))
        .save(&image_path)
        .expect("external test image should save");
    let href = image_path.to_string_lossy().replace('\\', "/");
    let svg = format!(
        r#"<svg xmlns="http://www.w3.org/2000/svg" width="1" height="1"><image href="{href}" width="1" height="1"/></svg>"#
    );
    let image = decode_svg(svg.as_bytes()).expect("SVG should parse without external image");

    assert_eq!(image.frame_or_first(0).rgba.as_ref(), [0, 0, 0, 0]);
}

#[test]
fn svg_document_size_is_bounded() {
    let oversized = vec![b' '; MAX_SVG_FILE_SIZE + 1];
    let error = decode_svg(&oversized).expect_err("oversized SVG should be rejected");

    assert!(matches!(error, ImageAssetError::SvgTooLarge));
}

#[test]
fn invalid_and_oversized_svg_dimensions_are_reported() {
    let parse_error = decode_svg(b"not an svg").expect_err("invalid SVG should be rejected");
    assert!(matches!(parse_error, ImageAssetError::SvgParse(_)));

    let oversized = br#"<svg xmlns="http://www.w3.org/2000/svg" width="4097" height="1"/>"#;
    let size_error = decode_svg(oversized).expect_err("wide SVG should be rejected");
    assert!(matches!(size_error, ImageAssetError::DimensionsTooLarge));
}

#[test]
fn image_dimension_boundaries_are_enforced() {
    assert!(validate_dimensions(1, 1).is_ok());
    assert!(validate_dimensions(MAX_DIMENSION, MAX_DIMENSION).is_ok());
    assert!(matches!(
        validate_dimensions(0, 1),
        Err(ImageAssetError::DimensionsTooLarge)
    ));
    assert!(matches!(
        validate_dimensions(MAX_DIMENSION + 1, 1),
        Err(ImageAssetError::DimensionsTooLarge)
    ));
}

#[test]
fn unpremultiplication_handles_transparent_partial_and_opaque_pixels() {
    let mut rgba = [1, 2, 3, 0, 64, 32, 16, 128, 9, 8, 7, 255];

    unpremultiply_rgba(&mut rgba);

    assert_eq!(rgba, [0, 0, 0, 0, 128, 64, 32, 128, 9, 8, 7, 255]);
}

#[test]
fn unpremultiplication_saturates_and_leaves_trailing_bytes() {
    let mut rgba = [200, 100, 1, 100, 50, 60, 0];

    unpremultiply_rgba(&mut rgba);

    assert_eq!(rgba, [255, 255, 3, 100, 50, 60, 0]);
}

#[test]
fn file_size_is_checked_before_decoding() {
    let error =
        check_file_size(false, MAX_FILE_SIZE + 1).expect_err("large image should be rejected");

    assert!(matches!(error, ImageAssetError::TooLarge));
}

#[test]
fn file_sizes_are_limited_by_kind() {
    assert!(check_file_size(false, MAX_FILE_SIZE).is_ok());
    assert!(matches!(
        check_file_size(false, MAX_FILE_SIZE + 1),
        Err(ImageAssetError::TooLarge)
    ));
    assert!(check_file_size(true, MAX_SVG_FILE_SIZE as u64).is_ok());
    assert!(matches!(
        check_file_size(true, MAX_SVG_FILE_SIZE as u64 + 1),
        Err(ImageAssetError::SvgTooLarge)
    ));
    assert!(check_file_size(false, MAX_SVG_FILE_SIZE as u64 + 1).is_ok());
}

#[test]
fn svg_extensions_are_recognised_in_any_case() {
    assert!(is_svg_extension("svg"));
    assert!(is_svg_extension("SvG"));
    assert!(!is_svg_extension("svgz"));
    assert!(!is_svg_extension("png"));
    assert!(!is_svg_extension("\u{17f}vg"));
}

#[test]
fn fractional_svg_sizes_are_rounded_up() {
    let svg = br#"<svg xmlns="http://www.w3.org/2000/svg" width="2.25" height="0.5"/>"#;
    let image = decode_file(true, svg).expect("SVG should rasterize");

    assert_eq!(image.size, [3, 1]);
    assert_eq!(image.frame_or_first(0).rgba.len(), 12);
}

#[test]
fn png_files_keep_their_pixels() {
    let mut source = RgbaImage::new(2, 1);
    source.put_pixel(0, 0, Rgba([1, 2, 3, 4]));
    source.put_pixel(1, 0, Rgba([250, 0, 9, 255]));
    let mut bytes = std::io::Cursor::new(Vec::new());
    source
        .write_to(&mut bytes, image::ImageFormat::Png)
        .expect("PNG should encode");
    let image = decode_file(false, bytes.get_ref()).expect("PNG should decode");

    assert_eq!(image.size, [2, 1]);
    assert!(!image.is_animated());
    assert_eq!(
        image.frame_or_first(0).rgba.as_ref(),
        [1, 2, 3, 4, 250, 0, 9, 255]
    );
}

#[test]
fn unknown_and_damaged_files_are_decoding_errors() {
    for bytes in [&b""[..], b"no image", b"GIF89a", b"\x89PNG\r\n\x1a\n"] {
        assert!(matches!(decode(bytes), Err(ImageAssetError::Decode(_))));
    }
}

#[test]
fn oversized_pictures_are_rejected() {
    let mut bytes = std::io::Cursor::new(Vec::new());
    RgbaImage::new(MAX_DIMENSION + 1, 1)
        .write_to(&mut bytes, image::ImageFormat::Png)
        .expect("PNG should encode");
    assert!(matches!(
        decode(bytes.get_ref()),
        Err(ImageAssetError::Decode(_))
    ));
    assert!(matches!(
        picture(0, 7, Vec::new()),
        Err(ImageAssetError::DimensionsTooLarge)
    ));
    assert_eq!(decoding_limits().max_width, 4_096);
    assert_eq!(decoding_limits().max_height, 4_096);
    assert_eq!(decoding_limits().max_alloc, 64 * 1024 * 1024);
}

#[test]
fn animations_need_frames_of_the_canvas_size() {
    assert!(matches!(
        GifAssembly::new(1, 1).finish(),
        Err(ImageAssetError::EmptyAnimation)
    ));
    assert!(matches!(
        decoded_image_from_frames([1, 1], Vec::new()),
        Err(ImageAssetError::EmptyAnimation)
    ));
    let frame = || GifFrame {
        numerator: 101,
        denominator: 2,
        width: 1,
        height: 1,
        rgba: vec![1, 2, 3, 4],
    };
    assert!(matches!(
        GifAssembly::new(1, 2).with_frame(Ok(frame())),
        Err(ImageAssetError::FrameDimensionsMismatch)
    ));
    let image = GifAssembly::new(1, 1)
        .with_frame(Ok(frame()))
        .and_then(|assembly| assembly.with_frame(Ok(frame())))
        .and_then(|assembly| assembly.finish())
        .expect("frames should fit");
    assert_eq!(image.width_and_height(), (1, 1));
    assert_eq!(image.frame_or_first(1).duration, Duration::from_millis(51));
    assert_eq!(
        image.frame_at(Duration::from_millis(103)),
        (0, Duration::from_millis(50))
    );
}

#[test]
fn animations_are_limited_in_memory() {
    let frame = || GifFrame {
        numerator: 50,
        denominator: 0,
        width: 4_096,
        height: 2_048,
        rgba: vec![0; 4 * 4_096 * 2_048],
    };
    let full = GifAssembly::new(4_096, 2_048)
        .with_frame(Ok(frame()))
        .and_then(|assembly| assembly.with_frame(Ok(frame())));
    assert!(matches!(
        full.expect("two frames should fit").with_frame(Ok(frame())),
        Err(ImageAssetError::DecodedDataTooLarge)
    ));
}

#[test]
fn frames_follow_one_another_in_a_circle() {
    let bytes = encode_gif(vec![
        gif_frame([255, 0, 0, 255], 50),
        gif_frame([0, 255, 0, 255], 60),
        gif_frame([0, 0, 255, 255], 70),
    ]);
    let image = decode(&bytes).expect("GIF should decode");
    let mut elapsed = Duration::from_millis(1_234_567);
    for _ in 0..10 {
        let (index, rest) = image.frame_at(elapsed);
        elapsed = elapsed.plus(rest);
        assert_eq!(image.frame_at(elapsed).0, (index + 1) % 3);
        assert_eq!(
            image.frame_at(elapsed).1,
            image.frame_or_first((index + 1) % 3).duration
        );
    }
}

fn gif_frame(color: [u8; 4], duration_ms: u32) -> Frame {
    Frame::from_parts(
        RgbaImage::from_pixel(1, 1, Rgba(color)),
        0,
        0,
        Delay::from_numer_denom_ms(duration_ms, 1),
    )
}

fn encode_gif(frames: Vec<Frame>) -> Vec<u8> {
    let mut bytes = Vec::new();
    GifEncoder::new(&mut bytes)
        .encode_frames(frames)
        .expect("test GIF should encode");
    bytes
}

#[test]
fn errors_have_texts() {
    for (error, text) in [
        (ImageAssetError::TooLarge, "image file is larger than 32 MiB"),
        (
            ImageAssetError::SvgTooLarge,
            "SVG document is larger than 2 MiB",
        ),
        (
            ImageAssetError::DimensionsTooLarge,
            "image dimensions exceed 4096 x 4096",
        ),
        (
            ImageAssetError::DecodedDataTooLarge,
            "decoded image data exceeds 64 MiB",
        ),
        (
            ImageAssetError::TooManyFrames,
            "GIF contains more than 300 frames",
        ),
        (
            ImageAssetError::AnimationTooLong,
            "GIF animation cycle is longer than 5 minutes",
        ),
        (ImageAssetError::EmptyAnimation, "GIF contains no frames"),
        (
            ImageAssetError::FrameDimensionsMismatch,
            "GIF frame dimensions do not match its canvas",
        ),
        (
            ImageAssetError::SvgParse("no root".to_owned()),
            "failed to parse SVG image: no root",
        ),
        (
            ImageAssetError::SvgRasterAllocation,
            "failed to allocate the SVG raster image",
        ),
    ] {
        assert_eq!(error.message(), text);
    }
    let error = decode(b"no image").expect_err("text is no image");
    let text = error.message();
    let ImageAssetError::Decode(cause) = error else {
        panic!("unexpected error: {text}");
    };
    assert_eq!(
        text,
        format!("failed to decode PNG, JPEG, WebP, or GIF image: {cause}")
    );
}

#[test]
fn svg_files_are_known_by_their_names() {
    assert!(is_svg_file(Path::new("images/eye.SVG")));
    assert!(is_svg_file(Path::new("eye.png.svg")));
    assert!(!is_svg_file(Path::new("eye.svg.png")));
    assert!(!is_svg_file(Path::new("images.svg/eye")));
    assert!(!is_svg_file(Path::new(".svg")));
    assert!(!is_svg_file(Path::new("")));
}

#[test]
fn icons_are_squares() {
    let icon = bundled_icon(64).expect("bundled eye should decode");
    assert_eq!(icon.len(), 64 * 64 * 4);
    assert!(icon.chunks_exact(4).any(|pixel| pixel[3] > 0));

    let image = picture(1, 1, vec![9, 8, 7, 255]).expect("one pixel should be an image");
    assert_eq!(icon_of(&image, 1), [9, 8, 7, 255]);
    assert_eq!(icon_of(&image, 2), [9, 8, 7, 255].repeat(4));
}

#[test]
fn every_frame_of_an_animation_has_all_its_pixels() {
    let frames = [[255, 0, 0, 255], [0, 255, 0, 255], [0, 0, 255, 255]]
        .into_iter()
        .map(|color| {
            Frame::from_parts(
                RgbaImage::from_pixel(3, 2, Rgba(color)),
                0,
                0,
                Delay::from_numer_denom_ms(50, 1),
            )
        })
        .collect();
    let image = decode(&encode_gif(frames)).expect("GIF should decode");
    assert_eq!(image.width_and_height(), (3, 2));
    for index in 0..3 {
        assert_eq!(image.frame_or_first(index).rgba.len(), 3 * 2 * 4);
    }
}

#[test]
fn plain_documents_are_drawn() {
    let svg = br##"<svg xmlns="http://www.w3.org/2000/svg" width="3" height="1">
            <rect width="1" height="1" fill="#00ff00"/>
            <rect x="1" y="0" width="1" height="1.5" fill='red' fill-opacity="0"/>
        </svg>"##;
    let image = decode_plain_svg(svg)
        .expect("the document is plain")
        .expect("SVG should rasterize");

    assert_eq!(image.size, [3, 1]);
    assert_eq!(
        image.frame_or_first(0).rgba.as_ref(),
        [0, 255, 0, 255, 0, 0, 0, 0, 0, 0, 0, 0]
    );
    let other = decode_svg(svg).expect("SVG should rasterize");
    assert_eq!(other.frame_or_first(0).rgba, image.frame_or_first(0).rgba);

    let nothing = decode_plain_svg(b"not an svg").expect("the document is plain");
    assert!(matches!(nothing, Err(ImageAssetError::SvgParse(_))));
    let wide = decode_plain_svg(b"<svg xmlns='http://www.w3.org/2000/svg' width='43in' height='1'/>")
        .expect("the document is plain");
    assert!(matches!(wide, Err(ImageAssetError::DimensionsTooLarge)));
    let large = vec![b' '; MAX_SVG_FILE_SIZE + 1];
    assert!(matches!(
        decode_plain_svg(&large),
        Some(Err(ImageAssetError::SvgTooLarge))
    ));
}

#[test]
fn documents_with_more_than_rectangles_are_not_plain() {
    let svg = br#"<svg xmlns="http://www.w3.org/2000/svg" width="1" height="1">
            <filter id="f"><feFlood flood-color="blue"/></filter>
            <rect width="1" height="1" filter="url(#f)"/>
        </svg>"#;
    assert!(decode_plain_svg(svg).is_none());
    let image = decode_svg(svg).expect("SVG should rasterize");
    assert_eq!(image.frame_or_first(0).rgba.as_ref(), [0, 0, 255, 255]);

    assert!(is_plain_svg(b""));
    assert!(is_plain_svg(b"<svg/>"));
    assert!(is_plain_svg(b"<svg><rect x='9999'/></svg>"));
    assert!(!is_plain_svg(b"<svg><rect x='99999'/></svg>"));
    assert!(!is_plain_svg(b"<svg><rect x='1e3'/></svg>"));
    assert!(!is_plain_svg(b"<svg><rect x='1.E3'/></svg>"));
    assert!(!is_plain_svg(b"<svg><rect x='1em'/></svg>"));
    assert!(!is_plain_svg(b"<svg><rect x='10%'/></svg>"));
    assert!(!is_plain_svg(b"<svg><rect rx='1'/></svg>"));
    assert!(!is_plain_svg(b"<svg><rect x ='1'/></svg>"));
    assert!(!is_plain_svg(b"<svg><rect></rect></svg>"));
    assert!(!is_plain_svg(b"<svg><rects/></svg>"));
    assert!(!is_plain_svg(b"<svg><svg/></svg>"));
    assert!(!is_plain_svg(b"<svg"));
    assert!(!is_plain_svg(b"<!-- --><svg/>"));
    assert!(!is_plain_svg(b"<svg>&#65;</svg>"));
    assert!(!is_plain_svg("<svg>\u{e9}</svg>".as_bytes()));
    assert!(!is_plain_svg(&[0x1f, 0x8b]));
}
