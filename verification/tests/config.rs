use std::path::{Path, PathBuf};

use ohmyeyes::binary_float::Single;
use ohmyeyes::config::{
    check_schema_version, file_contents, read_document, ConfigError, ConfigStore, LoadedSettings,
    NormalizedPosition, ResumePolicy, Settings, CONFIG_SCHEMA_VERSION, MAX_CONFIG_FILE_SIZE,
};
use ohmyeyes::limited_read::{check_bytes, check_length, read_budget, TooLarge};
use ohmyeyes::time::Duration;

fn at(x: f32, y: f32) -> NormalizedPosition {
    NormalizedPosition {
        x: Single { bits: x.to_bits() },
        y: Single { bits: y.to_bits() },
    }
}

#[test]
fn defaults_match_the_twenty_twenty_twenty_rule() {
    let settings = Settings::default();
    assert_eq!(settings.interval_minutes, 20);
    assert_eq!(settings.duration_seconds, 20);
    assert_eq!(settings.position, at(0.5, 0.5));
    assert_eq!(settings.opacity_percent, 55);
    assert_eq!(settings.width_percent, 25);
    assert_eq!(settings.resume_policy, ResumePolicy::Reset);
    assert!(settings.reminders_enabled);
    assert!(!settings.start_at_login);
    assert!(!settings.show_tray_icon);
}

#[test]
fn normalization_clamps_external_values() {
    let mut settings = Settings {
        interval_minutes: 0,
        duration_seconds: 9_999,
        opacity_percent: 0,
        width_percent: 255,
        position: at(f32::NAN, -0.4),
        ..Settings::default()
    };

    let warnings = settings.normalize();
    assert_eq!(settings.interval_minutes, 1);
    assert_eq!(settings.duration_seconds, 600);
    assert_eq!(settings.opacity_percent, 5);
    assert_eq!(settings.width_percent, 100);
    assert_eq!(settings.position, NormalizedPosition::default());
    assert_eq!(warnings.len(), 6);
    assert_eq!(
        warnings[0],
        "interval_minutes was outside its supported range and was clamped"
    );
    assert_eq!(warnings[5], "position.y was invalid and was reset");
    assert!(settings.normalize().is_empty());
}

#[test]
fn positions_from_zero_to_one_are_kept() {
    for (x, kept) in [
        (0.0, true),
        (-0.0, true),
        (1.0, true),
        (0.25, true),
        (f32::MIN_POSITIVE / 2.0, true),
        (1.000_000_1, false),
        (-f32::MIN_POSITIVE, false),
        (f32::INFINITY, false),
        (f32::NEG_INFINITY, false),
        (f32::NAN, false),
    ] {
        let mut settings = Settings {
            position: at(x, 0.75),
            ..Settings::default()
        };
        assert_eq!(settings.normalize().is_empty(), kept);
        let expected = if kept { x } else { 0.5 };
        assert_eq!(settings.position.x.bits, expected.to_bits());
        assert_eq!(settings.position.y.bits, 0.75_f32.to_bits());
    }
}

#[test]
fn positions_compare_as_numbers() {
    assert_eq!(at(0.0, 1.0), at(-0.0, 1.0));
    assert_ne!(at(0.0, 1.0), at(0.0, -1.0));
    assert_ne!(at(f32::NAN, 1.0), at(f32::NAN, 1.0));
}

#[test]
fn relative_images_are_resolved_from_the_executable_directory() {
    let settings = Settings {
        image_path: Some(PathBuf::from("images/eye.png")),
        ..Settings::default()
    };
    assert_eq!(
        settings.resolve_image_path(Path::new("C:/Apps/OhMyEyes")),
        Some(PathBuf::from("C:/Apps/OhMyEyes/images/eye.png"))
    );
    assert_eq!(
        Settings::default().resolve_image_path(Path::new("unused")),
        None
    );
}

#[test]
fn absolute_image_paths_are_preserved() {
    let directory = tempfile::tempdir().expect("temporary directory should be created");
    let image_path = directory.path().join("eye.png");
    let settings = Settings {
        image_path: Some(image_path.clone()),
        ..Settings::default()
    };

    assert_eq!(
        settings.resolve_image_path(Path::new("unused")),
        Some(image_path)
    );
}

#[test]
fn missing_configuration_returns_defaults() {
    let loaded = LoadedSettings::missing();

    assert_eq!(loaded.settings, Settings::default());
    assert!(loaded.warnings.is_empty());
}

#[test]
fn partial_configuration_uses_defaults_and_reports_normalization() {
    let document = read_document(br#"{"interval_minutes":0}"#).expect("document should be read");
    let loaded = LoadedSettings::from_file(Settings {
        interval_minutes: document["interval_minutes"].as_u64().expect("number") as u32,
        ..Settings::default()
    });

    assert_eq!(loaded.settings.interval_minutes, 1);
    assert_eq!(loaded.settings.duration_seconds, 20);
    assert_eq!(loaded.warnings.len(), 1);
    assert!(loaded.warnings[0].contains("interval_minutes"));
}

#[test]
fn newer_configuration_schema_is_rejected() {
    let schema = u64::from(CONFIG_SCHEMA_VERSION) + 1;
    let error = read_document(format!(r#"{{"schema_version":{schema}}}"#).as_bytes())
        .expect_err("future schema should be rejected");

    assert!(matches!(
        error,
        ConfigError::UnsupportedSchema { found, supported }
            if found == schema && supported == CONFIG_SCHEMA_VERSION
    ));
}

#[test]
fn schema_is_the_first_where_no_number_says_otherwise() {
    for document in [
        &br#"{"schema_version":1}"#[..],
        br#"{"schema_version":0}"#,
        br#"{"schema_version":"2"}"#,
        br#"{"schema_version":-2}"#,
        br#"{"schema_version":2.5}"#,
        b"{}",
        b"[2]",
    ] {
        assert!(read_document(document).is_ok());
    }
    assert!(check_schema_version(None).is_ok());
    assert!(check_schema_version(Some(1)).is_ok());
    assert!(matches!(
        check_schema_version(Some(u64::MAX)),
        Err(ConfigError::UnsupportedSchema {
            found: u64::MAX,
            supported: 1
        })
    ));
}

#[test]
fn malformed_configuration_is_reported() {
    let error = read_document(b"{not-json").expect_err("invalid JSON should be rejected");

    assert!(matches!(error, ConfigError::Json(_)));
}

#[test]
fn saving_normalizes_a_copy_without_mutating_the_caller() {
    let settings = Settings {
        interval_minutes: 0,
        opacity_percent: 1,
        ..Settings::default()
    };

    let loaded = LoadedSettings::from_file(settings.normalized_copy());

    assert_eq!(settings.interval_minutes, 0);
    assert_eq!(settings.opacity_percent, 1);
    assert_eq!(loaded.settings.interval_minutes, 1);
    assert_eq!(loaded.settings.opacity_percent, 5);
    assert!(loaded.warnings.is_empty());
    assert_eq!(file_contents(b"{}".to_vec()), b"{}\n");
}

#[test]
fn oversized_configuration_is_rejected_before_parsing() {
    assert_eq!(
        check_length(MAX_CONFIG_FILE_SIZE as u64 + 1, MAX_CONFIG_FILE_SIZE),
        Err(TooLarge)
    );
    assert_eq!(
        check_length(MAX_CONFIG_FILE_SIZE as u64, MAX_CONFIG_FILE_SIZE),
        Ok(())
    );
}

#[test]
fn read_file_enforces_the_limit_on_the_open_handle() {
    assert_eq!(read_budget(4), 5);
    assert_eq!(read_budget(usize::MAX), u64::MAX);
    assert_eq!(check_bytes(b"12345".to_vec(), 4), Err(TooLarge));
    assert_eq!(
        check_bytes(b"12345".to_vec(), 5).expect("bounded read"),
        b"12345"
    );
}

#[test]
fn times_follow_from_minutes_and_seconds() {
    let settings = Settings {
        interval_minutes: 42,
        duration_seconds: 17,
        ..Settings::default()
    };
    assert_eq!(settings.interval(), Duration::from_secs(2_520));
    assert_eq!(settings.overlay_duration(), Duration::from_secs(17));
    assert_eq!(settings.clone(), settings);
}

#[test]
fn stores_keep_their_path() {
    let store = ConfigStore::new(PathBuf::from("somewhere/config.json"));
    assert_eq!(store.clone().path(), Path::new("somewhere/config.json"));
}

#[test]
fn errors_have_texts_for_people() {
    assert_eq!(
        ConfigError::UnsupportedSchema {
            found: 12,
            supported: 1
        }
        .message(),
        "the configuration schema 12 is newer than supported schema 1"
    );
    assert_eq!(
        ConfigError::TooLarge.message(),
        "the configuration file is larger than 1 MiB"
    );
    let error = read_document(b"{not-json").expect_err("invalid JSON should be rejected");
    let text = error.message();
    let ConfigError::Json(cause) = error else {
        panic!("unexpected error: {text}");
    };
    assert_eq!(
        text,
        format!("failed to parse or serialize configuration: {cause}")
    );
}
