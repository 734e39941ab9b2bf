//! Settings: their defaults, their ranges and the file that keeps them.

use std::path::{Path, PathBuf};

use vstd::prelude::*;
use vstd::string::*;

use crate::binary_float::Single;
use crate::text::{decimal, optional_text, push_decimal, texts};
use crate::time::{Duration, NANOS_PER_SEC};

verus! {

/// The newest form of the settings file that is understood.
pub const CONFIG_SCHEMA_VERSION: u32 = 1;

/// The largest settings file.
pub const MAX_CONFIG_FILE_SIZE: usize = 1_048_576;

/// A path of the file system that owns its text.
#[verifier::external_type_specification]
#[verifier::external_body]
pub struct ExPathBuf(PathBuf);

/// A path of the file system.
#[verifier::external_type_specification]
#[verifier::external_body]
pub struct ExPath(Path);

/// A JSON document after parsing.
#[verifier::external_type_specification]
#[verifier::external_body]
pub struct ExValue(serde_json::Value);

/// The error that `serde_json` reports.
#[verifier::external_type_specification]
#[verifier::external_body]
pub struct ExJsonError(serde_json::Error);

/// `PathBuf::clone` makes a path with the same text.
pub assume_specification[ <PathBuf as Clone>::clone ](path: &PathBuf) -> (result: PathBuf)
    ensures
        result == *path,
;

/// What a break of the system does to the running interval.
#[derive(Debug, Clone, Copy, PartialEq, Eq, Structural)]
pub enum ResumePolicy {
    Reset,
    Continue,
}

/// Where the middle of the overlay is, as parts of the display's width and height.
#[derive(Debug, Clone, Copy, PartialEq)]
pub struct NormalizedPosition {
    pub x: Single,
    pub y: Single,
}

impl NormalizedPosition {
    /// The middle of the display.
    pub open spec fn middle() -> NormalizedPosition {
        NormalizedPosition { x: Single { bits: 0x3f00_0000 }, y: Single { bits: 0x3f00_0000 } }
    }
}

impl Default for NormalizedPosition {
    fn default() -> (result: Self)
        ensures
            result == NormalizedPosition::middle(),
    {
        NormalizedPosition { x: Single::half(), y: Single::half() }
    }
}

/// Everything that a user can choose.
#[derive(Debug, PartialEq)]
pub struct Settings {
    pub schema_version: u32,
    pub reminders_enabled: bool,
    pub interval_minutes: u32,
    pub duration_seconds: u32,
    pub opacity_percent: u8,
    pub width_percent: u8,
    pub position: NormalizedPosition,
    pub display_id: Option<String>,
    pub image_path: Option<PathBuf>,
    pub start_at_login: bool,
    pub show_tray_icon: bool,
    pub resume_policy: ResumePolicy,
}

/// The contents of `Settings`.
#[verifier::ext_equal]
pub ghost struct Choices {
    pub schema_version: u32,
    pub reminders_enabled: bool,
    pub interval_minutes: u32,
    pub duration_seconds: u32,
    pub opacity_percent: u8,
    pub width_percent: u8,
    pub position: NormalizedPosition,
    pub display_id: Option<Seq<char>>,
    pub image_path: Option<PathBuf>,
    pub start_at_login: bool,
    pub show_tray_icon: bool,
    pub resume_policy: ResumePolicy,
}

impl View for Settings {
    type V = Choices;

    open spec fn view(&self) -> Choices {
        Choices {
            schema_version: self.schema_version,
            reminders_enabled: self.reminders_enabled,
            interval_minutes: self.interval_minutes,
            duration_seconds: self.duration_seconds,
            opacity_percent: self.opacity_percent,
            width_percent: self.width_percent,
            position: self.position,
            display_id: optional_text(self.display_id),
            image_path: self.image_path,
            start_at_login: self.start_at_login,
            show_tray_icon: self.show_tray_icon,
            resume_policy: self.resume_policy,
        }
    }
}

/// The number in a range that is nearest to a value.
pub open spec fn clamped(value: int, min: int, max: int) -> int {
    if value < min {
        min
    } else if value > max {
        max
    } else {
        value
    }
}

/// A number of a position, or a half where it is not from zero to one.
pub open spec fn repaired(part: Single) -> Single {
    if part.in_unit_range() {
        part
    } else {
        Single { bits: 0x3f00_0000 }
    }
}

/// What is said of a value that is moved into its range.
pub open spec fn range_warning(value: int, min: int, max: int, name: Seq<char>) -> Seq<Seq<char>> {
    if min <= value <= max {
        seq![]
    } else {
        seq![name + " was outside its supported range and was clamped"@]
    }
}

/// What is said of a number of a position that is not from zero to one.
pub open spec fn position_warning(part: Single, text: Seq<char>) -> Seq<Seq<char>> {
    if part.in_unit_range() {
        seq![]
    } else {
        seq![text]
    }
}

impl Choices {
    /// What is chosen where nothing was ever changed: a reminder of 20 seconds every 20
    /// minutes, at 55 percent opacity, a quarter of the display wide and in its middle.
    pub open spec fn default_choices() -> Choices {
        Choices {
            schema_version: CONFIG_SCHEMA_VERSION,
            reminders_enabled: true,
            interval_minutes: 20,
            duration_seconds: 20,
            opacity_percent: 55,
            width_percent: 25,
            position: NormalizedPosition::middle(),
            display_id: None,
            image_path: None,
            start_at_login: false,
            show_tray_icon: false,
            resume_policy: ResumePolicy::Reset,
        }
    }

    /// The choices with every number moved into its range and the version set.
    pub open spec fn normalized(self) -> Choices {
        Choices {
            schema_version: CONFIG_SCHEMA_VERSION,
            interval_minutes: clamped(self.interval_minutes as int, 1, 1_440) as u32,
            duration_seconds: clamped(self.duration_seconds as int, 1, 600) as u32,
            opacity_percent: clamped(self.opacity_percent as int, 5, 100) as u8,
            width_percent: clamped(self.width_percent as int, 5, 100) as u8,
            position: NormalizedPosition {
                x: repaired(self.position.x),
                y: repaired(self.position.y),
            },
            ..self
        }
    }

    /// What is said of the choices that are out of range.
    pub open spec fn warnings(self) -> Seq<Seq<char>> {
        range_warning(self.interval_minutes as int, 1, 1_440, "interval_minutes"@)
            + range_warning(self.duration_seconds as int, 1, 600, "duration_seconds"@)
            + range_warning(self.opacity_percent as int, 5, 100, "opacity_percent"@)
            + range_warning(self.width_percent as int, 5, 100, "width_percent"@)
            + position_warning(self.position.x, "position.x was invalid and was reset"@)
            + position_warning(self.position.y, "position.y was invalid and was reset"@)
    }

    /// Whether every number is in its range.
    pub open spec fn in_range(self) -> bool {
        &&& 1 <= self.interval_minutes <= 1_440
        &&& 1 <= self.duration_seconds <= 600
        &&& 5 <= self.opacity_percent <= 100
        &&& 5 <= self.width_percent <= 100
        &&& self.position.x.in_unit_range()
        &&& self.position.y.in_unit_range()
    }
}

impl Default for Settings {
    fn default() -> (result: Self)
        ensures
            result@ == Choices::default_choices(),
    {
        Settings {
            schema_version: CONFIG_SCHEMA_VERSION,
            reminders_enabled: true,
            interval_minutes: 20,
            duration_seconds: 20,
            opacity_percent: 55,
            width_percent: 25,
            position: NormalizedPosition::default(),
            display_id: None,
            image_path: None,
            start_at_login: false,
            show_tray_icon: false,
            resume_policy: ResumePolicy::Reset,
        }
    }
}

impl Clone for Settings {
    fn clone(&self) -> (result: Self)
        ensures
            result@ == self@,
    {
        Settings {
            schema_version: self.schema_version,
            reminders_enabled: self.reminders_enabled,
            interval_minutes: self.interval_minutes,
            duration_seconds: self.duration_seconds,
            opacity_percent: self.opacity_percent,
            width_percent: self.width_percent,
            position: self.position,
            display_id: match &self.display_id {
                Some(id) => Some(id.clone()),
                None => None,
            },
            image_path: match &self.image_path {
                Some(path) => Some(path.clone()),
                None => None,
            },
            start_at_login: self.start_at_login,
            show_tray_icon: self.show_tray_icon,
            resume_policy: self.resume_policy,
        }
    }
}

/// Moves a value into a range, and notes where that changes it.
fn normalize_range(value: u32, min: u32, max: u32, name: &str, warnings: &mut Vec<String>) -> (result:
    u32)
    requires
        min <= max,
    ensures
        result == clamped(value as int, min as int, max as int),
        texts(final(warnings)@) == texts(old(warnings)@) + range_warning(
            value as int,
            min as int,
            max as int,
            name@,
        ),
{
    let normalized: u32 = if value < min {
        min
    } else if value > max {
        max
    } else {
        value
    };
    if normalized != value {
        let mut warning = name.to_owned();
        warning.append(" was outside its supported range and was clamped");
        warnings.push(warning);
    }
    assert(texts(warnings@) =~= texts(old(warnings)@) + range_warning(
        value as int,
        min as int,
        max as int,
        name@,
    ));
    normalized
}

/// Resets a number of a position that is not from zero to one, and notes it.
fn repair_part(part: Single, text: &str, warnings: &mut Vec<String>) -> (result: Single)
    ensures
        result == repaired(part),
        texts(final(warnings)@) == texts(old(warnings)@) + position_warning(part, text@),
{
    let ghost expected = texts(warnings@) + position_warning(part, text@);
    if part.is_in_unit_range() {
        assert(texts(warnings@) =~= expected);
        part
    } else {
        warnings.push(text.to_owned());
        assert(texts(warnings@) =~= expected);
        Single::half()
    }
}

/// Whether `Path::is_absolute` can answer this of a path. What is absolute differs between
/// systems.
pub uninterp spec fn absoluteness(path: PathBuf, absolute: bool) -> bool;

/// Whether `Path::join` can make `result` of a directory and a path. Separators and prefixes
/// differ between systems.
pub uninterp spec fn joined(directory: &Path, path: PathBuf, result: PathBuf) -> bool;

/// `Path::is_absolute`. Which paths are absolute is left open.
#[verifier::external_body]
fn is_absolute(path: &PathBuf) -> (absolute: bool)
    ensures
        absoluteness(*path, absolute),
{
    path.is_absolute()
}

/// `Path::join` puts a path behind a directory. What that makes of their texts is left open.
#[verifier::external_body]
fn join(directory: &Path, path: &PathBuf) -> (result: PathBuf)
    ensures
        joined(directory, *path, result),
{
    directory.join(path)
}

/// Whether `resolved` is where a chosen image lies: its own path where that is absolute, else
/// its path from the program's directory.
pub open spec fn resolves_to(path: PathBuf, directory: &Path, resolved: PathBuf) -> bool {
    ||| absoluteness(path, true) && resolved == path
    ||| absoluteness(path, false) && joined(directory, path, resolved)
}

impl Settings {
    /// Moves every number into its range, and says what was changed.
    pub fn normalize(&mut self) -> (warnings: Vec<String>)
        ensures
            final(self)@ == old(self)@.normalized(),
            texts(warnings@) == old(self)@.warnings(),
    {
        let ghost before = self@;
        let mut warnings: Vec<String> = Vec::new();
        assert(texts(warnings@) =~= Seq::<Seq<char>>::empty());
        self.interval_minutes =
        normalize_range(self.interval_minutes, 1, 1_440, "interval_minutes", &mut warnings);
        self.duration_seconds =
        normalize_range(self.duration_seconds, 1, 600, "duration_seconds", &mut warnings);
        self.opacity_percent =
        normalize_range(self.opacity_percent as u32, 5, 100, "opacity_percent", &mut warnings)
            as u8;
        self.width_percent =
        normalize_range(self.width_percent as u32, 5, 100, "width_percent", &mut warnings) as u8;
        self.position = NormalizedPosition {
            x: repair_part(
                self.position.x,
                "position.x was invalid and was reset",
                &mut warnings,
            ),
            y: repair_part(
                self.position.y,
                "position.y was invalid and was reset",
                &mut warnings,
            ),
        };
        self.schema_version = CONFIG_SCHEMA_VERSION;
        assert(texts(warnings@) =~= before.warnings());
        warnings
    }

    /// A copy with every number in its range. The settings themselves stay.
    pub fn normalized_copy(&self) -> (result: Settings)
        ensures
            result@ == self@.normalized(),
    {
        let mut copy = self.clone();
        copy.normalize();
        copy
    }

    /// The time between two reminders.
    pub fn interval(&self) -> (result: Duration)
        ensures
            result@ == self.interval_minutes * 60 * NANOS_PER_SEC,
    {
        Duration::from_secs(self.interval_minutes as u64 * 60)
    }

    /// How long a reminder is shown.
    pub fn overlay_duration(&self) -> (result: Duration)
        ensures
            result@ == self.duration_seconds * NANOS_PER_SEC,
    {
        Duration::from_secs(self.duration_seconds as u64)
    }

    /// Where the chosen image lies, if one is chosen.
    pub fn resolve_image_path(&self, executable_dir: &Path) -> (result: Option<PathBuf>)
        ensures
            result is Some <==> self.image_path is Some,
            result matches Some(resolved) ==> resolves_to(
                self.image_path->0,
                executable_dir,
                resolved,
            ),
    {
        match &self.image_path {
            None => None,
            Some(path) => if is_absolute(path) {
                Some(path.clone())
            } else {
                Some(join(executable_dir, path))
            },
        }
    }
}

/// Why the settings file cannot be used.
#[derive(Debug)]
pub enum ConfigError {
    UnsupportedSchema { found: u64, supported: u32 },
    TooLarge,
    Json(serde_json::Error),
}

/// Whether an error of `serde_json` can have this text. One that came from the operating system
/// may be in the user's language.
pub uninterp spec fn json_error_text(error: serde_json::Error, text: Seq<char>) -> bool;

/// `ToString::to_string` on a `serde_json::Error`. What the text is is left open.
#[verifier::external_body]
fn text_of_json_error(error: &serde_json::Error) -> (text: String)
    ensures
        json_error_text(*error, text@),
{
    error.to_string()
}

impl ConfigError {
    /// Whether this is what a user reads of the error.
    pub open spec fn reads(self, text: Seq<char>) -> bool {
        match self {
            ConfigError::UnsupportedSchema { found, supported } => text
                == "the configuration schema "@ + decimal(found as nat)
                + " is newer than supported schema "@ + decimal(supported as nat),
            ConfigError::TooLarge => text == "the configuration file is larger than 1 MiB"@,
            ConfigError::Json(error) => exists|cause: Seq<char>|
                #[trigger] json_error_text(error, cause) && text
                    == "failed to parse or serialize configuration: "@ + cause,
        }
    }

    /// What a user reads of the error.
    pub fn message(&self) -> (text: String)
        ensures
            self.reads(text@),
    {
        match self {
            ConfigError::UnsupportedSchema { found, supported } => {
                let mut text = "the configuration schema ".to_owned();
                push_decimal(&mut text, *found);
                text.append(" is newer than supported schema ");
                push_decimal(&mut text, *supported as u64);
                text
            },
            ConfigError::TooLarge => "the configuration file is larger than 1 MiB".to_owned(),
            ConfigError::Json(error) => {
                let cause = text_of_json_error(error);
                let mut text = "failed to parse or serialize configuration: ".to_owned();
                text.append(cause.as_str());
                assert(json_error_text(*error, cause@));
                text
            },
        }
    }
}

/// Settings that were read, and what had to be changed in them.
#[derive(Debug)]
pub struct LoadedSettings {
    pub settings: Settings,
    pub warnings: Vec<String>,
}

impl LoadedSettings {
    /// What is used where there is no settings file.
    pub fn missing() -> (result: Self)
        ensures
            result.settings@ == Choices::default_choices(),
            result.warnings@.len() == 0,
    {
        LoadedSettings { settings: Settings::default(), warnings: Vec::new() }
    }

    /// What is used of settings that were read.
    pub fn from_file(settings: Settings) -> (result: Self)
        ensures
            result.settings@ == settings@.normalized(),
            texts(result.warnings@) == settings@.warnings(),
    {
        let mut settings = settings;
        let warnings = settings.normalize();
        LoadedSettings { settings, warnings }
    }
}

/// The document that `serde_json::from_slice` makes of bytes, if they are JSON.
pub uninterp spec fn json_document(bytes: Seq<u8>) -> Option<serde_json::Value>;

/// What `Value::get` finds in a document under a name.
pub uninterp spec fn json_member(
    document: serde_json::Value,
    name: Seq<char>,
) -> Option<serde_json::Value>;

/// The number that `Value::as_u64` takes a JSON value for.
pub uninterp spec fn json_unsigned(value: serde_json::Value) -> Option<u64>;

/// The unsigned number that a document holds under a name.
pub open spec fn json_number(document: serde_json::Value, name: Seq<char>) -> Option<u64> {
    match json_member(document, name) {
        Some(value) => json_unsigned(value),
        None => None,
    }
}

/// `serde_json::from_slice` reads JSON: a document, or an error where the bytes are none.
#[verifier::external_body]
fn parse_json(bytes: &[u8]) -> (result: Result<serde_json::Value, serde_json::Error>)
    ensures
        match result {
            Ok(document) => json_document(bytes@) == Some(document),
            Err(_) => json_document(bytes@) is None,
        },
{
    serde_json::from_slice(bytes)
}

/// `Value::get` finds the value under a name, where the document is an object that has one.
#[verifier::external_body]
fn member<'a>(document: &'a serde_json::Value, name: &str) -> (value: Option<&'a serde_json::Value>)
    ensures
        match value {
            Some(value) => json_member(*document, name@) == Some(*value),
            None => json_member(*document, name@) is None,
        },
{
    document.get(name)
}

/// `Value::as_u64` takes a value for an unsigned number, where it is one below two to the power
/// of 64.
#[verifier::external_body]
fn unsigned(value: &serde_json::Value) -> (number: Option<u64>)
    ensures
        number == json_unsigned(*value),
{
    value.as_u64()
}

fn number_under(document: &serde_json::Value, name: &str) -> (number: Option<u64>)
    ensures
        number == json_number(*document, name@),
{
    match member(document, name) {
        Some(value) => unsigned(value),
        None => None,
    }
}

/// The version of a settings file, which is the first where the file does not say.
pub open spec fn schema_of(found: Option<u64>) -> u64 {
    match found {
        Some(version) => version,
        None => 1,
    }
}

/// Checks that a settings file is of a version that is understood.
pub fn check_schema_version(found: Option<u64>) -> (result: Result<(), ConfigError>)
    ensures
        match result {
            Ok(_) => schema_of(found) <= CONFIG_SCHEMA_VERSION,
            Err(error) => schema_of(found) > CONFIG_SCHEMA_VERSION && error == (
            ConfigError::UnsupportedSchema {
                found: schema_of(found),
                supported: CONFIG_SCHEMA_VERSION,
            }),
        },
{
    let version: u64 = match found {
        Some(version) => version,
        None => 1,
    };
    if version > CONFIG_SCHEMA_VERSION as u64 {
        return Err(
            ConfigError::UnsupportedSchema { found: version, supported: CONFIG_SCHEMA_VERSION },
        );
    }
    Ok(())
}

/// Reads the contents of a settings file as far as its version; the document holds the settings.
pub fn read_document(bytes: &[u8]) -> (result: Result<serde_json::Value, ConfigError>)
    ensures
        match json_document(bytes@) {
            None => result matches Err(ConfigError::Json(_)),
            Some(document) => {
                let version = schema_of(json_number(document, "schema_version"@));
                if version > CONFIG_SCHEMA_VERSION {
                    result == Err::<serde_json::Value, ConfigError>(
                        ConfigError::UnsupportedSchema {
                            found: version,
                            supported: CONFIG_SCHEMA_VERSION,
                        },
                    )
                } else {
                    result == Ok::<serde_json::Value, ConfigError>(document)
                }
            },
        },
{
    let document = match parse_json(bytes) {
        Ok(document) => document,
        Err(error) => return Err(ConfigError::Json(error)),
    };
    match check_schema_version(number_under(&document, "schema_version")) {
        Ok(_) => Ok(document),
        Err(error) => Err(error),
    }
}

/// What is written for serialized settings: they end with a line feed.
pub fn file_contents(serialized: Vec<u8>) -> (result: Vec<u8>)
    ensures
        result@ == serialized@.push(0x0a),
{
    let mut contents = serialized;
    contents.push(0x0a);
    contents
}

/// The file that keeps the settings.
#[derive(Debug)]
pub struct ConfigStore {
    path: PathBuf,
}

impl View for ConfigStore {
    type V = PathBuf;

    closed spec fn view(&self) -> PathBuf {
        self.path
    }
}

impl Clone for ConfigStore {
    fn clone(&self) -> (result: Self)
        ensures
            result@ == self@,
    {
        ConfigStore { path: self.path.clone() }
    }
}

impl ConfigStore {
    /// The settings in a file.
    pub fn new(path: PathBuf) -> (result: Self)
        ensures
            result@ == path,
    {
        ConfigStore { path }
    }

    /// The file's path.
    pub fn path(&self) -> (result: &PathBuf)
        ensures
            *result == self@,
    {
        &self.path
    }
}

/// Settings are in range once they are normalized.
pub proof fn normalized_settings_are_in_range(choices: Choices)
    ensures
        choices.normalized().in_range(),
        choices.normalized().schema_version == CONFIG_SCHEMA_VERSION,
{
    Single::half_is_in_unit_range();
}

/// Nothing is said of settings that are in range, and nothing but their version changes.
pub proof fn settings_in_range_stay(choices: Choices)
    requires
        choices.in_range(),
    ensures
        choices.warnings() == Seq::<Seq<char>>::empty(),
        choices.normalized() == (Choices { schema_version: CONFIG_SCHEMA_VERSION, ..choices }),
{
}

/// Settings that were saved are read without a word, as they were saved.
pub proof fn saved_settings_load_unchanged(choices: Choices)
    ensures
        choices.normalized().normalized() == choices.normalized(),
        choices.normalized().warnings() == Seq::<Seq<char>>::empty(),
{
    normalized_settings_are_in_range(choices);
    settings_in_range_stay(choices.normalized());
}

/// Something is said exactly where a number is out of range.
pub proof fn changes_are_reported(choices: Choices)
    ensures
        choices.in_range() <==> choices.warnings().len() == 0,
        choices.warnings().len() <= 6,
{
}

/// The defaults are in range.
pub proof fn defaults_are_in_range()
    ensures
        Choices::default_choices().in_range(),
{
    Single::half_is_in_unit_range();
}

/// Normalizing moves a number that is out of its range to the nearer end of it, resets a part of a
/// position that is not from zero to one to a half, and leaves everything else as it is.
pub proof fn numbers_move_into_their_ranges(choices: Choices)
    ensures
        ({
            let n = choices.normalized();
            let minutes = choices.interval_minutes;
            let seconds = choices.duration_seconds;
            let opacity = choices.opacity_percent;
            let width = choices.width_percent;
            let (x, y) = (choices.position.x, choices.position.y);
            &&& minutes < 1 ==> n.interval_minutes == 1
            &&& 1 <= minutes <= 1_440 ==> n.interval_minutes == minutes
            &&& minutes > 1_440 ==> n.interval_minutes == 1_440
            &&& seconds < 1 ==> n.duration_seconds == 1
            &&& 1 <= seconds <= 600 ==> n.duration_seconds == seconds
            &&& seconds > 600 ==> n.duration_seconds == 600
            &&& opacity < 5 ==> n.opacity_percent == 5
            &&& 5 <= opacity <= 100 ==> n.opacity_percent == opacity
            &&& opacity > 100 ==> n.opacity_percent == 100
            &&& width < 5 ==> n.width_percent == 5
            &&& 5 <= width <= 100 ==> n.width_percent == width
            &&& width > 100 ==> n.width_percent == 100
            &&& n.position.x == if x.bits <= 0x3f80_0000 || x.bits == 0x8000_0000 {
                x
            } else {
                Single { bits: 0x3f00_0000 }
            }
            &&& n.position.y == if y.bits <= 0x3f80_0000 || y.bits == 0x8000_0000 {
                y
            } else {
                Single { bits: 0x3f00_0000 }
            }
            &&& n.schema_version == 1
            &&& n.reminders_enabled == choices.reminders_enabled
            &&& n.display_id == choices.display_id
            &&& n.image_path == choices.image_path
            &&& n.start_at_login == choices.start_at_login
            &&& n.show_tray_icon == choices.show_tray_icon
            &&& n.resume_policy == choices.resume_policy
        }),
{
    choices.position.x.unit_range_in_bits();
    choices.position.y.unit_range_in_bits();
}

/// Every number that is moved is spoken of, in the order of the settings, and no other is.
pub proof fn moved_numbers_are_spoken_of(choices: Choices)
    ensures
        ({
            let warned = |wrong: bool, text: Seq<char>|
                if wrong {
                    seq![text]
                } else {
                    seq![]
                };
            let outside = |wrong: bool, name: Seq<char>|
                warned(wrong, name + " was outside its supported range and was clamped"@);
            let minutes = choices.interval_minutes;
            let seconds = choices.duration_seconds;
            let (x, y) = (choices.position.x.bits, choices.position.y.bits);
            choices.warnings() == outside(minutes < 1 || minutes > 1_440, "interval_minutes"@)
                + outside(seconds < 1 || seconds > 600, "duration_seconds"@) + outside(
                choices.opacity_percent < 5 || choices.opacity_percent > 100,
                "opacity_percent"@,
            ) + outside(
                choices.width_percent < 5 || choices.width_percent > 100,
                "width_percent"@,
            ) + warned(
                x > 0x3f80_0000 && x != 0x8000_0000,
                "position.x was invalid and was reset"@,
            ) + warned(
                y > 0x3f80_0000 && y != 0x8000_0000,
                "position.y was invalid and was reset"@,
            )
        }),
{
    choices.position.x.unit_range_in_bits();
    choices.position.y.unit_range_in_bits();
}

/// What is chosen at first, in numbers: 20 seconds every 20 minutes, 55 percent opaque, a quarter
/// as wide as the display and in its middle.
pub proof fn defaults_in_numbers()
    ensures
        ({
            let d = Choices::default_choices();
            &&& d.reminders_enabled && !d.start_at_login && !d.show_tray_icon
            &&& d.interval_minutes == 20 && d.duration_seconds == 20
            &&& d.opacity_percent == 55 && d.width_percent == 25
            &&& d.position.x.bits == 0x3f00_0000 && d.position.y.bits == 0x3f00_0000
            &&& d.display_id is None && d.image_path is None
            &&& d.resume_policy == ResumePolicy::Reset
            &&& d.schema_version == 1
        }),
        MAX_CONFIG_FILE_SIZE == 1024 * 1024,
        CONFIG_SCHEMA_VERSION == 1,
{
}

/// A file that does not say its version is of the first one, and any other is of the one that it
/// says.
pub proof fn versions_are_taken_as_said(version: u64)
    ensures
        schema_of(None) == 1,
        schema_of(Some(version)) == version,
{
}

/// A path that is absolute is taken as it is, and one that is not from the program's directory.
pub proof fn relative_paths_start_at_the_program(
    path: PathBuf,
    directory: &Path,
    resolved: PathBuf,
)
    requires
        resolves_to(path, directory, resolved),
    ensures
        !absoluteness(path, false) ==> resolved == path,
        !absoluteness(path, true) ==> joined(directory, path, resolved),
{
}

/// A part of a position that is stored as a number from zero to one stays; any other becomes a
/// half, and that is said.
pub proof fn positions_are_repaired(part: Single, text: Seq<char>)
    ensures
        part.bits <= 0x3f80_0000 || part.bits == 0x8000_0000 ==> repaired(part) == part
            && position_warning(part, text).len() == 0,
        part.bits > 0x3f80_0000 && part.bits != 0x8000_0000 ==> repaired(part).bits == 0x3f00_0000
            && position_warning(part, text) == seq![text],
        repaired(repaired(part)) == repaired(part),
{
    part.unit_range_in_bits();
    repaired(part).unit_range_in_bits();
}

} // verus!
