//! Windows: its displays, its session events and its tray menu.
//!
//! Whoever calls Windows hands in what it reports as plain numbers and texts.

use std::path::Path;

use vstd::prelude::*;
use vstd::slice::*;
use vstd::string::*;

use crate::linux::{path_text, text_of_path};
use crate::text::{decimal, push_decimal, push_signed_decimal, same_text, signed_decimal};
use crate::{AppCommand, SystemPauseReason};

verus! {

/// The operating system's error.
#[verifier::external_type_specification]
#[verifier::external_body]
pub struct ExIoError(std::io::Error);

/// How long to wait before session notifications are asked for again, in milliseconds.
pub const SESSION_REGISTRATION_RETRY_MS: u32 = 1_000;

/// The error of a session service that has not started yet.
pub const RPC_S_INVALID_BINDING_CODE: i32 = 1_702;

/// The code with which Windows grants a request.
pub const SUCCESS_CODE: u32 = 0;

/// The code with which Windows says that there is more to tell than there was room for.
pub const INSUFFICIENT_BUFFER_CODE: u32 = 122;

/// The message of Windows that displays changed.
pub const WM_DISPLAYCHANGE: u32 = 126;

/// The message of Windows that power management did something.
pub const WM_POWERBROADCAST: u32 = 536;

/// The message of Windows that a session changed.
pub const WM_WTSSESSION_CHANGE: u32 = 689;

/// The system is about to be suspended.
pub const PBT_APMSUSPEND: u32 = 4;

/// The system resumed.
pub const PBT_APMRESUMEAUTOMATIC: u32 = 18;

/// The session was locked.
pub const WTS_SESSION_LOCK: u32 = 7;

/// The session was unlocked.
pub const WTS_SESSION_UNLOCK: u32 = 8;

/// A rectangle on the desktop. Its right and bottom edges lie outside it.
#[derive(Debug, Clone, Copy, PartialEq, Eq, Structural)]
pub struct Rect {
    pub left: i32,
    pub top: i32,
    pub right: i32,
    pub bottom: i32,
}

/// The width and height of a display, if both are positive and in range.
pub open spec fn dimensions(rect: Rect) -> Option<(u32, u32)> {
    if 0 < rect.right - rect.left <= i32::MAX && 0 < rect.bottom - rect.top <= i32::MAX {
        Some(((rect.right - rect.left) as u32, (rect.bottom - rect.top) as u32))
    } else {
        None
    }
}

/// The width and height of a display, if both are positive and in range.
pub fn display_dimensions(rect: &Rect) -> (result: Option<(u32, u32)>)
    ensures
        result == dimensions(*rect),
{
    let width: i64 = rect.right as i64 - rect.left as i64;
    let height: i64 = rect.bottom as i64 - rect.top as i64;
    if 0 < width && width <= 0x7fff_ffff && 0 < height && height <= 0x7fff_ffff {
        Some((width as u32, height as u32))
    } else {
        None
    }
}

/// Whether a unit of UTF-16 is the first of a pair.
pub open spec fn leads_pair(unit: u16) -> bool {
    0xd800 <= unit <= 0xdbff
}

/// Whether a unit of UTF-16 is the second of a pair.
pub open spec fn ends_pair(unit: u16) -> bool {
    0xdc00 <= unit <= 0xdfff
}

/// The text of UTF-16, with the replacement character for every unit that is out of place.
pub open spec fn utf16_text(units: Seq<u16>) -> Seq<char>
    decreases units.len(),
{
    if units.len() == 0 {
        seq![]
    } else if leads_pair(units[0]) && units.len() > 1 && ends_pair(units[1]) {
        seq![(0x1_0000 + (units[0] - 0xd800) * 0x400 + (units[1] - 0xdc00)) as char]
            + utf16_text(units.skip(2))
    } else if leads_pair(units[0]) || ends_pair(units[0]) {
        seq!['\u{fffd}'] + utf16_text(units.skip(1))
    } else {
        seq![units[0] as char] + utf16_text(units.skip(1))
    }
}

/// `String::from_utf16_lossy` reads UTF-16 and puts the replacement character for what is not.
pub assume_specification[ String::from_utf16_lossy ](units: &[u16]) -> (text: String)
    ensures
        text@ == utf16_text(units@),
;

/// The part of a buffer before its first zero.
pub open spec fn before_zero(units: Seq<u16>) -> Seq<u16> {
    match units.index_of_first(0) {
        Some(length) => units.take(length),
        None => units,
    }
}

/// The text in a buffer, which ends at the first zero.
pub fn wide_string(buffer: &[u16]) -> (result: String)
    ensures
        result@ == utf16_text(before_zero(buffer@)),
{
    let mut length: usize = 0;
    while length < buffer.len() && buffer[length] != 0
        invariant
            length <= buffer@.len(),
            forall|i: int| 0 <= i < length ==> buffer@[i] != 0,
        decreases buffer@.len() - length,
    {
        length += 1;
    }
    proof {
        buffer@.index_of_first_ensures(0);
        if length < buffer@.len() {
            assert(buffer@[length as int] == 0);
        }
        assert(buffer@.subrange(0, length as int) =~= before_zero(buffer@));
    }
    String::from_utf16_lossy(slice_subrange(buffer, 0, length))
}

/// The small letters of a text, as Unicode has them.
pub uninterp spec fn lowercase(text: Seq<char>) -> Seq<char>;

/// `str::to_lowercase` maps a text to small letters.
#[verifier::external_body]
fn to_lowercase(text: &str) -> (result: String)
    ensures
        result@ == lowercase(text@),
{
    text.to_lowercase()
}

/// `str::strip_prefix` gives what follows a prefix, where the text starts with it.
#[verifier::external_body]
fn strip_prefix<'a>(text: &'a str, prefix: &str) -> (rest: Option<&'a str>)
    ensures
        rest is Some <==> prefix@.is_prefix_of(text@),
        rest matches Some(rest) ==> rest@ == text@.skip(prefix@.len() as int),
{
    text.strip_prefix(prefix)
}

/// What stays the same of a display when the others change.
#[derive(Debug)]
pub struct DisplayIdentity {
    pub id: String,
    pub friendly_name: Option<String>,
}

/// The contents of a `DisplayIdentity`.
pub ghost struct Identity {
    pub id: Seq<char>,
    pub friendly_name: Option<Seq<char>>,
}

impl View for DisplayIdentity {
    type V = Identity;

    open spec fn view(&self) -> Identity {
        Identity {
            id: self.id@,
            friendly_name: match self.friendly_name {
                Some(name) => Some(name@),
                None => None,
            },
        }
    }
}

struct IdentityEntry {
    source: String,
    identity: DisplayIdentity,
}

/// The identities of displays, by the small letters of the names that Windows draws to.
pub struct DisplayIdentities {
    entries: Vec<IdentityEntry>,
}

spec fn entry_names(entries: Seq<IdentityEntry>) -> Seq<Seq<char>> {
    Seq::new(entries.len(), |i: int| entries[i].source@)
}

impl View for DisplayIdentities {
    type V = Map<Seq<char>, Identity>;

    closed spec fn view(&self) -> Map<Seq<char>, Identity> {
        Map::new(
            |name: Seq<char>| entry_names(self.entries@).contains(name),
            |name: Seq<char>|
                self.entries@[entry_names(self.entries@).index_of_first(name)->0].identity@,
        )
    }
}

impl DisplayIdentities {
    /// No name occurs twice.
    #[verifier::type_invariant]
    spec fn distinct(self) -> bool {
        entry_names(self.entries@).no_duplicates()
    }

    /// No identities.
    pub fn new() -> (result: Self)
        ensures
            result@ == Map::<Seq<char>, Identity>::empty(),
    {
        let entries: Vec<IdentityEntry> = Vec::new();
        let result = DisplayIdentities { entries };
        assert(result@ =~= Map::<Seq<char>, Identity>::empty());
        result
    }

    fn find(&self, name: &str) -> (result: Option<usize>)
        ensures
            match result {
                Some(index) => index < self.entries@.len() && entry_names(
                    self.entries@,
                ).index_of_first(name@) == Some(index as int) && self@.dom().contains(name@)
                    && self@[name@] == self.entries@[index as int].identity@,
                None => !self@.dom().contains(name@),
            },
    {
        let ghost names = entry_names(self.entries@);
        let mut i: usize = 0;
        while i < self.entries.len()
            invariant
                i <= self.entries@.len(),
                names == entry_names(self.entries@),
                forall|j: int| 0 <= j < i ==> names[j] != name@,
            decreases self.entries@.len() - i,
        {
            if same_text(self.entries[i].source.as_str(), name) {
                proof {
                    assert(names[i as int] == name@);
                    names.index_of_first_ensures(name@);
                }
                return Some(i);
            }
            assert(names[i as int] != name@);
            i += 1;
        }
        None
    }

    /// Takes an identity in under a name. One that was there before is replaced.
    pub fn insert(self, name: String, identity: DisplayIdentity) -> (result: DisplayIdentities)
        ensures
            result@ == self@.insert(name@, identity@),
    {
        proof {
            use_type_invariant(&self);
        }
        let ghost before = self@;
        let ghost names = entry_names(self.entries@);
        let found = self.find(name.as_str());
        let mut entries = self.entries;
        match found {
            Some(index) => {
                proof {
                    names.index_of_first_ensures(name@);
                }
                entries.set(index, IdentityEntry { source: name, identity });
                assert(entry_names(entries@) =~= names);
                let result = DisplayIdentities { entries };
                proof {
                    assert forall|other: Seq<char>| #[trigger]
                        names.contains(other) implies result@[other] == before.insert(
                        name@,
                        identity@,
                    )[other] by {
                        names.index_of_first_ensures(other);
                    }
                    assert(result@ =~= before.insert(name@, identity@));
                }
                result
            },
            None => {
                entries.push(IdentityEntry { source: name, identity });
                let ghost longer = entry_names(entries@);
                assert(longer =~= names.push(name@));
                assert(longer.no_duplicates());
                let result = DisplayIdentities { entries };
                proof {
                    assert forall|other: Seq<char>|
                        longer.contains(other) <==> names.contains(other) || other == name@ by {
                        if names.contains(other) {
                            let i = choose|i: int| 0 <= i < names.len() && names[i] == other;
                            assert(longer[i] == other);
                        }
                        if other == name@ {
                            assert(longer[names.len() as int] == other);
                        }
                    }
                    assert forall|other: Seq<char>| #[trigger]
                        longer.contains(other) implies result@[other] == before.insert(
                        name@,
                        identity@,
                    )[other] by {
                        longer.index_of_first_ensures(other);
                        names.index_of_first_ensures(other);
                        if other == name@ {
                            assert(longer[names.len() as int] == other);
                        }
                    }
                    assert(result@ =~= before.insert(name@, identity@));
                }
                result
            },
        }
    }

    /// The identity under a name.
    pub fn get(&self, name: &str) -> (result: Option<&DisplayIdentity>)
        ensures
            match result {
                Some(identity) => self@.dom().contains(name@) && identity@ == self@[name@],
                None => !self@.dom().contains(name@),
            },
    {
        match self.find(name) {
            Some(index) => Some(&self.entries[index].identity),
            None => None,
        }
    }
}

/// The name of a source in a buffer, if it has one.
pub fn source_name(buffer: &[u16]) -> (result: Option<String>)
    ensures
        match result {
            Some(name) => name@ == utf16_text(before_zero(buffer@)) && name@.len() > 0,
            None => utf16_text(before_zero(buffer@)).len() == 0,
        },
{
    let name = wide_string(buffer);
    if is_empty(&name) {
        None
    } else {
        Some(name)
    }
}

fn is_empty(text: &String) -> (result: bool)
    ensures
        result == (text@.len() == 0),
{
    proof {
        reveal_strlit("");
        if text@.len() == 0 {
            assert(text@ =~= ""@);
        }
    }
    same_text(text.as_str(), "")
}

/// Takes note of the target that a source is shown on, where the target has a path.
pub fn add_target(
    identities: DisplayIdentities,
    source_name: &str,
    device_path: &[u16],
    friendly_name: &[u16],
) -> (result: DisplayIdentities)
    ensures
        ({
            let path = utf16_text(before_zero(device_path@));
            let friendly = utf16_text(before_zero(friendly_name@));
            result@ == if path.len() == 0 {
                identities@
            } else {
                identities@.insert(
                    lowercase(source_name@),
                    Identity {
                        id: "display-path:"@ + lowercase(path),
                        friendly_name: if friendly.len() == 0 {
                            None
                        } else {
                            Some(friendly)
                        },
                    },
                )
            }
        }),
{
    let path = wide_string(device_path);
    if is_empty(&path) {
        return identities;
    }
    let friendly = wide_string(friendly_name);
    let mut id = "display-path:".to_owned();
    id.append(to_lowercase(path.as_str()).as_str());
    let identity = DisplayIdentity {
        id,
        friendly_name: if is_empty(&friendly) {
            None
        } else {
            Some(friendly)
        },
    };
    identities.insert(to_lowercase(source_name), identity)
}

/// A display as a user can choose it.
#[derive(Debug, Clone)]
pub struct NativeDisplay {
    pub id: String,
    pub legacy_id: String,
    pub label: String,
    pub left: i32,
    pub top: i32,
    pub width: u32,
    pub height: u32,
}

/// A display, and whether it is the primary one.
#[derive(Debug)]
pub struct EnumeratedDisplay {
    pub display: NativeDisplay,
    pub primary: bool,
}

/// The identifier of a display that has only its name, or else its place.
pub open spec fn legacy_identifier(name: Seq<char>, rect: Rect) -> Seq<char> {
    if name.len() == 0 {
        "display@"@ + signed_decimal(rect.left as int) + ","@ + signed_decimal(rect.top as int)
    } else {
        name
    }
}

/// What a display is called that has no friendly name.
pub open spec fn fallback_label(name: Seq<char>) -> Seq<char> {
    let label = if "\\\\.\\DISPLAY"@.is_prefix_of(name) {
        "Display "@ + name.skip("\\\\.\\DISPLAY"@.len() as int)
    } else {
        name
    };
    if label.len() == 0 {
        "Display"@
    } else {
        label
    }
}

/// Whether a display is described as Windows reports it.
pub open spec fn is_description(
    display: NativeDisplay,
    identities: Map<Seq<char>, Identity>,
    rect: Rect,
    name: Seq<char>,
) -> bool {
    let size = dimensions(rect)->0;
    let known = identities.dom().contains(lowercase(name));
    let identity = identities[lowercase(name)];
    let label = if known && identity.friendly_name is Some {
        identity.friendly_name->0
    } else {
        fallback_label(name)
    };
    &&& display.id@ == if known {
        identity.id
    } else {
        legacy_identifier(name, rect)
    }
    &&& display.legacy_id@ == legacy_identifier(name, rect)
    &&& display.label@ == label + " ("@ + decimal(size.0 as nat) + " x "@ + decimal(
        size.1 as nat,
    ) + ")"@
    &&& display.left == rect.left
    &&& display.top == rect.top
    &&& display.width == size.0
    &&& display.height == size.1
}

fn legacy_id_of(name: &String, rect: &Rect) -> (result: String)
    ensures
        result@ == legacy_identifier(name@, *rect),
{
    if !is_empty(name) {
        return name.clone();
    }
    let mut id = "display@".to_owned();
    push_signed_decimal(&mut id, rect.left);
    id.append(",");
    push_signed_decimal(&mut id, rect.top);
    id
}

fn fallback_label_of(name: &String) -> (result: String)
    ensures
        result@ == fallback_label(name@),
{
    let label = match strip_prefix(name.as_str(), "\\\\.\\DISPLAY") {
        Some(number) => {
            let mut label = "Display ".to_owned();
            label.append(number);
            label
        },
        None => name.clone(),
    };
    if is_empty(&label) {
        "Display".to_owned()
    } else {
        label
    }
}

/// Describes a monitor that has pixels.
pub fn describe_monitor(
    identities: &DisplayIdentities,
    rect: &Rect,
    device: &[u16],
    primary: bool,
) -> (result: Option<EnumeratedDisplay>)
    ensures
        match result {
            Some(entry) => dimensions(*rect) is Some && entry.primary == primary
                && is_description(
                entry.display,
                identities@,
                *rect,
                utf16_text(before_zero(device@)),
            ),
            None => dimensions(*rect) is None,
        },
{
    let (width, height) = match display_dimensions(rect) {
        Some(size) => size,
        None => return None,
    };
    let name = wide_string(device);
    let legacy_id = legacy_id_of(&name, rect);
    let identity = identities.get(to_lowercase(name.as_str()).as_str());
    let id = match identity {
        Some(identity) => identity.id.clone(),
        None => legacy_id.clone(),
    };
    let friendly = match identity {
        Some(identity) => match &identity.friendly_name {
            Some(name) => Some(name.clone()),
            None => None,
        },
        None => None,
    };
    let mut label = match friendly {
        Some(name) => name,
        None => fallback_label_of(&name),
    };
    label.append(" (");
    push_decimal(&mut label, width as u64);
    label.append(" x ");
    push_decimal(&mut label, height as u64);
    label.append(")");
    let display = NativeDisplay {
        id,
        legacy_id,
        label,
        left: rect.left,
        top: rect.top,
        width,
        height,
    };
    Some(EnumeratedDisplay { display, primary })
}

/// Whether a display comes before another: the primary one first, then from top to bottom, then
/// from left to right.
pub open spec fn precedes(a: EnumeratedDisplay, b: EnumeratedDisplay) -> bool {
    if a.primary != b.primary {
        a.primary
    } else if a.display.top != b.display.top {
        a.display.top < b.display.top
    } else {
        a.display.left < b.display.left
    }
}

/// Displays in their order with one more, behind those that it does not come before.
pub open spec fn placed(sorted: Seq<EnumeratedDisplay>, display: EnumeratedDisplay) -> Seq<
    EnumeratedDisplay,
>
    decreases sorted.len(),
{
    if sorted.len() == 0 || !precedes(display, sorted.last()) {
        sorted.push(display)
    } else {
        placed(sorted.drop_last(), display).push(sorted.last())
    }
}

/// Displays in their order.
pub open spec fn in_order(displays: Seq<EnumeratedDisplay>) -> Seq<EnumeratedDisplay>
    decreases displays.len(),
{
    if displays.len() == 0 {
        displays
    } else {
        placed(in_order(displays.drop_last()), displays.last())
    }
}

fn comes_before(a: &EnumeratedDisplay, b: &EnumeratedDisplay) -> (result: bool)
    ensures
        result == precedes(*a, *b),
{
    if a.primary != b.primary {
        a.primary
    } else if a.display.top != b.display.top {
        a.display.top < b.display.top
    } else {
        a.display.left < b.display.left
    }
}

proof fn lemma_placed(sorted: Seq<EnumeratedDisplay>, display: EnumeratedDisplay, i: int)
    requires
        0 <= i <= sorted.len(),
        i > 0 ==> !precedes(display, sorted[i - 1]),
        forall|j: int| i <= j < sorted.len() ==> precedes(display, #[trigger] sorted[j]),
    ensures
        placed(sorted, display) == sorted.insert(i, display),
    decreases sorted.len(),
{
    if i == sorted.len() {
        assert(sorted.insert(i, display) =~= sorted.push(display));
    } else {
        assert(precedes(display, sorted[sorted.len() - 1]));
        lemma_placed(sorted.drop_last(), display, i);
        assert(sorted.drop_last().insert(i, display).push(sorted.last()) =~= sorted.insert(
            i,
            display,
        ));
    }
}

fn place(sorted: &mut Vec<EnumeratedDisplay>, display: EnumeratedDisplay)
    ensures
        final(sorted)@ == placed(old(sorted)@, display),
{
    let mut i: usize = sorted.len();
    while i > 0 && comes_before(&display, &sorted[i - 1])
        invariant
            i <= sorted@.len(),
            forall|j: int| i <= j < sorted@.len() ==> precedes(display, #[trigger] sorted@[j]),
        decreases i,
    {
        i -= 1;
    }
    proof {
        lemma_placed(sorted@, display, i as int);
    }
    sorted.insert(i, display);
}

/// The displays in the order in which a user can choose from them; there has to be one.
pub fn finish_enumeration(displays: Vec<EnumeratedDisplay>) -> (result: Result<
    Vec<NativeDisplay>,
    String,
>)
    ensures
        match result {
            Ok(list) => displays@.len() > 0 && list@ == in_order(displays@).map_values(
                |entry: EnumeratedDisplay| entry.display,
            ),
            Err(message) => displays@.len() == 0 && message@
                == "Windows reported no active displays"@,
        },
{
    if displays.len() == 0 {
        return Err("Windows reported no active displays".to_owned());
    }
    let ghost all = displays@;
    let mut rest = displays;
    let mut sorted: Vec<EnumeratedDisplay> = Vec::new();
    let ghost mut done: int = 0;
    proof {
        assert(all.take(0) =~= Seq::empty());
    }
    while rest.len() > 0
        invariant
            0 <= done <= all.len(),
            rest@ =~= all.skip(done),
            sorted@ == in_order(all.take(done)),
        decreases rest@.len(),
    {
        let display = rest.remove(0);
        proof {
            assert(display == all[done]);
            assert(all.take(done + 1).drop_last() =~= all.take(done));
        }
        place(&mut sorted, display);
        proof {
            done = done + 1;
        }
    }
    proof {
        assert(all.take(done) =~= all);
    }
    Ok(displays_of(sorted))
}

fn displays_of(sorted: Vec<EnumeratedDisplay>) -> (result: Vec<NativeDisplay>)
    ensures
        result@ == sorted@.map_values(|entry: EnumeratedDisplay| entry.display),
{
    let ghost all = sorted@;
    let mut rest = sorted;
    let mut result: Vec<NativeDisplay> = Vec::new();
    while rest.len() > 0
        invariant
            result@.len() <= all.len(),
            rest@ =~= all.skip(result@.len() as int),
            forall|i: int| 0 <= i < result@.len() ==> #[trigger] result@[i] == all[i].display,
        decreases rest@.len(),
    {
        let entry = rest.remove(0);
        result.push(entry.display);
    }
    assert(result@ =~= all.map_values(|entry: EnumeratedDisplay| entry.display));
    result
}

/// What became of asking Windows for the active display paths.
#[derive(Debug, Clone, Copy, PartialEq, Eq, Structural)]
pub enum PathQuery {
    /// The paths are there.
    Answered,
    /// There are more paths than were counted: count and ask again.
    Again,
    /// There is none, with this code.
    Failed(u32),
}

/// What became of asking for the active display paths, by the code that came back.
pub fn path_query(code: u32) -> (result: PathQuery)
    ensures
        result == if code == SUCCESS_CODE {
            PathQuery::Answered
        } else if code == INSUFFICIENT_BUFFER_CODE {
            PathQuery::Again
        } else {
            PathQuery::Failed(code)
        },
{
    if code == SUCCESS_CODE {
        PathQuery::Answered
    } else if code == INSUFFICIENT_BUFFER_CODE {
        PathQuery::Again
    } else {
        PathQuery::Failed(code)
    }
}

/// The code that the operating system gave with an error, if it gave one.
pub uninterp spec fn os_code(error: std::io::Error) -> Option<i32>;

/// `io::Error::raw_os_error` gives the code of an error that came from the operating system.
#[verifier::external_body]
fn raw_code(error: &std::io::Error) -> (code: Option<i32>)
    ensures
        code == os_code(*error),
{
    error.raw_os_error()
}

/// `io::Error::from_raw_os_error` makes the error of the operating system that has a code.
pub assume_specification[ std::io::Error::from_raw_os_error ](code: i32) -> (error: std::io::Error)
    ensures
        os_code(error) == Some(code),
;

/// Whether an error can have this text. It may be in the user's language.
pub uninterp spec fn error_text(error: std::io::Error, text: Seq<char>) -> bool;

/// `ToString::to_string` on an `io::Error`. What the text is depends on the system.
#[verifier::external_body]
pub(crate) fn text_of_error(error: &std::io::Error) -> (text: String)
    ensures
        error_text(*error, text@),
{
    error.to_string()
}

/// Whether it is worth asking for session notifications again: the service may not have started
/// yet.
pub fn should_retry_session_registration(error: &std::io::Error) -> (result: bool)
    ensures
        result == (os_code(*error) == Some(RPC_S_INVALID_BINDING_CODE)),
{
    match raw_code(error) {
        Some(code) => code == RPC_S_INVALID_BINDING_CODE,
        None => false,
    }
}

/// The code of an error as it is passed on: zero where there is none or it is negative.
pub open spec fn passed_on(code: Option<i32>) -> u32 {
    match code {
        Some(code) => if code >= 0 {
            code as u32
        } else {
            0
        },
        None => 0,
    }
}

/// The code of an error as it is passed on.
pub fn error_code(error: &std::io::Error) -> (result: u32)
    ensures
        result == passed_on(os_code(*error)),
{
    match raw_code(error) {
        Some(code) => if code >= 0 {
            code as u32
        } else {
            0
        },
        None => 0,
    }
}

/// What became of asking for session notifications.
#[derive(Debug, Clone, Copy, PartialEq, Eq, Structural)]
pub enum SessionRegistration {
    Registered,
    Retry,
    Failed(u32),
}

/// What became of asking for session notifications, given the error where they were refused.
pub fn registration(refused: Option<&std::io::Error>) -> (result: SessionRegistration)
    ensures
        result == match refused {
            None => SessionRegistration::Registered,
            Some(error) => if os_code(*error) == Some(RPC_S_INVALID_BINDING_CODE) {
                SessionRegistration::Retry
            } else {
                SessionRegistration::Failed(passed_on(os_code(*error)))
            },
        },
{
    match refused {
        None => SessionRegistration::Registered,
        Some(error) => if should_retry_session_registration(error) {
            SessionRegistration::Retry
        } else {
            SessionRegistration::Failed(error_code(error))
        },
    }
}

/// What the session monitor has to do next.
#[derive(Debug, Clone, Copy, PartialEq, Eq, Structural)]
pub enum SessionStep {
    /// Tell the application.
    Notify(AppCommand),
    /// Tell the application, and start the timer that asks again.
    NotifyAndStartTimer(AppCommand),
    /// Stop the timer, and tell the application.
    StopTimerAndNotify(AppCommand),
    /// Wait on.
    Wait,
}

/// Whether session notifications come, and whether they are still being asked for.
#[derive(Debug, Clone, Copy, PartialEq, Eq, Structural)]
pub struct SessionMonitor {
    pub registered: bool,
    pub retry_timer_active: bool,
}

impl SessionMonitor {
    /// Nothing was asked for yet.
    pub fn new() -> (result: Self)
        ensures
            result == (SessionMonitor { registered: false, retry_timer_active: false }),
    {
        SessionMonitor { registered: false, retry_timer_active: false }
    }

    /// Takes note of the first answer.
    pub fn first_answer(&mut self, answer: SessionRegistration) -> (step: SessionStep)
        ensures
            *final(self) == (SessionMonitor {
                registered: old(self).registered || answer == SessionRegistration::Registered,
                ..*old(self)
            }),
            step == match answer {
                SessionRegistration::Registered => SessionStep::Notify(
                    AppCommand::SessionNotificationsReady,
                ),
                SessionRegistration::Retry => SessionStep::NotifyAndStartTimer(
                    AppCommand::SessionNotificationsDelayed,
                ),
                SessionRegistration::Failed(code) => SessionStep::Notify(
                    AppCommand::SessionNotificationsUnavailable(code),
                ),
            },
    {
        match answer {
            SessionRegistration::Registered => {
                self.registered = true;
                SessionStep::Notify(AppCommand::SessionNotificationsReady)
            },
            SessionRegistration::Retry => SessionStep::NotifyAndStartTimer(
                AppCommand::SessionNotificationsDelayed,
            ),
            SessionRegistration::Failed(code) => SessionStep::Notify(
                AppCommand::SessionNotificationsUnavailable(code),
            ),
        }
    }

    /// Takes note whether the timer started, or with what error it did not.
    pub fn timer_started(&mut self, error: Option<u32>) -> (step: SessionStep)
        ensures
            *final(self) == (SessionMonitor { retry_timer_active: error is None, ..*old(self) }),
            step == match error {
                None => SessionStep::Wait,
                Some(code) => SessionStep::Notify(
                    AppCommand::SessionNotificationsUnavailable(code),
                ),
            },
    {
        self.retry_timer_active = error.is_none();
        match error {
            None => SessionStep::Wait,
            Some(code) => SessionStep::Notify(AppCommand::SessionNotificationsUnavailable(code)),
        }
    }

    /// Takes note of an answer that came when the timer was due.
    pub fn later_answer(&mut self, answer: SessionRegistration) -> (step: SessionStep)
        ensures
            *final(self) == match answer {
                SessionRegistration::Registered => SessionMonitor {
                    registered: true,
                    retry_timer_active: false,
                },
                SessionRegistration::Retry => *old(self),
                SessionRegistration::Failed(_) => SessionMonitor {
                    retry_timer_active: false,
                    ..*old(self)
                },
            },
            step == match answer {
                SessionRegistration::Registered => SessionStep::StopTimerAndNotify(
                    AppCommand::SessionNotificationsReady,
                ),
                SessionRegistration::Retry => SessionStep::Wait,
                SessionRegistration::Failed(code) => SessionStep::StopTimerAndNotify(
                    AppCommand::SessionNotificationsUnavailable(code),
                ),
            },
    {
        match answer {
            SessionRegistration::Registered => {
                self.registered = true;
                self.retry_timer_active = false;
                SessionStep::StopTimerAndNotify(AppCommand::SessionNotificationsReady)
            },
            SessionRegistration::Retry => SessionStep::Wait,
            SessionRegistration::Failed(code) => {
                self.retry_timer_active = false;
                SessionStep::StopTimerAndNotify(AppCommand::SessionNotificationsUnavailable(code))
            },
        }
    }
}

/// What a message of Windows means for reminders, if anything.
pub open spec fn event_command(message: u32, wparam: u32) -> Option<AppCommand> {
    if message == WM_DISPLAYCHANGE {
        Some(AppCommand::DisplayTopologyChanged)
    } else if message == WM_POWERBROADCAST && wparam == PBT_APMSUSPEND {
        Some(AppCommand::SystemPause(SystemPauseReason::Power))
    } else if message == WM_WTSSESSION_CHANGE && wparam == WTS_SESSION_LOCK {
        Some(AppCommand::SystemPause(SystemPauseReason::Session))
    } else if message == WM_POWERBROADCAST && wparam == PBT_APMRESUMEAUTOMATIC {
        Some(AppCommand::SystemResume(SystemPauseReason::Power))
    } else if message == WM_WTSSESSION_CHANGE && wparam == WTS_SESSION_UNLOCK {
        Some(AppCommand::SystemResume(SystemPauseReason::Session))
    } else {
        None
    }
}

/// What a message of Windows means for reminders, if anything: changed displays, and the begin
/// and end of suspension and of a locked session.
pub fn system_event_command(message: u32, wparam: u32) -> (result: Option<AppCommand>)
    ensures
        result == event_command(message, wparam),
{
    if message == WM_DISPLAYCHANGE {
        Some(AppCommand::DisplayTopologyChanged)
    } else if message == WM_POWERBROADCAST && wparam == PBT_APMSUSPEND {
        Some(AppCommand::SystemPause(SystemPauseReason::Power))
    } else if message == WM_WTSSESSION_CHANGE && wparam == WTS_SESSION_LOCK {
        Some(AppCommand::SystemPause(SystemPauseReason::Session))
    } else if message == WM_POWERBROADCAST && wparam == PBT_APMRESUMEAUTOMATIC {
        Some(AppCommand::SystemResume(SystemPauseReason::Power))
    } else if message == WM_WTSSESSION_CHANGE && wparam == WTS_SESSION_UNLOCK {
        Some(AppCommand::SystemResume(SystemPauseReason::Session))
    } else {
        None
    }
}

/// What an item of the tray menu asks for.
pub fn tray_command(item: &str) -> (result: Option<AppCommand>)
    ensures
        result == if item@ == "open"@ {
            Some(AppCommand::OpenSettings)
        } else if item@ == "show"@ {
            Some(AppCommand::ShowNow)
        } else if item@ == "reminders"@ {
            Some(AppCommand::ToggleReminders)
        } else if item@ == "quit"@ {
            Some(AppCommand::Quit)
        } else {
            None
        },
{
    if same_text(item, "open") {
        Some(AppCommand::OpenSettings)
    } else if same_text(item, "show") {
        Some(AppCommand::ShowNow)
    } else if same_text(item, "reminders") {
        Some(AppCommand::ToggleReminders)
    } else if same_text(item, "quit") {
        Some(AppCommand::Quit)
    } else {
        None
    }
}

/// The program's path as it is registered to start at login.
pub fn launch_path(path: &Path) -> (result: Result<&str, String>)
    ensures
        match path_text(path) {
            Some(text) => result matches Ok(value) && value@ == text,
            None => result matches Err(message) && message@
                == "the executable path is not valid UTF-8"@,
        },
{
    match text_of_path(path) {
        Some(text) => Ok(text),
        None => Err("the executable path is not valid UTF-8".to_owned()),
    }
}

/// Displays in their order are the same displays, none before one that precedes it.
pub proof fn order_keeps_the_displays(displays: Seq<EnumeratedDisplay>)
    ensures
        in_order(displays).to_multiset() == displays.to_multiset(),
        forall|i: int, j: int|
            0 <= i < j < in_order(displays).len() ==> !precedes(
                #[trigger] in_order(displays)[j],
                #[trigger] in_order(displays)[i],
            ),
    decreases displays.len(),
{
    broadcast use vstd::seq_lib::group_to_multiset_ensures;

    if displays.len() > 0 {
        let before = in_order(displays.drop_last());
        order_keeps_the_displays(displays.drop_last());
        lemma_placed_in_order(before, displays.last());
        assert(displays.drop_last().push(displays.last()) =~= displays);
    }
}

proof fn lemma_placed_in_order(sorted: Seq<EnumeratedDisplay>, display: EnumeratedDisplay)
    requires
        forall|i: int, j: int|
            0 <= i < j < sorted.len() ==> !precedes(#[trigger] sorted[j], #[trigger] sorted[i]),
    ensures
        placed(sorted, display).to_multiset() == sorted.to_multiset().insert(display),
        forall|i: int, j: int|
            0 <= i < j < placed(sorted, display).len() ==> !precedes(
                #[trigger] placed(sorted, display)[j],
                #[trigger] placed(sorted, display)[i],
            ),
        placed(sorted, display).len() == sorted.len() + 1,
        forall|i: int|
            0 <= i < placed(sorted, display).len() ==> #[trigger] placed(sorted, display)[i]
                == display || sorted.contains(placed(sorted, display)[i]),
    decreases sorted.len(),
{
    broadcast use vstd::seq_lib::group_to_multiset_ensures;

    let result = placed(sorted, display);
    if sorted.len() == 0 || !precedes(display, sorted.last()) {
        assert forall|i: int, j: int| 0 <= i < j < result.len() implies !precedes(
            #[trigger] result[j],
            #[trigger] result[i],
        ) by {
            if j == sorted.len() {
                assert(!precedes(display, sorted.last()));
                assert(i < sorted.len() - 1 ==> !precedes(sorted[sorted.len() - 1], sorted[i]));
            }
        }
        assert forall|i: int| 0 <= i < result.len() implies #[trigger] result[i] == display
            || sorted.contains(result[i]) by {
            if i < sorted.len() {
                assert(result[i] == sorted[i]);
            }
        }
    } else {
        let shorter = sorted.drop_last();
        let rest = placed(shorter, display);
        lemma_placed_in_order(shorter, display);
        assert(result == rest.push(sorted.last()));
        assert(shorter.push(sorted.last()) =~= sorted);
        assert forall|i: int, j: int| 0 <= i < j < result.len() implies !precedes(
            #[trigger] result[j],
            #[trigger] result[i],
        ) by {
            if j == rest.len() {
                assert(result[i] == rest[i]);
                if rest[i] != display {
                    let k = choose|k: int| 0 <= k < shorter.len() && shorter[k] == rest[i];
                    assert(sorted[k] == rest[i]);
                    assert(!precedes(sorted[sorted.len() - 1], sorted[k]));
                }
            } else {
                assert(result[i] == rest[i] && result[j] == rest[j]);
            }
        }
        assert forall|i: int| 0 <= i < result.len() implies #[trigger] result[i] == display
            || sorted.contains(result[i]) by {
            if i < rest.len() {
                assert(result[i] == rest[i]);
                if rest[i] != display {
                    let k = choose|k: int| 0 <= k < shorter.len() && shorter[k] == rest[i];
                    assert(sorted[k] == rest[i]);
                }
            } else {
                assert(result[i] == sorted[sorted.len() - 1]);
            }
        }
        assert(result.to_multiset() =~= sorted.to_multiset().insert(display));
    }
}

/// Every reason to pause has an event that begins it and one that ends it.
pub proof fn pauses_and_resumptions_match(reason: SystemPauseReason)
    ensures
        exists|message: u32, wparam: u32|
            #[trigger] event_command(message, wparam) == Some(AppCommand::SystemPause(reason)),
        exists|message: u32, wparam: u32|
            #[trigger] event_command(message, wparam) == Some(AppCommand::SystemResume(reason)),
{
    match reason {
        SystemPauseReason::Power => {
            assert(event_command(WM_POWERBROADCAST, PBT_APMSUSPEND) is Some);
            assert(event_command(WM_POWERBROADCAST, PBT_APMRESUMEAUTOMATIC) is Some);
        },
        SystemPauseReason::Session => {
            assert(event_command(WM_WTSSESSION_CHANGE, WTS_SESSION_LOCK) is Some);
            assert(event_command(WM_WTSSESSION_CHANGE, WTS_SESSION_UNLOCK) is Some);
        },
    }
}

/// A display is as large as its corners are apart, and there is none where they are not apart or
/// further than fits.
pub proof fn displays_are_as_large_as_their_corners_are_apart(rect: Rect)
    ensures
        ({
            let (w, h) = (rect.right - rect.left, rect.bottom - rect.top);
            &&& 1 <= w <= 0x7fff_ffff && 1 <= h <= 0x7fff_ffff ==> dimensions(rect) is Some
                && (dimensions(rect)->0).0 == w && (dimensions(rect)->0).1 == h
            &&& w <= 0 || h <= 0 || w > 0x7fff_ffff || h > 0x7fff_ffff ==> dimensions(rect) is None
        }),
{
}

/// A text in a buffer is all that comes before the first zero, or all where there is none.
pub proof fn texts_end_at_the_first_zero(units: Seq<u16>)
    ensures
        ({
            let text = before_zero(units);
            &&& text.len() <= units.len()
            &&& text == units.take(text.len() as int)
            &&& forall|i: int| 0 <= i < text.len() ==> #[trigger] units[i] != 0
            &&& text.len() < units.len() ==> units[text.len() as int] == 0
        }),
{
    units.index_of_first_ensures(0);
    if units.index_of_first(0) is None {
        assert(units.take(units.len() as int) =~= units);
        assert forall|i: int| 0 <= i < units.len() implies #[trigger] units[i] != 0 by {
            if units[i] == 0 {
                assert(units.contains(0));
            }
        }
    }
}

/// A display that Windows draws to by its number is called by that number, another one by its name,
/// and one without a name just so.
pub proof fn displays_are_called_by_their_number(number: Seq<char>, name: Seq<char>)
    ensures
        fallback_label("\\\\.\\DISPLAY"@ + number) == "Display "@ + number,
        !"\\\\.\\DISPLAY"@.is_prefix_of(name) && name.len() > 0 ==> fallback_label(name) == name,
        fallback_label(Seq::empty()) == "Display"@,
{
    reveal_strlit("\\\\.\\DISPLAY");
    reveal_strlit("Display ");
    let prefix = "\\\\.\\DISPLAY"@;
    assert((prefix + number).skip(prefix.len() as int) =~= number);
    assert(prefix.is_prefix_of(prefix + number));
}

/// A display is identified by the path of its target where that is known, else by its name, and
/// where it has none by its place.
pub proof fn displays_are_identified(
    display: NativeDisplay,
    identities: Map<Seq<char>, Identity>,
    rect: Rect,
    name: Seq<char>,
)
    requires
        is_description(display, identities, rect, name),
        dimensions(rect) is Some,
    ensures
        ({
            let known = identities.dom().contains(lowercase(name));
            let identity = identities[lowercase(name)];
            let place = "display@"@ + signed_decimal(rect.left as int) + ","@ + signed_decimal(
                rect.top as int,
            );
            let size = " ("@ + decimal((rect.right - rect.left) as nat) + " x "@ + decimal(
                (rect.bottom - rect.top) as nat,
            ) + ")"@;
            &&& known ==> display.id@ == identity.id
            &&& !known ==> display.id@ == display.legacy_id@
            &&& name.len() > 0 ==> display.legacy_id@ == name
            &&& name.len() == 0 ==> display.legacy_id@ == place
            &&& known && identity.friendly_name is Some ==> display.label@
                == identity.friendly_name->0 + size
            &&& !known || identity.friendly_name is None ==> display.label@ == fallback_label(name)
                + size
            &&& display.left == rect.left
            &&& display.top == rect.top
            &&& display.width == rect.right - rect.left
            &&& display.height == rect.bottom - rect.top
        }),
{
    let size = " ("@ + decimal((rect.right - rect.left) as nat) + " x "@ + decimal(
        (rect.bottom - rect.top) as nat,
    ) + ")"@;
    let friendly = identities[lowercase(name)].friendly_name->0;
    assert(display.label@ =~= friendly + size || display.label@ =~= fallback_label(name) + size);
    if identities.dom().contains(lowercase(name))
        && identities[lowercase(name)].friendly_name is Some {
        assert(display.label@ =~= friendly + size);
    } else {
        assert(display.label@ =~= fallback_label(name) + size);
    }
}

/// The primary display comes first; the others follow from top to bottom, and from left to right
/// where they are level.
pub proof fn displays_are_listed_from_the_primary_one(
    displays: Seq<EnumeratedDisplay>,
    i: int,
    j: int,
)
    requires
        0 <= i < j < in_order(displays).len(),
    ensures
        ({
            let (a, b) = (in_order(displays)[i], in_order(displays)[j]);
            &&& b.primary ==> a.primary
            &&& a.primary == b.primary ==> a.display.top <= b.display.top
            &&& a.primary == b.primary && a.display.top == b.display.top ==> a.display.left
                <= b.display.left
        }),
        in_order(displays).len() == displays.len(),
{
    order_keeps_the_displays(displays);
    let (a, b) = (in_order(displays)[i], in_order(displays)[j]);
    assert(!precedes(b, a));
    lemma_order_keeps_the_number(displays);
}

proof fn lemma_order_keeps_the_number(displays: Seq<EnumeratedDisplay>)
    ensures
        in_order(displays).len() == displays.len(),
    decreases displays.len(),
{
    if displays.len() > 0 {
        lemma_order_keeps_the_number(displays.drop_last());
        order_keeps_the_displays(displays.drop_last());
        lemma_placed_in_order(in_order(displays.drop_last()), displays.last());
    }
}

/// Displays that are in their order already stay as they are, those at the same place included.
pub proof fn displays_in_order_stay(displays: Seq<EnumeratedDisplay>)
    requires
        forall|i: int, j: int|
            0 <= i < j < displays.len() ==> {
                let (a, b) = (#[trigger] displays[i], #[trigger] displays[j]);
                &&& b.primary ==> a.primary
                &&& a.primary == b.primary ==> a.display.top <= b.display.top
                &&& a.primary == b.primary && a.display.top == b.display.top ==> a.display.left
                    <= b.display.left
            },
    ensures
        in_order(displays) == displays,
    decreases displays.len(),
{
    if displays.len() > 0 {
        let shorter = displays.drop_last();
        assert forall|i: int, j: int| 0 <= i < j < shorter.len() implies {
            let (a, b) = (#[trigger] shorter[i], #[trigger] shorter[j]);
            &&& b.primary ==> a.primary
            &&& a.primary == b.primary ==> a.display.top <= b.display.top
            &&& a.primary == b.primary && a.display.top == b.display.top ==> a.display.left
                <= b.display.left
        } by {
            assert(shorter[i] == displays[i] && shorter[j] == displays[j]);
        }
        displays_in_order_stay(shorter);
        if shorter.len() > 0 {
            let (a, b) = (displays[shorter.len() - 1], displays[shorter.len() as int]);
            assert(!precedes(b, a));
        }
        assert(shorter.push(displays.last()) =~= displays);
    }
}

/// The codes of Windows, and what they mean for reminders: other displays, and the begin and end
/// of suspension and of a locked session. Nothing else means anything.
pub proof fn events_in_numbers(message: u32, wparam: u32)
    ensures
        event_command(126, wparam) == Some(AppCommand::DisplayTopologyChanged),
        event_command(536, 4) == Some(AppCommand::SystemPause(SystemPauseReason::Power)),
        event_command(536, 18) == Some(AppCommand::SystemResume(SystemPauseReason::Power)),
        event_command(689, 7) == Some(AppCommand::SystemPause(SystemPauseReason::Session)),
        event_command(689, 8) == Some(AppCommand::SystemResume(SystemPauseReason::Session)),
        message != 126 && !(message == 536 && (wparam == 4 || wparam == 18)) && !(message == 689 && (
        wparam == 7 || wparam == 8)) ==> event_command(message, wparam) is None,
        RPC_S_INVALID_BINDING_CODE == 1_702,
        SESSION_REGISTRATION_RETRY_MS == 1_000,
        SUCCESS_CODE == 0,
        INSUFFICIENT_BUFFER_CODE == 122,
{
}

/// A code is passed on as it is where it is not negative, and as zero where it is or there is none.
pub proof fn codes_are_passed_on(code: i32)
    ensures
        code >= 0 ==> passed_on(Some(code)) == code,
        code < 0 ==> passed_on(Some(code)) == 0,
        passed_on(None) == 0,
{
}

/// A unit outside the surrogates is a character by itself; two surrogates that belong together are
/// one character beyond `0xffff`; a surrogate without its other half is replaced. What follows
/// does not change what came before.
pub proof fn units_are_characters(first: u16, second: u16, rest: Seq<u16>)
    ensures
        utf16_text(seq![]) == Seq::<char>::empty(),
        first < 0xd800 || first > 0xdfff ==> {
            let text = utf16_text(seq![first] + rest);
            &&& text.len() == 1 + utf16_text(rest).len()
            &&& text[0] as u32 == first
            &&& text.skip(1) == utf16_text(rest)
        },
        0xd800 <= first <= 0xdbff && 0xdc00 <= second <= 0xdfff ==> {
            let text = utf16_text(seq![first, second] + rest);
            &&& text.len() == 1 + utf16_text(rest).len()
            &&& text[0] as u32 == 0x1_0000 + (first - 0xd800) * 0x400 + (second - 0xdc00)
            &&& text.skip(1) == utf16_text(rest)
        },
        0xd800 <= first <= 0xdfff && (rest.len() == 0 || first >= 0xdc00 || rest[0] < 0xdc00
            || rest[0] > 0xdfff) ==> {
            let text = utf16_text(seq![first] + rest);
            &&& text.len() == 1 + utf16_text(rest).len()
            &&& text[0] == '\u{fffd}'
            &&& text.skip(1) == utf16_text(rest)
        },
{
    let one = seq![first] + rest;
    let two = seq![first, second] + rest;
    assert(one.skip(1) =~= rest);
    assert(two.skip(2) =~= rest);
    assert(one[0] == first && two[0] == first && two[1] == second);
    if rest.len() > 0 {
        assert(one[1] == rest[0]);
    }
    if first < 0xd800 || first > 0xdfff {
        assert(utf16_text(one) == seq![first as char] + utf16_text(rest));
        assert(utf16_text(one).skip(1) =~= utf16_text(rest));
    }
    if 0xd800 <= first <= 0xdbff && 0xdc00 <= second <= 0xdfff {
        assert(utf16_text(two).skip(1) =~= utf16_text(rest));
    }
    if 0xd800 <= first <= 0xdfff && (rest.len() == 0 || first >= 0xdc00 || rest[0] < 0xdc00
        || rest[0] > 0xdfff) {
        assert(utf16_text(one).skip(1) =~= utf16_text(rest));
    }
}

} // verus!
