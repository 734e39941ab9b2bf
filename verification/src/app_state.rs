//! The application with its settings window: what it remembers, what it can want done, and how
//! both change from one turn to the next.

use std::path::PathBuf;

use vstd::prelude::*;
use vstd::string::*;

use crate::config::{Choices, NormalizedPosition, Settings};
use crate::image_asset::{frame_shown_at, DecodedImage};
use crate::linux_daemon::{
    chosen_duration, chosen_interval, elapsed_since, optional_span, OverlayContents,
};
use crate::scheduler::{ReminderScheduler, Schedule, SchedulerAction};
use crate::text::optional_text;
use crate::time::{Duration, MAX_NANOS};
use crate::SystemPauseReason;

verus! {

/// How long edits wait before they are saved, in milliseconds.
pub const SETTINGS_SAVE_DEBOUNCE_MILLIS: u64 = 500;

/// The shortest time between two looks at the schedule, in milliseconds.
pub const SHORTEST_WAKE_MILLIS: u64 = 50;

/// What the application runs on.
#[derive(Debug, Clone, Copy, PartialEq, Eq, Structural)]
pub enum Platform {
    Windows,
    Linux,
    Other,
}

impl Platform {
    /// Whether the overlay is a window of the system's own, apart from the settings window.
    pub open spec fn has_native_overlay(self) -> bool {
        self != Platform::Other
    }
}

/// A display that a user can choose.
#[derive(Debug, Clone)]
pub struct DisplayInfo {
    pub id: String,
    /// What the display was identified by before; the same as `id` where that never changed.
    pub legacy_id: String,
    pub label: String,
    pub left: i32,
    pub top: i32,
    pub width: u32,
    pub height: u32,
}

/// The contents of a `DisplayInfo`.
#[verifier::ext_equal]
pub ghost struct Display {
    pub id: Seq<char>,
    pub legacy_id: Seq<char>,
    pub label: Seq<char>,
    pub left: i32,
    pub top: i32,
    pub width: u32,
    pub height: u32,
}

impl View for DisplayInfo {
    type V = Display;

    open spec fn view(&self) -> Display {
        Display {
            id: self.id@,
            legacy_id: self.legacy_id@,
            label: self.label@,
            left: self.left,
            top: self.top,
            width: self.width,
            height: self.height,
        }
    }
}

/// The contents of several displays.
pub open spec fn display_views(displays: Seq<DisplayInfo>) -> Seq<Display> {
    Seq::new(displays.len(), |i: int| displays[i]@)
}

impl DisplayInfo {
    /// A display of Windows.
    pub fn from_windows(display: crate::windows::NativeDisplay) -> (result: Self)
        ensures
            result.id@ == display.id@,
            result.legacy_id@ == display.legacy_id@,
            result.label@ == display.label@,
            result.left == display.left,
            result.top == display.top,
            result.width == display.width,
            result.height == display.height,
    {
        DisplayInfo {
            id: display.id,
            legacy_id: display.legacy_id,
            label: display.label,
            left: display.left,
            top: display.top,
            width: display.width,
            height: display.height,
        }
    }

    /// An output of Wayland, whose place and size the compositor keeps to itself.
    pub fn from_wayland(display: crate::linux_wayland::NativeDisplay) -> (result: Self)
        ensures
            result.id@ == display.id@,
            result.legacy_id@ == display.id@,
            result.label@ == display.label@,
            result.left == 0,
            result.top == 0,
            result.width == 0,
            result.height == 0,
    {
        DisplayInfo {
            legacy_id: display.id.clone(),
            id: display.id,
            label: display.label,
            left: 0,
            top: 0,
            width: 0,
            height: 0,
        }
    }
}

/// A status line with one more message.
pub open spec fn appended(status: Option<Seq<char>>, message: Seq<char>) -> Option<Seq<char>> {
    match status {
        Some(existing) => Some(existing + "; "@ + message),
        None => Some(message),
    }
}

/// Adds a message to a status line.
pub fn append_status(status: &mut Option<String>, message: String)
    ensures
        optional_text(*final(status)) == appended(optional_text(*old(status)), message@),
{
    match status.take() {
        Some(existing) => {
            let mut text = existing;
            text.append("; ");
            text.append(message.as_str());
            *status = Some(text);
        },
        None => {
            *status = Some(message);
        },
    }
}

/// A message made of what failed and why.
pub(crate) fn failure(what: &str, error: &str) -> (message: String)
    ensures
        message@ == what@ + error@,
{
    let mut message = what.to_owned();
    message.append(error);
    message
}

/// The bit of a reason to pause.
pub open spec fn reason_bit(reason: SystemPauseReason) -> u8 {
    match reason {
        SystemPauseReason::Power => 1,
        SystemPauseReason::Session => 2,
    }
}

/// The bit of a reason to pause.
pub fn pause_reason_mask(reason: SystemPauseReason) -> (result: u8)
    ensures
        result == reason_bit(reason),
{
    match reason {
        SystemPauseReason::Power => 1,
        SystemPauseReason::Session => 2,
    }
}

/// What the settings window is told to be.
#[derive(Debug, Clone, Copy, PartialEq, Eq, Structural)]
pub enum WindowCommand {
    Visible(bool),
    Fullscreen(bool),
    Decorations(bool),
    MousePassthrough(bool),
    NormalLevel,
    /// The size of the settings.
    SettingsSize,
    /// The place where the settings appear.
    SettingsPosition,
    /// The smallest size, for a window that only keeps the overlay alive.
    ControllerSize,
    /// A place where nothing is seen.
    OffscreenPosition,
    Focus,
    Close,
    CancelClose,
}

/// Something that the application wants done.
#[derive(Debug)]
pub enum AppStep {
    /// Tell the settings window something.
    Window(WindowCommand),
    /// Show the overlay on the display with a number.
    ShowOverlay { display: usize, contents: OverlayContents },
    /// Hide the overlay.
    HideOverlay,
    /// Close the overlay's viewport, which is a part of the application's own window.
    CloseOverlayViewport,
    /// Show a frame of the image in the preview.
    UpdatePreview { frame: usize },
    /// Draw the settings window anew.
    Repaint,
    /// Look at the schedule again after some time.
    RepaintAfter(Duration),
    /// Save the settings.
    Save,
    /// Add a message to the status line.
    AppendStatus(String),
    /// Start a process that takes over in the background.
    SpawnBackground,
    /// Ask for the displays.
    EnumerateDisplays,
    /// Create the tray icon, with its reminder item checked or not.
    CreateTray(bool),
    /// Remove the tray icon.
    RemoveTray,
    /// Check the tray icon's reminder item or not.
    CheckTrayItem(bool),
}

/// The contents of an `AppStep`.
pub ghost enum AppEffect {
    Window(WindowCommand),
    ShowOverlay { display: int, contents: OverlayContents },
    HideOverlay,
    CloseOverlayViewport,
    UpdatePreview { frame: int },
    Repaint,
    RepaintAfter(nat),
    Save,
    AppendStatus(Seq<char>),
    SpawnBackground,
    EnumerateDisplays,
    CreateTray(bool),
    RemoveTray,
    CheckTrayItem(bool),
}

impl View for AppStep {
    type V = AppEffect;

    open spec fn view(&self) -> AppEffect {
        match *self {
            AppStep::Window(command) => AppEffect::Window(command),
            AppStep::ShowOverlay { display, contents } => AppEffect::ShowOverlay {
                display: display as int,
                contents,
            },
            AppStep::HideOverlay => AppEffect::HideOverlay,
            AppStep::CloseOverlayViewport => AppEffect::CloseOverlayViewport,
            AppStep::UpdatePreview { frame } => AppEffect::UpdatePreview { frame: frame as int },
            AppStep::Repaint => AppEffect::Repaint,
            AppStep::RepaintAfter(wait) => AppEffect::RepaintAfter(wait@),
            AppStep::Save => AppEffect::Save,
            AppStep::AppendStatus(message) => AppEffect::AppendStatus(message@),
            AppStep::SpawnBackground => AppEffect::SpawnBackground,
            AppStep::EnumerateDisplays => AppEffect::EnumerateDisplays,
            AppStep::CreateTray(checked) => AppEffect::CreateTray(checked),
            AppStep::RemoveTray => AppEffect::RemoveTray,
            AppStep::CheckTrayItem(checked) => AppEffect::CheckTrayItem(checked),
        }
    }
}

/// The contents of several steps.
pub open spec fn app_effects(steps: Seq<AppStep>) -> Seq<AppEffect> {
    Seq::new(steps.len(), |i: int| steps[i]@)
}

/// One more step.
pub(crate) fn push_step(steps: &mut Vec<AppStep>, step: AppStep)
    ensures
        app_effects(final(steps)@) == app_effects(old(steps)@).push(step@),
{
    steps.push(step);
    assert(app_effects(steps@) =~= app_effects(old(steps)@).push(step@));
}

/// The identifiers of displays.
pub open spec fn display_ids(displays: Seq<Display>) -> Seq<Seq<char>> {
    Seq::new(displays.len(), |i: int| displays[i].id)
}

/// The earlier identifiers of displays.
pub open spec fn legacy_ids(displays: Seq<Display>) -> Seq<Seq<char>> {
    Seq::new(displays.len(), |i: int| displays[i].legacy_id)
}

/// Everything that the application remembers.
pub ghost struct AppState {
    pub platform: Platform,
    pub choices: Choices,
    pub schedule: Schedule,
    pub frames: Seq<(Seq<u8>, nat)>,
    pub image_size: (u32, u32),
    pub animation_started_at: nat,
    pub frame: int,
    pub displays: Seq<Display>,
    pub selected: int,
    pub settings_open: bool,
    pub settings_sized: bool,
    pub save_due_at: Option<nat>,
    pub root_visible: bool,
    pub controller_mode: bool,
    pub quitting: bool,
    pub pause_mask: u8,
    pub session_status: Option<Seq<char>>,
    pub status: Option<Seq<char>>,
    pub has_overlay: bool,
    pub has_tray: bool,
}

/// A state, and what is to be done on the way to it.
pub ghost struct Turn {
    pub state: AppState,
    pub effects: Seq<AppEffect>,
}

impl AppState {
    /// Whether every time that may be needed after `now` fits a `Duration`.
    pub open spec fn room_at(self, now: nat) -> bool {
        &&& self.schedule.room_at(now)
        &&& now + chosen_interval(self.choices) <= MAX_NANOS
        &&& now + 500_000_000 <= MAX_NANOS
    }

    /// The state with nothing done yet.
    pub open spec fn turn(self) -> Turn {
        Turn { state: self, effects: seq![] }
    }

    /// The identifier of the selected display, if there is one.
    pub open spec fn selected_id(self) -> Option<Seq<char>> {
        if self.selected < self.displays.len() {
            Some(self.displays[self.selected].id)
        } else {
            None
        }
    }

    /// The schedule started over at `now` with the chosen times, and what that brings.
    pub open spec fn restarted(self, now: nat) -> (Schedule, SchedulerAction) {
        (
            Schedule::starting(
                now,
                chosen_interval(self.choices),
                chosen_duration(self.choices),
                self.choices.reminders_enabled,
            ),
            if self.schedule.shows() {
                SchedulerAction::Hide
            } else {
                SchedulerAction::Nothing
            },
        )
    }

    /// What the overlay is to show.
    pub open spec fn contents(self) -> OverlayContents {
        OverlayContents {
            frame: self.frame as usize,
            image_size: self.image_size,
            width_percent: self.choices.width_percent,
            opacity_percent: self.choices.opacity_percent,
            position: self.choices.position,
        }
    }
}

impl Turn {
    /// One more thing to do.
    pub open spec fn and(self, effect: AppEffect) -> Turn {
        Turn { effects: self.effects.push(effect), ..self }
    }

    /// One more thing to tell the settings window.
    pub open spec fn tell(self, command: WindowCommand) -> Turn {
        self.and(AppEffect::Window(command))
    }

    /// Another state.
    pub open spec fn in_state(self, state: AppState) -> Turn {
        Turn { state, ..self }
    }

    /// The window shown or not, where that changes.
    pub open spec fn window_visible(self, visible: bool) -> Turn {
        if visible != self.state.root_visible {
            self.in_state(AppState { root_visible: visible, ..self.state }).tell(
                WindowCommand::Visible(visible),
            )
        } else {
            self
        }
    }

    /// The window brought in line with what is open. Where the overlay is a part of the
    /// application's own window, the window stays, unseen, as long as the overlay is up.
    #[verifier::opaque]
    pub open spec fn window_updated(self) -> Turn {
        let state = self.state;
        let showing = state.schedule.shows();
        if state.platform.has_native_overlay() {
            self.window_visible(state.settings_open)
        } else {
            let turn = if state.settings_open && state.controller_mode {
                self.in_state(AppState { controller_mode: false, ..state }).tell(
                    WindowCommand::Fullscreen(false),
                ).tell(WindowCommand::Decorations(true)).tell(
                    WindowCommand::MousePassthrough(false),
                ).tell(WindowCommand::NormalLevel).tell(WindowCommand::SettingsSize).tell(
                    WindowCommand::SettingsPosition,
                ).tell(WindowCommand::Focus)
            } else if !state.settings_open && showing && !state.controller_mode {
                self.in_state(AppState { controller_mode: true, ..state }).tell(
                    WindowCommand::Fullscreen(false),
                ).tell(WindowCommand::Decorations(false)).tell(
                    WindowCommand::MousePassthrough(true),
                ).tell(WindowCommand::NormalLevel).tell(WindowCommand::ControllerSize).tell(
                    WindowCommand::OffscreenPosition,
                )
            } else {
                self
            };
            turn.window_visible(showing || state.settings_open)
        }
    }

    /// The settings window given its size, when it is open for the first time.
    #[verifier::opaque]
    pub open spec fn window_sized(self) -> Turn {
        if !self.state.settings_open || self.state.settings_sized {
            self
        } else {
            self.in_state(AppState { settings_sized: true, ..self.state }).tell(
                WindowCommand::Fullscreen(false),
            ).tell(WindowCommand::Decorations(true)).tell(
                WindowCommand::MousePassthrough(false),
            ).tell(WindowCommand::NormalLevel).tell(WindowCommand::SettingsSize)
        }
    }

    /// The overlay shown as it is to be now, if it is up.
    #[verifier::opaque]
    pub open spec fn overlay_refreshed(self) -> Turn {
        let state = self.state;
        if !state.schedule.shows() {
            self
        } else if !state.platform.has_native_overlay() {
            self.and(AppEffect::Repaint)
        } else if state.has_overlay && state.selected < state.displays.len() {
            self.and(
                AppEffect::ShowOverlay { display: state.selected, contents: state.contents() },
            )
        } else {
            self
        }
    }

    /// The preview shown as it is to be now.
    pub open spec fn preview_updated(self) -> Turn {
        self.and(AppEffect::UpdatePreview { frame: self.state.frame })
    }

    /// Another frame. The preview follows where it can be seen.
    #[verifier::opaque]
    pub open spec fn frame_set(self, frame: int) -> Turn {
        let state = AppState { frame, ..self.state };
        if self.state.frame == frame {
            self
        } else if state.platform.has_native_overlay() && !state.settings_open {
            self.in_state(state)
        } else {
            self.in_state(state).preview_updated()
        }
    }

    /// What the schedule wants at `now`, done.
    #[verifier::opaque]
    pub open spec fn acted(self, now: nat, action: SchedulerAction) -> Turn {
        match action {
            SchedulerAction::Nothing => self,
            SchedulerAction::Show => self.in_state(
                AppState { animation_started_at: now, ..self.state },
            ).frame_set(0).overlay_refreshed().window_updated(),
            SchedulerAction::Hide => if !self.state.platform.has_native_overlay() {
                self.and(AppEffect::CloseOverlayViewport).window_updated()
            } else if self.state.has_overlay {
                self.and(AppEffect::HideOverlay).window_updated()
            } else {
                self.window_updated()
            },
        }
    }

    /// A step of the schedule at `now`, done.
    pub open spec fn scheduled(self, now: nat, step: (Schedule, SchedulerAction)) -> Turn {
        self.in_state(AppState { schedule: step.0, ..self.state }).acted(now, step.1)
    }

    /// The schedule started over at `now` with the chosen times.
    pub open spec fn schedule_reset(self, now: nat) -> Turn {
        self.scheduled(now, self.state.restarted(now))
    }

    /// The settings on their way to the file, with the selected display in them.
    #[verifier::opaque]
    pub open spec fn saving(self) -> Turn {
        let state = AppState { save_due_at: None, ..self.state };
        (match state.selected_id() {
            Some(id) => self.in_state(
                AppState {
                    choices: Choices { display_id: Some(id), ..state.choices },
                    ..state
                },
            ),
            None => self.in_state(state),
        }).and(AppEffect::Save)
    }

    /// The settings on their way to the file, where edits wait to be saved.
    pub open spec fn saving_edits(self) -> Turn {
        if self.state.save_due_at is Some {
            self.saving()
        } else {
            self
        }
    }

    /// Edits waiting to be saved.
    pub open spec fn save_scheduled(self, now: nat) -> Turn {
        self.in_state(AppState { save_due_at: Some(now + 500_000_000), ..self.state }).and(
            AppEffect::RepaintAfter(500_000_000),
        )
    }

    /// The end of the application.
    pub open spec fn quit(self) -> Turn {
        self.in_state(AppState { quitting: true, ..self.state }).tell(WindowCommand::Close)
    }

    /// The settings closed, the reminders left running.
    pub open spec fn sent_to_background(self) -> Turn {
        if self.state.platform == Platform::Linux {
            self.and(AppEffect::SpawnBackground)
        } else {
            self.in_state(AppState { settings_open: false, ..self.state }).window_updated()
        }
    }
}

/// No steps.
pub(crate) fn no_steps() -> (steps: Vec<AppStep>)
    ensures
        app_effects(steps@) == Seq::<AppEffect>::empty(),
{
    let steps: Vec<AppStep> = Vec::new();
    assert(app_effects(steps@) =~= Seq::empty());
    steps
}

/// The application.
pub struct AppCore {
    platform: Platform,
    settings: Settings,
    scheduler: ReminderScheduler,
    image: DecodedImage,
    animation_started_at: Duration,
    animation_frame_index: usize,
    displays: Vec<DisplayInfo>,
    selected_display: usize,
    settings_open: bool,
    settings_size_initialized: bool,
    settings_save_due_at: Option<Duration>,
    root_visible: bool,
    root_controller_mode: bool,
    quitting: bool,
    system_pause_mask: u8,
    session_notification_status: Option<String>,
    status: Option<String>,
    has_overlay: bool,
    has_tray: bool,
}

impl View for AppCore {
    type V = AppState;

    closed spec fn view(&self) -> AppState {
        AppState {
            platform: self.platform,
            choices: self.settings@,
            schedule: self.scheduler@,
            frames: self.image.frames(),
            image_size: self.image.dimensions(),
            animation_started_at: self.animation_started_at@,
            frame: self.animation_frame_index as int,
            displays: display_views(self.displays@),
            selected: self.selected_display as int,
            settings_open: self.settings_open,
            settings_sized: self.settings_size_initialized,
            save_due_at: optional_span(self.settings_save_due_at),
            root_visible: self.root_visible,
            controller_mode: self.root_controller_mode,
            quitting: self.quitting,
            pause_mask: self.system_pause_mask,
            session_status: optional_text(self.session_notification_status),
            status: optional_text(self.status),
            has_overlay: self.has_overlay,
            has_tray: self.has_tray,
        }
    }
}

impl AppCore {
    /// The image is complete.
    pub closed spec fn wf(self) -> bool {
        &&& self.image.wf()
        &&& self.image.playable()
    }

    /// An application that starts its first interval now.
    pub(crate) fn start(
        platform: Platform,
        settings: Settings,
        image: DecodedImage,
        displays: Vec<DisplayInfo>,
        selected_display: usize,
        settings_open: bool,
        root_visible: bool,
        session_status: Option<String>,
        status: Option<String>,
        has_overlay: bool,
    ) -> (result: Self)
        requires
            image.wf(),
            image.playable(),
        ensures
            result.wf(),
            result@ == (AppState {
                platform,
                choices: settings@,
                schedule: Schedule::starting(
                    0,
                    chosen_interval(settings@),
                    chosen_duration(settings@),
                    settings@.reminders_enabled,
                ),
                frames: image.frames(),
                image_size: image.dimensions(),
                animation_started_at: 0,
                frame: 0,
                displays: display_views(displays@),
                selected: selected_display as int,
                settings_open,
                settings_sized: false,
                save_due_at: None,
                root_visible,
                controller_mode: false,
                quitting: false,
                pause_mask: 0,
                session_status: optional_text(session_status),
                status: optional_text(status),
                has_overlay,
                has_tray: false,
            }),
    {
        let scheduler = ReminderScheduler::new(
            Duration::zero(),
            settings.interval(),
            settings.overlay_duration(),
            settings.reminders_enabled,
        );
        AppCore {
            platform,
            settings,
            scheduler,
            image,
            animation_started_at: Duration::zero(),
            animation_frame_index: 0,
            displays,
            selected_display,
            settings_open,
            settings_size_initialized: false,
            settings_save_due_at: None,
            root_visible,
            root_controller_mode: false,
            quitting: false,
            system_pause_mask: 0,
            session_notification_status: session_status,
            status,
            has_overlay,
            has_tray: false,
        }
    }

    /// The application with the steps so far.
    pub open spec fn turn_after(self, steps: Seq<AppStep>) -> Turn {
        Turn { state: self@, effects: app_effects(steps) }
    }

    /// What the application runs on.
    pub fn platform(&self) -> (result: Platform)
        ensures
            result == self@.platform,
    {
        self.platform
    }

    /// Whether the overlay is a window of the system's own.
    pub(crate) fn has_native_overlay(&self) -> (result: bool)
        ensures
            result == self@.platform.has_native_overlay(),
    {
        self.platform != Platform::Other
    }

    /// The settings as they are.
    pub fn settings(&self) -> (result: &Settings)
        ensures
            result@ == self@.choices,
    {
        &self.settings
    }

    /// Whether the overlay is up.
    pub fn is_showing(&self) -> (result: bool)
        ensures
            result == self@.schedule.shows(),
    {
        self.scheduler.is_showing()
    }

    /// Whether the settings are open.
    pub fn is_settings_open(&self) -> (result: bool)
        ensures
            result == self@.settings_open,
    {
        self.settings_open
    }

    /// Whether the settings window has its size.
    pub(crate) fn is_settings_sized(&self) -> (result: bool)
        ensures
            result == self@.settings_sized,
    {
        self.settings_size_initialized
    }

    /// When edits are to be saved, if some wait.
    pub(crate) fn save_due_at(&self) -> (result: Option<Duration>)
        ensures
            optional_span(result) == self@.save_due_at,
    {
        self.settings_save_due_at
    }

    /// Whether the window is visible.
    pub(crate) fn is_root_visible(&self) -> (result: bool)
        ensures
            result == self@.root_visible,
    {
        self.root_visible
    }

    /// Whether the window only keeps the overlay alive.
    pub(crate) fn is_controller(&self) -> (result: bool)
        ensures
            result == self@.controller_mode,
    {
        self.root_controller_mode
    }

    /// Whether the application ends.
    pub fn is_quitting(&self) -> (result: bool)
        ensures
            result == self@.quitting,
    {
        self.quitting
    }

    /// The reasons to pause that hold.
    pub(crate) fn pause_mask(&self) -> (result: u8)
        ensures
            result == self@.pause_mask,
    {
        self.system_pause_mask
    }

    /// Whether there is an overlay window.
    pub(crate) fn has_overlay(&self) -> (result: bool)
        ensures
            result == self@.has_overlay,
    {
        self.has_overlay
    }

    /// Whether there is a tray icon.
    pub(crate) fn has_tray(&self) -> (result: bool)
        ensures
            result == self@.has_tray,
    {
        self.has_tray
    }

    /// The number of the selected display.
    pub fn selected(&self) -> (result: usize)
        ensures
            result == self@.selected,
    {
        self.selected_display
    }

    /// The displays to choose from.
    pub fn displays(&self) -> (result: &Vec<DisplayInfo>)
        ensures
            display_views(result@) == self@.displays,
    {
        &self.displays
    }

    /// The number of the frame that is shown.
    pub fn frame(&self) -> (result: usize)
        ensures
            result == self@.frame,
    {
        self.animation_frame_index
    }

    /// The status line.
    pub fn status(&self) -> (result: &Option<String>)
        ensures
            optional_text(*result) == self@.status,
    {
        &self.status
    }

    /// What is known of session notifications.
    pub fn session_status(&self) -> (result: &Option<String>)
        ensures
            optional_text(*result) == self@.session_status,
    {
        &self.session_notification_status
    }

    /// The image.
    pub fn image(&self) -> (result: &DecodedImage)
        ensures
            result.frames() == self@.frames,
            result.dimensions() == self@.image_size,
            self.wf() ==> result.wf() && result.playable(),
    {
        &self.image
    }

    /// What the overlay is to show.
    pub fn contents(&self) -> (result: OverlayContents)
        ensures
            result == self@.contents(),
    {
        OverlayContents {
            frame: self.animation_frame_index,
            image_size: self.image.width_and_height(),
            width_percent: self.settings.width_percent,
            opacity_percent: self.settings.opacity_percent,
            position: self.settings.position,
        }
    }

    /// The identifier of the selected display, if there is one.
    pub(crate) fn selected_id(&self) -> (result: Option<String>)
        ensures
            optional_text(result) == self@.selected_id(),
    {
        if self.selected_display < self.displays.len() {
            Some(self.displays[self.selected_display].id.clone())
        } else {
            None
        }
    }

    /// Whether every time that may be needed after `now` fits a `Duration`.
    pub fn has_room(&self, now: Duration) -> (result: bool)
        ensures
            result == self@.room_at(now@),
    {
        self.scheduler.has_room(now) && now.fits_before(self.settings.interval())
            && now.fits_before(Duration::from_millis(SETTINGS_SAVE_DEBOUNCE_MILLIS))
    }

    /// Whether there is room after `now` for other settings, too.
    pub fn has_room_for(&self, now: Duration, settings: &Settings) -> (result: bool)
        ensures
            result == (AppState { choices: settings@, ..self@ }).room_at(now@),
    {
        self.scheduler.has_room(now) && now.fits_before(settings.interval())
            && now.fits_before(Duration::from_millis(SETTINGS_SAVE_DEBOUNCE_MILLIS))
    }

    /// How long after `now` the schedule next changes by itself, if ever.
    pub(crate) fn next_wake_in(&self, now: Duration) -> (result: Option<Duration>)
        ensures
            optional_span(result) == match self@.schedule.deadline() {
                Some(deadline) => Some(elapsed_since(deadline, now@)),
                None => None,
            },
    {
        self.scheduler.next_wake_in(now)
    }

    /// The frame of the image that is due at `now`, and how long it stays.
    pub(crate) fn due_frame(&self, now: Duration) -> (result: (usize, Duration))
        requires
            self.wf(),
        ensures
            frame_shown_at(
                self@.frames,
                elapsed_since(now@, self@.animation_started_at),
                (result.0 as int, result.1@),
            ),
    {
        self.image.frame_at(now.saturating_sub(self.animation_started_at))
    }

    /// Opens or closes the settings.
    pub(crate) fn set_settings_open(&mut self, open: bool)
        ensures
            final(self)@ == (AppState { settings_open: open, ..old(self)@ }),
            final(self).wf() == old(self).wf(),
    {
        self.settings_open = open;
    }

    /// Takes note that the settings window has its size.
    pub(crate) fn set_settings_sized(&mut self)
        ensures
            final(self)@ == (AppState { settings_sized: true, ..old(self)@ }),
            final(self).wf() == old(self).wf(),
    {
        self.settings_size_initialized = true;
    }

    /// Sets when edits are to be saved.
    pub(crate) fn set_save_due_at(&mut self, due_at: Option<Duration>)
        ensures
            final(self)@ == (AppState { save_due_at: optional_span(due_at), ..old(self)@ }),
            final(self).wf() == old(self).wf(),
    {
        self.settings_save_due_at = due_at;
    }

    /// Takes note whether the window is visible.
    pub(crate) fn set_root_visible(&mut self, visible: bool)
        ensures
            final(self)@ == (AppState { root_visible: visible, ..old(self)@ }),
            final(self).wf() == old(self).wf(),
    {
        self.root_visible = visible;
    }

    /// Takes note whether the window only keeps the overlay alive.
    pub(crate) fn set_controller(&mut self, controller: bool)
        ensures
            final(self)@ == (AppState { controller_mode: controller, ..old(self)@ }),
            final(self).wf() == old(self).wf(),
    {
        self.root_controller_mode = controller;
    }

    /// Takes note that the application ends.
    pub(crate) fn set_quitting(&mut self)
        ensures
            final(self)@ == (AppState { quitting: true, ..old(self)@ }),
            final(self).wf() == old(self).wf(),
    {
        self.quitting = true;
    }

    /// Sets the reasons to pause that hold.
    pub(crate) fn set_pause_mask(&mut self, mask: u8)
        ensures
            final(self)@ == (AppState { pause_mask: mask, ..old(self)@ }),
            final(self).wf() == old(self).wf(),
    {
        self.system_pause_mask = mask;
    }

    /// Sets what is known of session notifications.
    pub(crate) fn set_session_status(&mut self, status: Option<String>)
        ensures
            final(self)@ == (AppState { session_status: optional_text(status), ..old(self)@ }),
            final(self).wf() == old(self).wf(),
    {
        self.session_notification_status = status;
    }

    /// Sets the status line.
    pub(crate) fn set_status(&mut self, status: Option<String>)
        ensures
            final(self)@ == (AppState { status: optional_text(status), ..old(self)@ }),
            final(self).wf() == old(self).wf(),
    {
        self.status = status;
    }

    /// Adds a message to the status line.
    pub fn append_status(&mut self, message: String)
        ensures
            final(self)@ == (AppState {
                status: appended(old(self)@.status, message@),
                ..old(self)@
            }),
            final(self).wf() == old(self).wf(),
    {
        append_status(&mut self.status, message);
    }

    /// Takes note whether there is a tray icon.
    pub(crate) fn set_has_tray(&mut self, has_tray: bool)
        ensures
            final(self)@ == (AppState { has_tray: has_tray, ..old(self)@ }),
            final(self).wf() == old(self).wf(),
    {
        self.has_tray = has_tray;
    }

    /// Sets the frame that is shown.
    pub(crate) fn set_frame(&mut self, frame: usize)
        ensures
            final(self)@ == (AppState { frame: frame as int, ..old(self)@ }),
            final(self).wf() == old(self).wf(),
    {
        self.animation_frame_index = frame;
    }

    /// Takes note that the animation starts.
    pub(crate) fn set_animation_start(&mut self, now: Duration)
        ensures
            final(self)@ == (AppState { animation_started_at: now@, ..old(self)@ }),
            final(self).wf() == old(self).wf(),
    {
        self.animation_started_at = now;
    }

    /// Selects a display.
    pub(crate) fn set_selected(&mut self, selected: usize)
        ensures
            final(self)@ == (AppState { selected: selected as int, ..old(self)@ }),
            final(self).wf() == old(self).wf(),
    {
        self.selected_display = selected;
    }

    /// Takes over displays, and selects one.
    pub(crate) fn set_displays(&mut self, displays: Vec<DisplayInfo>, selected: usize)
        ensures
            final(self)@ == (AppState {
                displays: display_views(displays@),
                selected: selected as int,
                ..old(self)@
            }),
            final(self).wf() == old(self).wf(),
    {
        self.displays = displays;
        self.selected_display = selected;
    }

    /// Takes over an image, from its first frame on.
    pub(crate) fn set_image(&mut self, image: DecodedImage)
        requires
            image.wf(),
            image.playable(),
        ensures
            final(self)@ == (AppState {
                frames: image.frames(),
                image_size: image.dimensions(),
                frame: 0,
                ..old(self)@
            }),
            final(self).wf(),
    {
        self.image = image;
        self.animation_frame_index = 0;
    }

    /// Takes over settings.
    pub(crate) fn set_settings(&mut self, settings: Settings)
        ensures
            final(self)@ == (AppState { choices: settings@, ..old(self)@ }),
            final(self).wf() == old(self).wf(),
    {
        self.settings = settings;
    }

    /// Sets the chosen display.
    pub(crate) fn set_display_id(&mut self, id: Option<String>)
        ensures
            final(self)@ == (AppState {
                choices: Choices { display_id: optional_text(id), ..old(self)@.choices },
                ..old(self)@
            }),
            final(self).wf() == old(self).wf(),
    {
        self.settings.display_id = id;
    }

    /// Sets the chosen image.
    pub(crate) fn set_image_path(&mut self, path: Option<PathBuf>)
        ensures
            final(self)@ == (AppState {
                choices: Choices { image_path: path, ..old(self)@.choices },
                ..old(self)@
            }),
            final(self).wf() == old(self).wf(),
    {
        self.settings.image_path = path;
    }

    /// Sets where the overlay is.
    pub(crate) fn set_position(&mut self, position: NormalizedPosition)
        ensures
            final(self)@ == (AppState {
                choices: Choices { position, ..old(self)@.choices },
                ..old(self)@
            }),
            final(self).wf() == old(self).wf(),
    {
        self.settings.position = position;
    }

    /// Turns reminders on or off.
    pub(crate) fn set_reminders_enabled(&mut self, enabled: bool)
        ensures
            final(self)@ == (AppState {
                choices: Choices { reminders_enabled: enabled, ..old(self)@.choices },
                ..old(self)@
            }),
            final(self).wf() == old(self).wf(),
    {
        self.settings.reminders_enabled = enabled;
    }

    /// Turns starting at login on or off.
    pub(crate) fn set_start_at_login(&mut self, enabled: bool)
        ensures
            final(self)@ == (AppState {
                choices: Choices { start_at_login: enabled, ..old(self)@.choices },
                ..old(self)@
            }),
            final(self).wf() == old(self).wf(),
    {
        self.settings.start_at_login = enabled;
    }

    /// Lets time pass in the schedule.
    pub(crate) fn tick_schedule(&mut self, now: Duration) -> (action: SchedulerAction)
        requires
            old(self)@.room_at(now@),
        ensures
            final(self)@ == (AppState {
                schedule: old(self)@.schedule.ticked(now@).0,
                ..old(self)@
            }),
            action == old(self)@.schedule.ticked(now@).1,
            final(self).wf() == old(self).wf(),
    {
        self.scheduler.tick(now)
    }

    /// Shows the overlay at once in the schedule.
    pub(crate) fn show_in_schedule(&mut self, now: Duration) -> (action: SchedulerAction)
        requires
            old(self)@.room_at(now@),
        ensures
            final(self)@ == (AppState {
                schedule: old(self)@.schedule.shown_now(now@).0,
                ..old(self)@
            }),
            action == old(self)@.schedule.shown_now(now@).1,
            final(self).wf() == old(self).wf(),
    {
        self.scheduler.show_now(now)
    }

    /// Starts the schedule over with the chosen times.
    pub(crate) fn restart_schedule(&mut self, now: Duration) -> (action: SchedulerAction)
        requires
            old(self)@.room_at(now@),
        ensures
            final(self)@ == (AppState {
                schedule: old(self)@.restarted(now@).0,
                ..old(self)@
            }),
            action == old(self)@.restarted(now@).1,
            final(self).wf() == old(self).wf(),
    {
        self.scheduler.reset(
            now,
            self.settings.interval(),
            self.settings.overlay_duration(),
            self.settings.reminders_enabled,
        )
    }

    /// Pauses the schedule.
    pub(crate) fn pause_schedule(&mut self, now: Duration) -> (action: SchedulerAction)
        ensures
            final(self)@ == (AppState {
                schedule: old(self)@.schedule.paused(now@).0,
                ..old(self)@
            }),
            action == old(self)@.schedule.paused(now@).1,
            final(self).wf() == old(self).wf(),
    {
        self.scheduler.begin_break(now)
    }

    /// Resumes the schedule.
    pub(crate) fn resume_schedule(&mut self, now: Duration)
        requires
            old(self)@.room_at(now@),
        ensures
            final(self)@ == (AppState {
                schedule: old(self)@.schedule.resumed(now@, old(self)@.choices.resume_policy),
                ..old(self)@
            }),
            final(self).wf() == old(self).wf(),
    {
        self.scheduler.end_break(now, self.settings.resume_policy);
    }
}

} // verus!
