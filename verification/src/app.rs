//! What the application does about commands, time, edits and the outcomes of what it asked for.
//!
//! Every function that changes the application gives the steps to perform, in their order.
//! Whoever performs a step that can fail reports the outcome before performing the next one.

use std::path::PathBuf;

use vstd::prelude::*;
use vstd::string::*;

use crate::app_state::{
    appended, display_ids, display_views, failure, legacy_ids, no_steps, pause_reason_mask,
    push_step, reason_bit, AppCore, AppEffect, AppState, AppStep, Display, DisplayInfo, Platform,
    Turn, WindowCommand, SETTINGS_SAVE_DEBOUNCE_MILLIS, SHORTEST_WAKE_MILLIS,
};
use crate::config::{Choices, NormalizedPosition, Settings};
use crate::image_asset::{frame_shown_at, DecodedImage};
use crate::linux_daemon::{earlier, elapsed_since, optional_span};
use crate::scheduler::SchedulerAction;
use crate::text::optional_text;
use crate::time::{Duration, MAX_NANOS};
use crate::windows::{error_text, os_code, text_of_error};
use crate::{AppCommand, SystemPauseReason};

verus! {

impl AppCore {
    fn set_window_visible(&mut self, steps: &mut Vec<AppStep>, visible: bool)
        ensures
            final(self).wf() == old(self).wf(),
            final(self).turn_after(final(steps)@) == old(self).turn_after(
                old(steps)@,
            ).window_visible(visible),
    {
        if visible != self.is_root_visible() {
            self.set_root_visible(visible);
            push_step(steps, AppStep::Window(WindowCommand::Visible(visible)));
        }
    }

    /// Brings the settings window in line with what is open.
    pub fn update_root_visibility(&mut self, steps: &mut Vec<AppStep>)
        ensures
            final(self).wf() == old(self).wf(),
            final(self).turn_after(final(steps)@) == old(self).turn_after(
                old(steps)@,
            ).window_updated(),
    {
        proof {
            reveal(Turn::window_updated);
        }
        let open = self.is_settings_open();
        if self.has_native_overlay() {
            self.set_window_visible(steps, open);
            return;
        }
        let showing = self.is_showing();
        if open && self.is_controller() {
            self.set_controller(false);
            push_step(steps, AppStep::Window(WindowCommand::Fullscreen(false)));
            push_step(steps, AppStep::Window(WindowCommand::Decorations(true)));
            push_step(steps, AppStep::Window(WindowCommand::MousePassthrough(false)));
            push_step(steps, AppStep::Window(WindowCommand::NormalLevel));
            push_step(steps, AppStep::Window(WindowCommand::SettingsSize));
            push_step(steps, AppStep::Window(WindowCommand::SettingsPosition));
            push_step(steps, AppStep::Window(WindowCommand::Focus));
        } else if !open && showing && !self.is_controller() {
            self.set_controller(true);
            push_step(steps, AppStep::Window(WindowCommand::Fullscreen(false)));
            push_step(steps, AppStep::Window(WindowCommand::Decorations(false)));
            push_step(steps, AppStep::Window(WindowCommand::MousePassthrough(true)));
            push_step(steps, AppStep::Window(WindowCommand::NormalLevel));
            push_step(steps, AppStep::Window(WindowCommand::ControllerSize));
            push_step(steps, AppStep::Window(WindowCommand::OffscreenPosition));
        }
        self.set_window_visible(steps, showing || open);
    }

    /// Gives the settings window its size when it is open for the first time.
    pub fn initialize_settings_window(&mut self, steps: &mut Vec<AppStep>)
        ensures
            final(self).wf() == old(self).wf(),
            final(self).turn_after(final(steps)@) == old(self).turn_after(
                old(steps)@,
            ).window_sized(),
    {
        proof {
            reveal(Turn::window_sized);
        }
        if !self.is_settings_open() || self.is_settings_sized() {
            return;
        }
        self.set_settings_sized();
        push_step(steps, AppStep::Window(WindowCommand::Fullscreen(false)));
        push_step(steps, AppStep::Window(WindowCommand::Decorations(true)));
        push_step(steps, AppStep::Window(WindowCommand::MousePassthrough(false)));
        push_step(steps, AppStep::Window(WindowCommand::NormalLevel));
        push_step(steps, AppStep::Window(WindowCommand::SettingsSize));
    }

    /// Shows the overlay as it is to be now, if it is up.
    pub fn refresh_overlay(&self, steps: &mut Vec<AppStep>)
        ensures
            self.turn_after(final(steps)@) == self.turn_after(old(steps)@).overlay_refreshed(),
    {
        proof {
            reveal(Turn::overlay_refreshed);
        }
        if self.is_showing() {
            if !self.has_native_overlay() {
                push_step(steps, AppStep::Repaint);
            } else if self.has_overlay() && self.selected() < self.displays().len() {
                push_step(
                    steps,
                    AppStep::ShowOverlay { display: self.selected(), contents: self.contents() },
                );
            }
        }
    }

    fn update_preview(&self, steps: &mut Vec<AppStep>)
        ensures
            self.turn_after(final(steps)@) == self.turn_after(old(steps)@).preview_updated(),
    {
        push_step(steps, AppStep::UpdatePreview { frame: self.frame() });
    }

    fn set_animation_frame(&mut self, steps: &mut Vec<AppStep>, index: usize)
        ensures
            final(self).wf() == old(self).wf(),
            final(self).turn_after(final(steps)@) == old(self).turn_after(old(steps)@).frame_set(
                index as int,
            ),
    {
        proof {
            reveal(Turn::frame_set);
        }
        if self.frame() == index {
            return;
        }
        self.set_frame(index);
        if self.has_native_overlay() && !self.is_settings_open() {
            return;
        }
        self.update_preview(steps);
    }

    fn apply_scheduler_action(
        &mut self,
        steps: &mut Vec<AppStep>,
        now: Duration,
        action: SchedulerAction,
    )
        ensures
            final(self).wf() == old(self).wf(),
            final(self).turn_after(final(steps)@) == old(self).turn_after(old(steps)@).acted(
                now@,
                action,
            ),
    {
        proof {
            reveal(Turn::acted);
        }
        match action {
            SchedulerAction::Nothing => {
                return;
            },
            SchedulerAction::Show => {
                self.set_animation_start(now);
                self.set_animation_frame(steps, 0);
                self.refresh_overlay(steps);
            },
            SchedulerAction::Hide => {
                if !self.has_native_overlay() {
                    push_step(steps, AppStep::CloseOverlayViewport);
                } else if self.has_overlay() {
                    push_step(steps, AppStep::HideOverlay);
                }
            },
        }
        self.update_root_visibility(steps);
    }

    fn reset_schedule(&mut self, steps: &mut Vec<AppStep>, now: Duration)
        requires
            old(self)@.room_at(now@),
        ensures
            final(self).wf() == old(self).wf(),
            final(self).turn_after(final(steps)@) == old(self).turn_after(
                old(steps)@,
            ).schedule_reset(now@),
    {
        let action = self.restart_schedule(now);
        self.apply_scheduler_action(steps, now, action);
    }

    /// Sends the settings on their way to the file, with the selected display in them.
    pub fn save_settings(&mut self, steps: &mut Vec<AppStep>)
        ensures
            final(self).wf() == old(self).wf(),
            final(self).turn_after(final(steps)@) == old(self).turn_after(old(steps)@).saving(),
    {
        proof {
            reveal(Turn::saving);
        }
        self.set_save_due_at(None);
        let id = self.selected_id();
        if id.is_some() {
            self.set_display_id(id);
        }
        push_step(steps, AppStep::Save);
    }

    fn save_edits(&mut self, steps: &mut Vec<AppStep>)
        ensures
            final(self).wf() == old(self).wf(),
            final(self).turn_after(final(steps)@) == old(self).turn_after(
                old(steps)@,
            ).saving_edits(),
    {
        if self.save_due_at().is_some() {
            self.save_settings(steps);
        }
    }

    fn schedule_settings_save(&mut self, steps: &mut Vec<AppStep>, now: Duration)
        requires
            now@ + 500_000_000 <= MAX_NANOS,
        ensures
            final(self).wf() == old(self).wf(),
            final(self).turn_after(final(steps)@) == old(self).turn_after(
                old(steps)@,
            ).save_scheduled(now@),
    {
        let wait = Duration::from_millis(SETTINGS_SAVE_DEBOUNCE_MILLIS);
        self.set_save_due_at(Some(now.plus(wait)));
        push_step(steps, AppStep::RepaintAfter(wait));
    }

    /// Saves edits that have waited long enough, or waits on.
    pub fn flush_settings_save_if_due(&mut self, steps: &mut Vec<AppStep>, now: Duration)
        ensures
            final(self).wf() == old(self).wf(),
            final(self).turn_after(final(steps)@) == match old(self)@.save_due_at {
                None => old(self).turn_after(old(steps)@),
                Some(due_at) => if now@ >= due_at {
                    old(self).turn_after(old(steps)@).saving()
                } else {
                    old(self).turn_after(old(steps)@).and(
                        AppEffect::RepaintAfter((due_at - now@) as nat),
                    )
                },
            },
    {
        if let Some(due_at) = self.save_due_at() {
            if now.at_least(due_at) {
                self.save_settings(steps);
            } else {
                push_step(steps, AppStep::RepaintAfter(due_at.saturating_sub(now)));
            }
        }
    }

    fn quit(&mut self, steps: &mut Vec<AppStep>)
        ensures
            final(self).wf() == old(self).wf(),
            final(self).turn_after(final(steps)@) == old(self).turn_after(old(steps)@).quit(),
    {
        self.set_quitting();
        push_step(steps, AppStep::Window(WindowCommand::Close));
    }

    fn send_to_background(&mut self, steps: &mut Vec<AppStep>)
        ensures
            final(self).wf() == old(self).wf(),
            final(self).turn_after(final(steps)@) == old(self).turn_after(
                old(steps)@,
            ).sent_to_background(),
    {
        if self.platform() == Platform::Linux {
            push_step(steps, AppStep::SpawnBackground);
        } else {
            self.set_settings_open(false);
            self.update_root_visibility(steps);
        }
    }
}

/// Whether an error of the operating system with a code can have this text.
pub open spec fn os_error_text(code: i32, text: Seq<char>) -> bool {
    exists|error: std::io::Error|
        #[trigger] error_text(error, text) && os_code(error) == Some(code)
}

fn describe_os_error(code: i32) -> (text: String)
    ensures
        os_error_text(code, text@),
{
    let error = std::io::Error::from_raw_os_error(code);
    let text = text_of_error(&error);
    assert(error_text(error, text@));
    text
}

/// The number of the first display with an identifier.
fn find_display(displays: &[DisplayInfo], id: &String) -> (result: Option<usize>)
    ensures
        match result {
            Some(index) => display_ids(display_views(displays@)).index_of_first(id@) == Some(index as int),
            None => display_ids(display_views(displays@)).index_of_first(id@) is None,
        },
{
    let ghost ids = display_ids(display_views(displays@));
    let mut i: usize = 0;
    while i < displays.len()
        invariant
            i <= displays@.len(),
            ids == display_ids(display_views(displays@)),
            forall|j: int| 0 <= j < i ==> ids[j] != id@,
        decreases displays@.len() - i,
    {
        if displays[i].id == *id {
            proof {
                assert(ids[i as int] == id@);
                ids.index_of_first_ensures(id@);
            }
            return Some(i);
        }
        assert(ids[i as int] != id@);
        i += 1;
    }
    proof {
        ids.index_of_first_ensures(id@);
    }
    None
}

/// The number of the first display with an earlier identifier.
fn find_legacy_display(displays: &[DisplayInfo], id: &String) -> (result: Option<usize>)
    ensures
        match result {
            Some(index) => legacy_ids(display_views(displays@)).index_of_first(id@) == Some(index as int),
            None => legacy_ids(display_views(displays@)).index_of_first(id@) is None,
        },
{
    let ghost ids = legacy_ids(display_views(displays@));
    let mut i: usize = 0;
    while i < displays.len()
        invariant
            i <= displays@.len(),
            ids == legacy_ids(display_views(displays@)),
            forall|j: int| 0 <= j < i ==> ids[j] != id@,
        decreases displays@.len() - i,
    {
        if displays[i].legacy_id == *id {
            proof {
                assert(ids[i as int] == id@);
                ids.index_of_first_ensures(id@);
            }
            return Some(i);
        }
        assert(ids[i as int] != id@);
        i += 1;
    }
    proof {
        ids.index_of_first_ensures(id@);
    }
    None
}

/// How a display was found again.
#[derive(Debug, Clone, Copy, PartialEq, Eq, Structural)]
pub enum Match {
    /// By its identifier.
    Exact,
    /// By its earlier identifier.
    Legacy,
    /// Not at all: the first display takes its place.
    Missing,
    /// None was looked for: the first display is taken.
    Unspecified,
}

/// Which display an identifier chooses, and how: by its identifier, or on Windows by its earlier
/// one.
pub open spec fn matched(
    platform: Platform,
    displays: Seq<Display>,
    id: Option<Seq<char>>,
) -> (int, Match) {
    match id {
        None => (0, Match::Unspecified),
        Some(id) => match display_ids(displays).index_of_first(id) {
            Some(index) => (index, Match::Exact),
            None => match legacy_ids(displays).index_of_first(id) {
                Some(index) if platform == Platform::Windows => (index, Match::Legacy),
                _ => (0, Match::Missing),
            },
        },
    }
}

/// Which display an identifier chooses, and how.
pub fn match_display(platform: Platform, displays: &[DisplayInfo], id: &Option<String>) -> (result: (
    usize,
    Match,
))
    ensures
        (result.0 as int, result.1) == matched(
            platform,
            display_views(displays@),
            optional_text(*id),
        ),
{
    match id {
        None => (0, Match::Unspecified),
        Some(id) => match find_display(displays, id) {
            Some(index) => (index, Match::Exact),
            None => match find_legacy_display(displays, id) {
                Some(index) => if platform == Platform::Windows {
                    (index, Match::Legacy)
                } else {
                    (0, Match::Missing)
                },
                None => (0, Match::Missing),
            },
        },
    }
}

/// What a command brings at `now`. The text for a system's error is given.
#[verifier::opaque]
pub open spec fn commanded(
    state: AppState,
    now: nat,
    command: AppCommand,
    error_text: Seq<char>,
) -> Turn {
    let turn = state.turn();
    match command {
        AppCommand::OpenSettings => turn.in_state(
            AppState { settings_open: true, ..state },
        ).preview_updated().window_updated().window_sized().tell(WindowCommand::Focus),
        AppCommand::RunInBackground => turn.sent_to_background(),
        AppCommand::ShowNow => turn.scheduled(now, state.schedule.shown_now(now)),
        AppCommand::ToggleReminders => {
            let enabled = !state.choices.reminders_enabled;
            let toggled = turn.in_state(
                AppState {
                    choices: Choices { reminders_enabled: enabled, ..state.choices },
                    ..state
                },
            ).schedule_reset(now).saving();
            if state.platform == Platform::Windows && state.has_tray {
                toggled.and(AppEffect::CheckTrayItem(enabled))
            } else {
                toggled
            }
        },
        AppCommand::DisplayTopologyChanged => match state.platform {
            Platform::Windows => turn.and(AppEffect::EnumerateDisplays),
            Platform::Linux => if state.has_overlay {
                turn.and(AppEffect::EnumerateDisplays)
            } else {
                turn
            },
            Platform::Other => turn,
        },
        AppCommand::SessionNotificationsDelayed => turn.in_state(
            AppState {
                session_status: Some("Waiting for Windows lock and unlock notifications..."@),
                ..state
            },
        ),
        AppCommand::SessionNotificationsReady => turn.in_state(
            AppState { session_status: None, ..state },
        ),
        AppCommand::SessionNotificationsUnavailable(_) => turn.in_state(
            AppState {
                session_status: Some(
                    "Lock and unlock monitoring is unavailable: "@ + error_text,
                ),
                ..state
            },
        ),
        AppCommand::SystemPause(reason) => {
            let paused = turn.in_state(
                AppState { pause_mask: state.pause_mask | reason_bit(reason), ..state },
            );
            if state.pause_mask == 0 {
                paused.scheduled(now, state.schedule.paused(now))
            } else {
                paused
            }
        },
        AppCommand::SystemResume(reason) => {
            let mask = state.pause_mask & !reason_bit(reason);
            if mask == 0 {
                turn.in_state(
                    AppState {
                        pause_mask: mask,
                        schedule: state.schedule.resumed(now, state.choices.resume_policy),
                        ..state
                    },
                ).window_updated()
            } else {
                turn.in_state(AppState { pause_mask: mask, ..state })
            }
        },
        AppCommand::Quit => turn.saving_edits().quit(),
    }
}

/// What closing the settings window brings. The window is never closed by the desktop itself.
pub open spec fn close_asked(state: AppState) -> Turn {
    if state.settings_open && !state.quitting {
        state.turn().tell(WindowCommand::CancelClose).saving_edits().sent_to_background()
    } else {
        state.turn()
    }
}

/// What is done about displays that were asked for, or about the error.
pub open spec fn displays_updated(
    state: AppState,
    result: Result<Seq<Display>, Seq<char>>,
) -> Turn {
    let turn = state.turn();
    let windows = state.platform == Platform::Windows;
    match result {
        Err(error) => turn.in_state(
            AppState {
                status: appended(
                    state.status,
                    (if windows {
                        "Could not refresh displays: "@
                    } else {
                        "Could not refresh Wayland outputs: "@
                    }) + error,
                ),
                ..state
            },
        ),
        Ok(displays) => if !windows && displays.len() == 0 {
            turn.in_state(
                AppState {
                    status: appended(state.status, "Wayland compositor reported no outputs"@),
                    ..state
                },
            )
        } else {
            let (selected, how) = matched(state.platform, displays, state.selected_id());
            let adopted = turn.in_state(
                AppState { displays, selected, ..state },
            );
            (match how {
                Match::Legacy => adopted.saving(),
                Match::Missing => adopted.saving().and(
                    AppEffect::AppendStatus(
                        if windows {
                            "Selected display was disconnected; switched to the primary display"@
                        } else {
                            "Selected output was disconnected; switched to the first available output"@
                        },
                    ),
                ),
                _ => adopted,
            }).overlay_refreshed()
        },
    }
}

/// The tray icon created or removed as the settings want it, where there can be one.
#[verifier::opaque]
pub open spec fn tray_refreshed(turn: Turn) -> Turn {
    let state = turn.state;
    if state.platform != Platform::Windows {
        turn
    } else if state.choices.show_tray_icon && !state.has_tray {
        turn.and(AppEffect::CreateTray(state.choices.reminders_enabled))
    } else if !state.choices.show_tray_icon {
        turn.in_state(AppState { has_tray: false, ..state }).and(AppEffect::RemoveTray)
    } else {
        turn
    }
}

/// What edits of the settings bring at `now`: another schedule where times changed, and another
/// overlay where its looks did. Both are saved a little later.
pub open spec fn edited(
    turn: Turn,
    now: nat,
    schedule_changed: bool,
    visual_changed: bool,
) -> Turn {
    let scheduled = if schedule_changed {
        turn.schedule_reset(now)
    } else {
        turn
    };
    let saved = if schedule_changed || visual_changed {
        scheduled.save_scheduled(now)
    } else {
        scheduled
    };
    if visual_changed {
        saved.overlay_refreshed()
    } else {
        saved
    }
}

/// Another frame on the overlay, where it is another.
pub open spec fn animated(turn: Turn, frame: int) -> Turn {
    if frame == turn.state.frame {
        turn
    } else {
        turn.frame_set(frame).overlay_refreshed()
    }
}

impl AppCore {
    fn open_settings(&mut self, now: Duration) -> (steps: Vec<AppStep>)
        ensures
            final(self).wf() == old(self).wf(),
            final(self).turn_after(steps@) == commanded(
                old(self)@,
                now@,
                AppCommand::OpenSettings,
                seq![],
            ),
    {
        reveal(commanded);
        let mut steps = no_steps();
        self.set_settings_open(true);
        self.update_preview(&mut steps);
        self.update_root_visibility(&mut steps);
        self.initialize_settings_window(&mut steps);
        push_step(&mut steps, AppStep::Window(WindowCommand::Focus));
        steps
    }

    fn toggle_reminders(&mut self, now: Duration) -> (steps: Vec<AppStep>)
        requires
            old(self)@.room_at(now@),
        ensures
            final(self).wf() == old(self).wf(),
            final(self).turn_after(steps@) == commanded(
                old(self)@,
                now@,
                AppCommand::ToggleReminders,
                seq![],
            ),
    {
        reveal(commanded);
        let mut steps = no_steps();
        let windows_tray = self.platform() == Platform::Windows && self.has_tray();
        let enabled = !self.settings().reminders_enabled;
        self.set_reminders_enabled(enabled);
        self.reset_schedule(&mut steps, now);
        self.save_settings(&mut steps);
        if windows_tray {
            push_step(&mut steps, AppStep::CheckTrayItem(enabled));
        }
        steps
    }

    fn pause(&mut self, now: Duration, reason: SystemPauseReason) -> (steps: Vec<AppStep>)
        ensures
            final(self).wf() == old(self).wf(),
            final(self).turn_after(steps@) == commanded(
                old(self)@,
                now@,
                AppCommand::SystemPause(reason),
                seq![],
            ),
    {
        reveal(commanded);
        let mut steps = no_steps();
        let mask = self.pause_mask();
        self.set_pause_mask(mask | pause_reason_mask(reason));
        if mask == 0 {
            let action = self.pause_schedule(now);
            self.apply_scheduler_action(&mut steps, now, action);
        }
        steps
    }

    fn resume(&mut self, now: Duration, reason: SystemPauseReason) -> (steps: Vec<AppStep>)
        requires
            old(self)@.room_at(now@),
        ensures
            final(self).wf() == old(self).wf(),
            final(self).turn_after(steps@) == commanded(
                old(self)@,
                now@,
                AppCommand::SystemResume(reason),
                seq![],
            ),
    {
        reveal(commanded);
        let mut steps = no_steps();
        let mask = self.pause_mask() & !pause_reason_mask(reason);
        self.set_pause_mask(mask);
        if mask == 0 {
            self.resume_schedule(now);
            self.update_root_visibility(&mut steps);
        }
        steps
    }

    /// Shows a reminder at once.
    pub fn show_now(&mut self, now: Duration) -> (steps: Vec<AppStep>)
        requires
            old(self)@.room_at(now@),
        ensures
            final(self).wf() == old(self).wf(),
            final(self).turn_after(steps@) == old(self)@.turn().scheduled(
                now@,
                old(self)@.schedule.shown_now(now@),
            ),
    {
        let mut steps = no_steps();
        let action = self.show_in_schedule(now);
        self.apply_scheduler_action(&mut steps, now, action);
        steps
    }

    /// Ends the application, after edits that wait are saved.
    pub fn request_quit(&mut self) -> (steps: Vec<AppStep>)
        ensures
            final(self).wf() == old(self).wf(),
            final(self).turn_after(steps@) == old(self)@.turn().saving_edits().quit(),
    {
        let mut steps = no_steps();
        self.save_edits(&mut steps);
        self.quit(&mut steps);
        steps
    }

    fn note_unavailable(&mut self, now: Duration, code: u32) -> (steps: Vec<AppStep>)
        ensures
            final(self).wf() == old(self).wf(),
            exists|text: Seq<char>|
                #[trigger] os_error_text(signed(code), text) && final(self).turn_after(steps@)
                    == commanded(
                    old(self)@,
                    now@,
                    AppCommand::SessionNotificationsUnavailable(code),
                    text,
                ),
    {
        reveal(commanded);
        let text = describe_os_error(as_signed(code));
        let message = failure("Lock and unlock monitoring is unavailable: ", text.as_str());
        self.set_session_status(Some(message));
        assert(os_error_text(signed(code), text@));
        no_steps()
    }

    fn run_in_background(&mut self, now: Duration) -> (steps: Vec<AppStep>)
        ensures
            final(self).wf() == old(self).wf(),
            final(self).turn_after(steps@) == commanded(
                old(self)@,
                now@,
                AppCommand::RunInBackground,
                seq![],
            ),
    {
        reveal(commanded);
        let mut steps = no_steps();
        self.send_to_background(&mut steps);
        steps
    }

    fn displays_changed(&mut self, now: Duration) -> (steps: Vec<AppStep>)
        ensures
            final(self).wf() == old(self).wf(),
            final(self).turn_after(steps@) == commanded(
                old(self)@,
                now@,
                AppCommand::DisplayTopologyChanged,
                seq![],
            ),
    {
        reveal(commanded);
        let mut steps = no_steps();
        if self.platform() == Platform::Windows || self.platform() == Platform::Linux
            && self.has_overlay() {
            push_step(&mut steps, AppStep::EnumerateDisplays);
        }
        steps
    }

    fn note_delayed(&mut self, now: Duration) -> (steps: Vec<AppStep>)
        ensures
            final(self).wf() == old(self).wf(),
            final(self).turn_after(steps@) == commanded(
                old(self)@,
                now@,
                AppCommand::SessionNotificationsDelayed,
                seq![],
            ),
    {
        reveal(commanded);
        let message = "Waiting for Windows lock and unlock notifications...".to_owned();
        self.set_session_status(Some(message));
        no_steps()
    }

    fn note_ready(&mut self, now: Duration) -> (steps: Vec<AppStep>)
        ensures
            final(self).wf() == old(self).wf(),
            final(self).turn_after(steps@) == commanded(
                old(self)@,
                now@,
                AppCommand::SessionNotificationsReady,
                seq![],
            ),
    {
        reveal(commanded);
        self.set_session_status(None);
        no_steps()
    }

    /// What a command asks for at `now`.
    pub fn process_command(&mut self, now: Duration, command: AppCommand) -> (steps: Vec<AppStep>)
        requires
            old(self)@.room_at(now@),
        ensures
            final(self).wf() == old(self).wf(),
            !(command is SessionNotificationsUnavailable) ==> final(self).turn_after(steps@)
                == commanded(old(self)@, now@, command, seq![]),
            command matches AppCommand::SessionNotificationsUnavailable(code) ==> exists|
                text: Seq<char>,
            |
                #[trigger] os_error_text(signed(code), text) && final(self).turn_after(steps@)
                    == commanded(old(self)@, now@, command, text),
    {
        let ghost state = self@;
        match command {
            AppCommand::OpenSettings => self.open_settings(now),
            AppCommand::RunInBackground => self.run_in_background(now),
            AppCommand::ShowNow => {
                assert(commanded(state, now@, AppCommand::ShowNow, seq![])
                    == state.turn().scheduled(now@, state.schedule.shown_now(now@))) by {
                    reveal(commanded);
                }
                self.show_now(now)
            },
            AppCommand::ToggleReminders => self.toggle_reminders(now),
            AppCommand::DisplayTopologyChanged => self.displays_changed(now),
            AppCommand::SessionNotificationsDelayed => self.note_delayed(now),
            AppCommand::SessionNotificationsReady => self.note_ready(now),
            AppCommand::SessionNotificationsUnavailable(code) => self.note_unavailable(now, code),
            AppCommand::SystemPause(reason) => self.pause(now, reason),
            AppCommand::SystemResume(reason) => self.resume(now, reason),
            AppCommand::Quit => {
                assert(commanded(state, now@, AppCommand::Quit, seq![])
                    == state.turn().saving_edits().quit()) by {
                    reveal(commanded);
                }
                self.request_quit()
            },
        }
    }

    /// What closing the settings window asks for. It is never closed by the desktop itself.
    pub fn close_requested(&mut self) -> (steps: Vec<AppStep>)
        ensures
            final(self).wf() == old(self).wf(),
            final(self).turn_after(steps@) == close_asked(old(self)@),
    {
        let mut steps = no_steps();
        if self.is_settings_open() && !self.is_quitting() {
            push_step(&mut steps, AppStep::Window(WindowCommand::CancelClose));
            self.save_edits(&mut steps);
            self.send_to_background(&mut steps);
        }
        steps
    }

    /// Takes over displays that were asked for, or notes why there are none.
    pub fn displays_enumerated(&mut self, result: Result<Vec<DisplayInfo>, String>) -> (steps: Vec<
        AppStep,
    >)
        ensures
            final(self).wf() == old(self).wf(),
            final(self).turn_after(steps@) == displays_updated(
                old(self)@,
                match result {
                    Ok(displays) => Ok(display_views(displays@)),
                    Err(error) => Err(error@),
                },
            ),
    {
        let mut steps = no_steps();
        let windows = self.platform() == Platform::Windows;
        let displays = match result {
            Ok(displays) => displays,
            Err(error) => {
                self.append_status(
                    failure(
                        if windows {
                            "Could not refresh displays: "
                        } else {
                            "Could not refresh Wayland outputs: "
                        },
                        error.as_str(),
                    ),
                );
                return steps;
            },
        };
        if !windows && displays.len() == 0 {
            self.append_status("Wayland compositor reported no outputs".to_owned());
            return steps;
        }
        let id = self.selected_id();
        let (selected, how) = match_display(self.platform(), displays.as_slice(), &id);
        self.set_displays(displays, selected);
        match how {
            Match::Legacy => self.save_settings(&mut steps),
            Match::Missing => {
                self.save_settings(&mut steps);
                push_step(
                    &mut steps,
                    AppStep::AppendStatus(
                        if windows {
                            "Selected display was disconnected; switched to the primary display".to_owned()
                        } else {
                            "Selected output was disconnected; switched to the first available output".to_owned()
                        },
                    ),
                );
            },
            _ => {},
        }
        self.refresh_overlay(&mut steps);
        steps
    }

    /// Takes note whether the settings were saved.
    pub fn saved(&mut self, result: Result<(), String>)
        ensures
            final(self).wf() == old(self).wf(),
            final(self)@ == (AppState {
                status: Some(
                    match result {
                        Ok(_) => "Settings saved"@,
                        Err(error) => "Could not save settings: "@ + error@,
                    },
                ),
                ..old(self)@
            }),
    {
        let message = match result {
            Ok(_) => "Settings saved".to_owned(),
            Err(error) => failure("Could not save settings: ", error.as_str()),
        };
        self.set_status(Some(message));
    }

    /// Takes note that the overlay could not be shown.
    pub fn overlay_not_shown(&mut self, error: &str)
        ensures
            final(self).wf() == old(self).wf(),
            final(self)@ == (AppState {
                status: Some(
                    (if old(self)@.platform == Platform::Linux {
                        "Could not show Wayland reminder overlay: "@
                    } else {
                        "Could not show reminder overlay: "@
                    }) + error@,
                ),
                ..old(self)@
            }),
    {
        let message = if self.platform() == Platform::Linux {
            failure("Could not show Wayland reminder overlay: ", error)
        } else {
            failure("Could not show reminder overlay: ", error)
        };
        self.set_status(Some(message));
    }

    /// Takes note that the overlay could not be hidden.
    pub fn overlay_not_hidden(&mut self, error: &str)
        ensures
            final(self).wf() == old(self).wf(),
            final(self)@ == (AppState {
                status: Some(
                    (if old(self)@.platform == Platform::Linux {
                        "Could not hide Wayland reminder overlay: "@
                    } else {
                        "Could not hide reminder overlay: "@
                    }) + error@,
                ),
                ..old(self)@
            }),
    {
        let message = if self.platform() == Platform::Linux {
            failure("Could not hide Wayland reminder overlay: ", error)
        } else {
            failure("Could not hide reminder overlay: ", error)
        };
        self.set_status(Some(message));
    }

    /// Takes note that the overlay could not be drawn after it was to be shown.
    pub fn overlay_not_rendered(&mut self, error: &str)
        ensures
            final(self).wf() == old(self).wf(),
            final(self)@ == (AppState {
                status: appended(
                    old(self)@.status,
                    (if old(self)@.platform == Platform::Linux {
                        "Could not render Wayland reminder overlay: "@
                    } else {
                        "Could not render reminder overlay: "@
                    }) + error@,
                ),
                ..old(self)@
            }),
    {
        let message = if self.platform() == Platform::Linux {
            failure("Could not render Wayland reminder overlay: ", error)
        } else {
            failure("Could not render reminder overlay: ", error)
        };
        self.append_status(message);
    }

    /// What to do when a process took over in the background, or could not.
    pub fn background_spawned(&mut self, result: Result<(), String>) -> (steps: Vec<AppStep>)
        ensures
            final(self).wf() == old(self).wf(),
            final(self).turn_after(steps@) == match result {
                Ok(_) => old(self)@.turn().quit(),
                Err(error) => old(self)@.turn().in_state(
                    AppState {
                        status: Some("Could not continue in background: "@ + error@),
                        ..old(self)@
                    },
                ),
            },
    {
        let mut steps = no_steps();
        match result {
            Ok(_) => self.quit(&mut steps),
            Err(error) => {
                let message = failure("Could not continue in background: ", error.as_str());
                self.set_status(Some(message));
            },
        }
        steps
    }

    /// Creates or removes the tray icon as the settings want it.
    pub fn refresh_tray(&mut self, steps: &mut Vec<AppStep>)
        ensures
            final(self).wf() == old(self).wf(),
            final(self).turn_after(final(steps)@) == tray_refreshed(
                old(self).turn_after(old(steps)@),
            ),
    {
        proof {
            reveal(tray_refreshed);
        }
        if self.platform() != Platform::Windows {
            return;
        }
        let wanted = self.settings().show_tray_icon;
        if wanted && !self.has_tray() {
            let enabled = self.settings().reminders_enabled;
            push_step(steps, AppStep::CreateTray(enabled));
        } else if !wanted {
            self.set_has_tray(false);
            push_step(steps, AppStep::RemoveTray);
        }
    }

    /// Takes note whether the tray icon was created.
    pub fn tray_created(&mut self, result: Result<(), String>)
        ensures
            final(self).wf() == old(self).wf(),
            final(self)@ == match result {
                Ok(_) => AppState { has_tray: true, ..old(self)@ },
                Err(error) => AppState {
                    status: Some("Could not create tray icon: "@ + error@),
                    ..old(self)@
                },
            },
    {
        match result {
            Ok(_) => self.set_has_tray(true),
            Err(error) => {
                let message = failure("Could not create tray icon: ", error.as_str());
                self.set_status(Some(message));
            },
        }
    }

    /// Takes over an image that a user chose, or the built-in one where no path is given.
    pub fn image_chosen(&mut self, image: DecodedImage, path: Option<PathBuf>) -> (steps: Vec<
        AppStep,
    >)
        requires
            image.wf(),
            image.playable(),
        ensures
            final(self).wf(),
            final(self).turn_after(steps@) == old(self)@.turn().in_state(
                AppState {
                    frames: image.frames(),
                    image_size: image.dimensions(),
                    frame: 0,
                    choices: Choices { image_path: path, ..old(self)@.choices },
                    ..old(self)@
                },
            ).preview_updated().saving().overlay_refreshed().and(AppEffect::Repaint),
    {
        let mut steps = no_steps();
        self.set_image(image);
        self.set_image_path(path);
        self.update_preview(&mut steps);
        self.save_settings(&mut steps);
        self.refresh_overlay(&mut steps);
        push_step(&mut steps, AppStep::Repaint);
        steps
    }

    /// Takes note that an image that a user chose could not be loaded.
    pub fn image_not_loaded(&mut self, error: &str)
        ensures
            final(self).wf() == old(self).wf(),
            final(self)@ == (AppState {
                status: Some("Could not load image: "@ + error@),
                ..old(self)@
            }),
    {
        self.set_status(Some(failure("Could not load image: ", error)));
    }

    fn apply_edits(
        &mut self,
        steps: &mut Vec<AppStep>,
        now: Duration,
        schedule_changed: bool,
        visual_changed: bool,
    )
        requires
            old(self)@.room_at(now@),
        ensures
            final(self).wf() == old(self).wf(),
            final(self).turn_after(final(steps)@) == edited(
                old(self).turn_after(old(steps)@),
                now@,
                schedule_changed,
                visual_changed,
            ),
    {
        if schedule_changed {
            self.reset_schedule(steps, now);
        }
        if visual_changed || schedule_changed {
            self.schedule_settings_save(steps, now);
        }
        if visual_changed {
            self.refresh_overlay(steps);
        }
    }

    /// Takes over settings that a user edited.
    pub fn settings_edited(
        &mut self,
        now: Duration,
        settings: Settings,
        selected: usize,
        schedule_changed: bool,
        visual_changed: bool,
    ) -> (steps: Vec<AppStep>)
        requires
            (AppState { choices: settings@, ..old(self)@ }).room_at(now@),
        ensures
            final(self).wf() == old(self).wf(),
            final(self).turn_after(steps@) == edited(
                (AppState {
                    choices: settings@,
                    selected: selected as int,
                    ..old(self)@
                }).turn(),
                now@,
                schedule_changed,
                visual_changed,
            ),
    {
        let mut steps = no_steps();
        self.set_settings(settings);
        self.set_selected(selected);
        self.apply_edits(&mut steps, now, schedule_changed, visual_changed);
        steps
    }

    /// Takes over a place for the overlay that a user chose.
    pub fn position_chosen(&mut self, now: Duration, position: NormalizedPosition) -> (steps: Vec<
        AppStep,
    >)
        requires
            old(self)@.room_at(now@),
        ensures
            final(self).wf() == old(self).wf(),
            final(self).turn_after(steps@) == old(self)@.turn().in_state(
                AppState {
                    choices: Choices { position, ..old(self)@.choices },
                    ..old(self)@
                },
            ).save_scheduled(now@).overlay_refreshed(),
    {
        let mut steps = no_steps();
        self.set_position(position);
        self.schedule_settings_save(&mut steps, now);
        self.refresh_overlay(&mut steps);
        steps
    }

    /// Puts settings of the system into effect, given whether starting at login could be
    /// changed as chosen.
    pub fn apply_system_settings(&mut self, login: Result<(), String>) -> (steps: Vec<AppStep>)
        ensures
            final(self).wf() == old(self).wf(),
            final(self).turn_after(steps@) == tray_refreshed(
                match login {
                    Ok(_) => old(self)@.turn(),
                    Err(error) => old(self)@.turn().in_state(
                        AppState {
                            choices: Choices { start_at_login: false, ..old(self)@.choices },
                            status: Some("Could not update start at login: "@ + error@),
                            ..old(self)@
                        },
                    ),
                },
            ).window_updated().saving().overlay_refreshed(),
    {
        let mut steps = no_steps();
        if let Err(error) = login {
            self.set_start_at_login(false);
            let message = failure("Could not update start at login: ", error.as_str());
            self.set_status(Some(message));
        }
        self.refresh_tray(&mut steps);
        self.update_root_visibility(&mut steps);
        self.save_settings(&mut steps);
        self.refresh_overlay(&mut steps);
        steps
    }

    /// Lets time pass: what the schedule wants at `now`.
    pub fn tick(&mut self, steps: &mut Vec<AppStep>, now: Duration)
        requires
            old(self)@.room_at(now@),
        ensures
            final(self).wf() == old(self).wf(),
            final(self).turn_after(final(steps)@) == old(self).turn_after(old(steps)@).scheduled(
                now@,
                old(self)@.schedule.ticked(now@),
            ),
    {
        let action = self.tick_schedule(now);
        self.apply_scheduler_action(steps, now, action);
    }

    /// Shows the frame of an animation that is due at `now`, and says how long it stays, if the
    /// image moves.
    pub fn update_animation(&mut self, steps: &mut Vec<AppStep>, now: Duration) -> (result: Option<
        Duration,
    >)
        requires
            old(self).wf(),
        ensures
            final(self).wf(),
            if old(self)@.schedule.shows() && old(self)@.frames.len() > 1 {
                &&& result is Some
                &&& frame_shown_at(
                    old(self)@.frames,
                    elapsed_since(now@, old(self)@.animation_started_at),
                    (final(self)@.frame, result->0@),
                )
                &&& final(self).turn_after(final(steps)@) == animated(
                    old(self).turn_after(old(steps)@),
                    final(self)@.frame,
                )
            } else {
                &&& result is None
                &&& final(self).turn_after(final(steps)@) == old(self).turn_after(old(steps)@)
            },
    {
        if !self.is_showing() || !self.image().is_animated() {
            return None;
        }
        let (index, rest) = self.due_frame(now);
        if index != self.frame() {
            self.set_animation_frame(steps, index);
            self.refresh_overlay(steps);
            proof {
                lemma_frame_set(old(self).turn_after(old(steps)@), index as int);
            }
        }
        Some(rest)
    }

    /// How long to wait at `now` before time passes again, given how long the shown frame stays.
    pub fn wake_after(&self, now: Duration, animation: Option<Duration>) -> (result: Option<
        Duration,
    >)
        ensures
            optional_span(result) == match earlier(
                match self@.schedule.deadline() {
                    Some(deadline) => Some(elapsed_since(deadline, now@)),
                    None => None,
                },
                optional_span(animation),
            ) {
                Some(wait) => Some(
                    if wait < 50_000_000 {
                        50_000_000nat
                    } else {
                        wait
                    },
                ),
                None => None,
            },
    {
        let wait = match (self.next_wake_in(now), animation) {
            (Some(schedule), Some(animation)) => schedule.shorter(animation),
            (Some(schedule), None) => schedule,
            (None, Some(animation)) => animation,
            (None, None) => return None,
        };
        Some(wait.longer(Duration::from_millis(SHORTEST_WAKE_MILLIS)))
    }
}

proof fn lemma_frame_set(turn: Turn, frame: int)
    ensures
        turn.frame_set(frame).overlay_refreshed().state.frame == frame,
{
    reveal(Turn::frame_set);
    reveal(Turn::overlay_refreshed);
}

/// The number with the same bits.
pub open spec fn signed(code: u32) -> i32 {
    if code < 0x8000_0000 {
        code as i32
    } else {
        (code - 0x1_0000_0000) as i32
    }
}

fn as_signed(code: u32) -> (result: i32)
    ensures
        result == signed(code),
{
    if code < 0x8000_0000 {
        code as i32
    } else {
        (code as i64 - 0x1_0000_0000) as i32
    }
}

} // verus!
