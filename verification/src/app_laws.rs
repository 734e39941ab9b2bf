//! Laws of the application: what holds of every state and across several commands.

use vstd::prelude::*;
use vstd::utf8::*;

use crate::app::{
    animated, close_asked, commanded, displays_updated, edited, matched, signed, tray_refreshed, Match,
};
use crate::app_state::{
    appended, display_ids, legacy_ids, reason_bit, AppEffect, AppState, Display, Platform,
    Turn, WindowCommand,
};
use crate::config::Choices;
use crate::ipc::{commands_round_trip, message, received, Received};
use crate::launch::{told, LaunchOptions};
use crate::linux_daemon::OverlayContents;
use crate::scheduler::{Phase, SchedulerAction};
use crate::{AppCommand, SystemPauseReason};

verus! {

/// Whether two states agree in everything but what is seen.
pub open spec fn same_but_for_looks(a: AppState, b: AppState) -> bool {
    &&& a.schedule == b.schedule
    &&& a.choices == b.choices
    &&& a.save_due_at == b.save_due_at
    &&& a.pause_mask == b.pause_mask
    &&& a.settings_open == b.settings_open
    &&& a.quitting == b.quitting
    &&& a.displays == b.displays
    &&& a.selected == b.selected
}

proof fn lemma_window_updated(turn: Turn)
    ensures
        same_but_for_looks(turn.window_updated().state, turn.state),
{
    reveal(Turn::window_updated);
}

proof fn lemma_frame_set(turn: Turn, frame: int)
    ensures
        same_but_for_looks(turn.frame_set(frame).state, turn.state),
{
    reveal(Turn::frame_set);
}

proof fn lemma_overlay_refreshed(turn: Turn)
    ensures
        turn.overlay_refreshed().state == turn.state,
{
    reveal(Turn::overlay_refreshed);
}

/// What the schedule wants done changes only what is seen.
proof fn lemma_acted(turn: Turn, now: nat, action: SchedulerAction)
    ensures
        same_but_for_looks(turn.acted(now, action).state, turn.state),
{
    reveal(Turn::acted);
    match action {
        SchedulerAction::Nothing => {},
        SchedulerAction::Show => {
            let started = turn.in_state(AppState { animation_started_at: now, ..turn.state });
            lemma_frame_set(started, 0);
            lemma_overlay_refreshed(started.frame_set(0));
            lemma_window_updated(started.frame_set(0).overlay_refreshed());
        },
        SchedulerAction::Hide => {
            lemma_window_updated(turn.and(AppEffect::CloseOverlayViewport));
            lemma_window_updated(turn.and(AppEffect::HideOverlay));
            lemma_window_updated(turn);
        },
    }
}

/// A break of the schedule begins with the first reason to pause; further reasons change nothing
/// but the list of reasons.
pub proof fn break_begins_with_the_first_reason(
    state: AppState,
    now: nat,
    reason: SystemPauseReason,
)
    ensures
        ({
            let turn = commanded(state, now, AppCommand::SystemPause(reason), seq![]);
            &&& turn.state.pause_mask == state.pause_mask | reason_bit(reason)
            &&& state.pause_mask == 0 ==> turn.state.schedule == state.schedule.paused(now).0
            &&& state.pause_mask != 0 ==> turn.state.schedule == state.schedule && turn.effects
                == Seq::<AppEffect>::empty()
        }),
{
    reveal(commanded);
    let paused = state.turn().in_state(
        AppState { pause_mask: state.pause_mask | reason_bit(reason), ..state },
    );
    lemma_acted(
        paused.in_state(AppState { schedule: state.schedule.paused(now).0, ..paused.state }),
        now,
        state.schedule.paused(now).1,
    );
}

/// Two reasons to pause do not disturb one another: after both came, in either order, and one
/// went, the break goes on for the other.
pub proof fn break_lasts_until_the_last_reason(
    state: AppState,
    now: nat,
    gone: SystemPauseReason,
    left: SystemPauseReason,
)
    requires
        gone != left,
        state.pause_mask == reason_bit(gone) | reason_bit(left),
    ensures
        ({
            let turn = commanded(state, now, AppCommand::SystemResume(gone), seq![]);
            let end = commanded(turn.state, now, AppCommand::SystemResume(left), seq![]);
            &&& turn.state == (AppState { pause_mask: reason_bit(left), ..state })
            &&& turn.effects == Seq::<AppEffect>::empty()
            &&& end.state.pause_mask == 0
            &&& end.state.schedule == state.schedule.resumed(now, state.choices.resume_policy)
        }),
{
    reveal(commanded);
    assert((1u8 | 2u8) & !1u8 == 2u8) by (bit_vector);
    assert((1u8 | 2u8) & !2u8 == 1u8) by (bit_vector);
    assert((2u8 | 1u8) & !1u8 == 2u8) by (bit_vector);
    assert((2u8 | 1u8) & !2u8 == 1u8) by (bit_vector);
    assert(1u8 & !1u8 == 0u8) by (bit_vector);
    assert(2u8 & !2u8 == 0u8) by (bit_vector);
    let turn = commanded(state, now, AppCommand::SystemResume(gone), seq![]);
    assert(turn.state == (AppState { pause_mask: reason_bit(left), ..state }));
    lemma_window_updated(
        turn.state.turn().in_state(
            AppState {
                pause_mask: 0,
                schedule: state.schedule.resumed(now, state.choices.resume_policy),
                ..turn.state
            },
        ),
    );
}

/// A message is added to what the status line said before, and nothing of that is lost.
pub proof fn status_keeps_what_it_said(status: Option<Seq<char>>, message: Seq<char>)
    ensures
        appended(status, message) matches Some(text) && (status matches Some(existing) ==> {
            &&& text.take(existing.len() as int) == existing
            &&& text.skip(text.len() - message.len()) == message
        }) && (status is None ==> text == message),
{
    if let Some(existing) = status {
        let text = appended(status, message)->0;
        assert(text.take(existing.len() as int) =~= existing);
        assert(text.skip(text.len() - message.len()) =~= message);
    }
}

/// Edits are saved when they have rested for half a second; every edit starts the rest anew.
pub proof fn edits_rest_before_they_are_saved(turn: Turn, first: nat, second: nat)
    ensures
        turn.save_scheduled(first).state.save_due_at == Some(first + 500_000_000),
        turn.save_scheduled(first).save_scheduled(second).state.save_due_at == Some(
            second + 500_000_000,
        ),
        turn.saving().state.save_due_at is None,
        turn.saving().effects == turn.effects.push(AppEffect::Save),
{
    reveal(Turn::saving);
}

/// Nothing that a user edited is lost on the way out: where edits wait, they are saved first.
pub proof fn quitting_saves_edits(state: AppState, now: nat)
    ensures
        ({
            let turn = commanded(state, now, AppCommand::Quit, seq![]);
            &&& turn.state.quitting
            &&& turn.state.save_due_at is None
            &&& turn.effects == if state.save_due_at is Some {
                seq![AppEffect::Save, AppEffect::Window(WindowCommand::Close)]
            } else {
                seq![AppEffect::Window(WindowCommand::Close)]
            }
        }),
{
    reveal(commanded);
    reveal(Turn::saving);
    let turn = commanded(state, now, AppCommand::Quit, seq![]);
    if state.save_due_at is Some {
        assert(turn.effects =~= seq![
            AppEffect::Save,
            AppEffect::Window(WindowCommand::Close),
        ]);
    } else {
        assert(turn.effects =~= seq![AppEffect::Window(WindowCommand::Close)]);
    }
}

/// The settings window is seen exactly while the settings are open, where the overlay is a window
/// of the system's own, and else also while the overlay is up.
pub proof fn window_is_seen_while_it_is_needed(turn: Turn)
    ensures
        turn.window_updated().state.root_visible == (turn.state.settings_open
            || !turn.state.platform.has_native_overlay() && turn.state.schedule.shows()),
{
    reveal(Turn::window_updated);
}

/// Turning reminders off and on again leaves them as they were, and every time the settings are
/// saved.
pub proof fn reminders_toggle_back(state: AppState, now: nat, later: nat)
    ensures
        ({
            let off = commanded(state, now, AppCommand::ToggleReminders, seq![]);
            let on = commanded(off.state, later, AppCommand::ToggleReminders, seq![]);
            &&& off.state.choices.reminders_enabled == !state.choices.reminders_enabled
            &&& on.state.choices.reminders_enabled == state.choices.reminders_enabled
            &&& off.effects.contains(AppEffect::Save)
        }),
{
    lemma_toggled(state, now);
    let off = commanded(state, now, AppCommand::ToggleReminders, seq![]);
    lemma_toggled(off.state, later);
}

proof fn lemma_toggled(state: AppState, now: nat)
    ensures
        ({
            let off = commanded(state, now, AppCommand::ToggleReminders, seq![]);
            &&& off.state.choices.reminders_enabled == !state.choices.reminders_enabled
            &&& off.effects.contains(AppEffect::Save)
        }),
{
    reveal(commanded);
    let enabled = !state.choices.reminders_enabled;
    let toggled = state.turn().in_state(
        AppState { choices: Choices { reminders_enabled: enabled, ..state.choices }, ..state },
    );
    let step = toggled.state.restarted(now);
    let reset = toggled.in_state(AppState { schedule: step.0, ..toggled.state });
    lemma_acted(reset, now, step.1);
    let acted = reset.acted(now, step.1);
    reveal(Turn::saving);
    let saved = acted.saving();
    assert(saved.effects[acted.effects.len() as int] == AppEffect::Save);
    let off = commanded(state, now, AppCommand::ToggleReminders, seq![]);
    assert(off.effects[acted.effects.len() as int] == AppEffect::Save);
}

proof fn lemma_window_sized(turn: Turn)
    ensures
        same_but_for_looks(turn.window_sized().state, turn.state),
        turn.window_sized().state.root_visible == turn.state.root_visible,
{
    reveal(Turn::window_sized);
}

proof fn lemma_saving(turn: Turn)
    ensures
        turn.saving().state == (AppState {
            choices: turn.saving().state.choices,
            save_due_at: None,
            ..turn.state
        }),
        turn.saving().state.choices == (Choices {
            display_id: match turn.state.selected_id() {
                Some(id) => Some(id),
                None => turn.state.choices.display_id,
            },
            ..turn.state.choices
        }),
        turn.saving().effects == turn.effects.push(AppEffect::Save),
{
    reveal(Turn::saving);
}

/// Closing the settings leaves the timer running. Edits that wait are saved first; on Linux a
/// process is then started to go on in the background, elsewhere the window is only hidden.
pub proof fn closing_leaves_the_timer_running(state: AppState)
    requires
        state.settings_open,
        !state.quitting,
    ensures
        ({
            let turn = close_asked(state);
            &&& turn.state.schedule == state.schedule
            &&& turn.state.pause_mask == state.pause_mask
            &&& !turn.state.quitting
            &&& turn.state.save_due_at is None
            &&& turn.effects[0] == AppEffect::Window(WindowCommand::CancelClose)
            &&& state.save_due_at is Some ==> turn.effects[1] == AppEffect::Save
            &&& state.platform == Platform::Linux ==> turn.effects.last()
                == AppEffect::SpawnBackground && turn.state.settings_open
            &&& state.platform != Platform::Linux ==> !turn.state.settings_open
        }),
{
    let told = state.turn().tell(WindowCommand::CancelClose);
    lemma_saving(told);
    let saved = told.saving_edits();
    let closed = saved.in_state(AppState { settings_open: false, ..saved.state });
    lemma_window_updated(closed);
    lemma_window_appends(closed);
}

/// What the window is told comes after what was to be done before.
proof fn lemma_window_appends(turn: Turn)
    ensures
        turn.window_updated().effects.len() >= turn.effects.len(),
        forall|i: int|
            0 <= i < turn.effects.len() ==> #[trigger] turn.window_updated().effects[i]
                == turn.effects[i],
{
    reveal(Turn::window_updated);
}

/// Launching the program again reaches the instance that runs: its settings come to the front, or
/// a reminder is shown at once unless the system is paused, and nothing else of it changes.
pub proof fn launching_again_reaches_the_running_instance(
    state: AppState,
    now: nat,
    options: LaunchOptions,
)
    requires
        !options.background,
    ensures
        received(encode_utf8(message(told(options)))) == Received::Command(told(options)),
        ({
            let turn = commanded(state, now, told(options), seq![]);
            &&& turn.state.choices == state.choices
            &&& turn.state.save_due_at == state.save_due_at
            &&& !options.show_now ==> {
                &&& turn.state.settings_open
                &&& turn.state.root_visible
                &&& turn.state.schedule == state.schedule
                &&& turn.effects.last() == AppEffect::Window(WindowCommand::Focus)
            }
            &&& options.show_now ==> {
                &&& turn.state.settings_open == state.settings_open
                &&& turn.state.schedule.shows() == !state.schedule.on_break()
                &&& state.schedule.on_break() ==> turn.state.schedule == state.schedule
            }
        }),
{
    reveal(commanded);
    commands_round_trip(told(options));
    if options.show_now {
        let (schedule, action) = state.schedule.shown_now(now);
        lemma_acted(
            state.turn().in_state(AppState { schedule, ..state }),
            now,
            action,
        );
    } else {
        let opened = state.turn().in_state(
            AppState { settings_open: true, ..state },
        ).preview_updated();
        lemma_window_updated(opened);
        window_is_seen_while_it_is_needed(opened);
        lemma_window_sized(opened.window_updated());
    }
}

/// When displays come and go, the selected one stays selected wherever it is now, and nothing is
/// saved. Its place and size are those that it has now, and a reminder that is up is shown there.
pub proof fn selection_follows_the_display(state: AppState, displays: Seq<Display>)
    requires
        0 <= state.selected < state.displays.len(),
        display_ids(displays).contains(state.displays[state.selected].id),
    ensures
        ({
            let turn = displays_updated(state, Ok(displays));
            &&& 0 <= turn.state.selected < displays.len()
            &&& turn.state.displays == displays
            &&& displays[turn.state.selected].id == state.displays[state.selected].id
            &&& turn.state.choices == state.choices
            &&& !turn.effects.contains(AppEffect::Save)
            &&& state.schedule.shows() && state.platform.has_native_overlay() && state.has_overlay
                ==> turn.effects == seq![
                AppEffect::ShowOverlay {
                    display: turn.state.selected,
                    contents: state.contents(),
                },
            ]
        }),
{
    let ids = display_ids(displays);
    let id = state.displays[state.selected].id;
    ids.index_of_first_ensures(id);
    let selected = ids.index_of_first(id)->0;
    assert(ids[selected] == displays[selected].id);
    let adopted = state.turn().in_state(AppState { displays, selected, ..state });
    lemma_overlay_refreshed(adopted);
    reveal(Turn::overlay_refreshed);
}

/// When the selected display is gone, the first one is selected, and the settings are saved with
/// its identifier.
pub proof fn lost_selection_moves_to_the_first_display(state: AppState, displays: Seq<Display>)
    requires
        0 <= state.selected < state.displays.len(),
        displays.len() > 0,
        !display_ids(displays).contains(state.displays[state.selected].id),
        !legacy_ids(displays).contains(state.displays[state.selected].id),
    ensures
        ({
            let turn = displays_updated(state, Ok(displays));
            &&& turn.state.selected == 0
            &&& turn.state.displays == displays
            &&& turn.state.choices == (Choices {
                display_id: Some(displays[0].id),
                ..state.choices
            })
            &&& turn.effects[0] == AppEffect::Save
        }),
{
    let id = state.displays[state.selected].id;
    display_ids(displays).index_of_first_ensures(id);
    legacy_ids(displays).index_of_first_ensures(id);
    let adopted = state.turn().in_state(AppState { displays, selected: 0, ..state });
    lemma_saving(adopted);
    reveal(Turn::overlay_refreshed);
}

/// Whether there is a window of the system's own for the overlay, and a display to show it on.
pub open spec fn overlay_has_a_place(state: AppState) -> bool {
    &&& state.platform == Platform::Windows || state.platform == Platform::Linux
    &&& state.has_overlay
    &&& state.selected < state.displays.len()
}

/// Showing a frame of the image on the selected display, as the settings want it.
pub open spec fn frame_in_place(state: AppState, frame: int) -> AppEffect {
    AppEffect::ShowOverlay {
        display: state.selected,
        contents: OverlayContents {
            frame: frame as usize,
            image_size: state.image_size,
            width_percent: state.choices.width_percent,
            opacity_percent: state.choices.opacity_percent,
            position: state.choices.position,
        },
    }
}

/// Where the overlay has a window of its own, that window is shown anew while a reminder is up, on
/// the selected display and as the settings want it. Elsewhere the application's own window is
/// drawn anew. While no reminder is up, nothing is done.
pub proof fn overlay_shows_what_is_chosen(turn: Turn)
    ensures
        turn.overlay_refreshed().state == turn.state,
        !(turn.state.schedule.phase is Showing) ==> turn.overlay_refreshed().effects
            == turn.effects,
        turn.state.schedule.phase is Showing && overlay_has_a_place(turn.state)
            ==> turn.overlay_refreshed().effects == turn.effects.push(
            frame_in_place(turn.state, turn.state.frame),
        ),
        turn.state.schedule.phase is Showing && turn.state.platform == Platform::Other
            ==> turn.overlay_refreshed().effects == turn.effects.push(AppEffect::Repaint),
        turn.state.platform != Platform::Other && !overlay_has_a_place(turn.state)
            ==> turn.overlay_refreshed().effects == turn.effects,
{
    reveal(Turn::overlay_refreshed);
}

/// Setting a frame changes nothing but the frame. The preview follows it, unless the settings are
/// closed and the overlay has a window of its own.
pub proof fn preview_follows_the_frame(turn: Turn, frame: int)
    ensures
        turn.frame_set(frame).state == (AppState { frame, ..turn.state }),
        frame == turn.state.frame ==> turn.frame_set(frame).effects == turn.effects,
        frame != turn.state.frame && (turn.state.settings_open || turn.state.platform
            == Platform::Other) ==> turn.frame_set(frame).effects == turn.effects.push(
            AppEffect::UpdatePreview { frame },
        ),
        !turn.state.settings_open && turn.state.platform != Platform::Other ==> turn.frame_set(
            frame,
        ).effects == turn.effects,
{
    reveal(Turn::frame_set);
}

/// As an animation goes on, the overlay shows the frame that is due, and nothing is done while
/// that frame is shown already.
pub proof fn animation_goes_on(turn: Turn, frame: int)
    ensures
        animated(turn, frame).state == (AppState { frame, ..turn.state }),
        frame == turn.state.frame ==> animated(turn, frame).effects == turn.effects,
        frame != turn.state.frame && turn.state.schedule.phase is Showing && overlay_has_a_place(
            turn.state,
        ) ==> animated(turn, frame).effects.last() == frame_in_place(turn.state, frame),
        frame != turn.state.frame && turn.state.schedule.phase is Showing && turn.state.platform
            == Platform::Other ==> animated(turn, frame).effects.last() == AppEffect::Repaint,
{
    preview_follows_the_frame(turn, frame);
    overlay_shows_what_is_chosen(turn.frame_set(frame));
}

/// A reminder that comes up starts its animation anew: the overlay shows the first frame.
pub proof fn reminder_comes_up_with_its_first_frame(turn: Turn, now: nat)
    requires
        turn.state.schedule.phase is Showing,
    ensures
        ({
            let shown = turn.acted(now, SchedulerAction::Show);
            &&& shown.state.animation_started_at == now
            &&& shown.state.frame == 0
            &&& same_but_for_looks(shown.state, turn.state)
            &&& overlay_has_a_place(turn.state) ==> shown.effects.contains(
                frame_in_place(turn.state, 0),
            )
            &&& turn.state.platform == Platform::Other ==> shown.effects.contains(
                AppEffect::Repaint,
            )
            &&& turn.state.settings_open && turn.state.frame != 0 ==> shown.effects.contains(
                AppEffect::UpdatePreview { frame: 0 },
            )
        }),
{
    lemma_acted(turn, now, SchedulerAction::Show);
    reveal(Turn::acted);
    let started = turn.in_state(AppState { animation_started_at: now, ..turn.state });
    preview_follows_the_frame(started, 0);
    let framed = started.frame_set(0);
    overlay_shows_what_is_chosen(framed);
    let refreshed = framed.overlay_refreshed();
    lemma_window_appends(refreshed);
    lemma_window_keeps_the_frame(refreshed);
    let shown = refreshed.window_updated();
    if overlay_has_a_place(turn.state) || turn.state.platform == Platform::Other {
        assert(refreshed.effects[framed.effects.len() as int] == refreshed.effects.last());
        assert(shown.effects[framed.effects.len() as int] == refreshed.effects.last());
    }
    if turn.state.settings_open && turn.state.frame != 0 {
        assert(framed.effects[turn.effects.len() as int] == framed.effects.last());
        assert(refreshed.effects[turn.effects.len() as int] == framed.effects.last());
        assert(shown.effects[turn.effects.len() as int] == framed.effects.last());
    }
}

proof fn lemma_window_keeps_the_frame(turn: Turn)
    ensures
        turn.window_updated().state.frame == turn.state.frame,
        turn.window_updated().state.animation_started_at == turn.state.animation_started_at,
{
    reveal(Turn::window_updated);
}

/// A reminder that goes away takes its overlay with it, and its animation stays where it was. What
/// asks for nothing does nothing.
pub proof fn reminder_goes_away_with_its_overlay(turn: Turn, now: nat)
    ensures
        turn.acted(now, SchedulerAction::Nothing) == turn,
        ({
            let hidden = turn.acted(now, SchedulerAction::Hide);
            &&& hidden.state.frame == turn.state.frame
            &&& hidden.state.animation_started_at == turn.state.animation_started_at
            &&& same_but_for_looks(hidden.state, turn.state)
            &&& turn.state.platform == Platform::Other ==> hidden.effects[turn.effects.len() as int]
                == AppEffect::CloseOverlayViewport
            &&& turn.state.platform != Platform::Other && turn.state.has_overlay
                ==> hidden.effects[turn.effects.len() as int] == AppEffect::HideOverlay
        }),
{
    lemma_acted(turn, now, SchedulerAction::Hide);
    reveal(Turn::acted);
    lemma_window_appends(turn.and(AppEffect::CloseOverlayViewport));
    lemma_window_appends(turn.and(AppEffect::HideOverlay));
    lemma_window_keeps_the_frame(turn.and(AppEffect::CloseOverlayViewport));
    lemma_window_keeps_the_frame(turn.and(AppEffect::HideOverlay));
    lemma_window_keeps_the_frame(turn);
}

/// The window is told to appear or to disappear when that changes, and only then. Where the
/// overlay has a window of its own, nothing else is told.
pub proof fn window_is_told_what_changes(turn: Turn)
    ensures
        ({
            let told = turn.window_updated();
            &&& told.state.root_visible != turn.state.root_visible ==> told.effects.last()
                == AppEffect::Window(WindowCommand::Visible(told.state.root_visible))
                && told.effects.len() > turn.effects.len()
            &&& turn.state.platform != Platform::Other ==> told.state == (AppState {
                root_visible: turn.state.settings_open,
                ..turn.state
            })
            &&& turn.state.platform != Platform::Other && turn.state.root_visible
                == turn.state.settings_open ==> told == turn
            &&& turn.state.platform != Platform::Other && turn.state.root_visible
                != turn.state.settings_open ==> told.effects == turn.effects.push(
                AppEffect::Window(WindowCommand::Visible(turn.state.settings_open)),
            )
        }),
{
    reveal(Turn::window_updated);
}

/// Where the overlay is drawn by the application's own window, that window becomes small, bare and
/// out of the way while a reminder is up and the settings are closed, and becomes the settings
/// again once they are open.
pub proof fn window_makes_room_for_the_overlay(turn: Turn)
    requires
        turn.state.platform == Platform::Other,
    ensures
        turn.state.settings_open ==> !turn.window_updated().state.controller_mode,
        !turn.state.settings_open && turn.state.schedule.phase is Showing
            ==> turn.window_updated().state.controller_mode,
        !turn.state.settings_open && !(turn.state.schedule.phase is Showing)
            ==> turn.window_updated().state.controller_mode == turn.state.controller_mode,
        !turn.state.controller_mode && turn.window_updated().state.controller_mode ==> {
            let told = turn.window_updated().effects.skip(turn.effects.len() as int);
            &&& told.len() >= 6
            &&& told[0] == AppEffect::Window(WindowCommand::Fullscreen(false))
            &&& told[1] == AppEffect::Window(WindowCommand::Decorations(false))
            &&& told[2] == AppEffect::Window(WindowCommand::MousePassthrough(true))
            &&& told[3] == AppEffect::Window(WindowCommand::NormalLevel)
            &&& told[4] == AppEffect::Window(WindowCommand::ControllerSize)
            &&& told[5] == AppEffect::Window(WindowCommand::OffscreenPosition)
        },
        turn.state.controller_mode && !turn.window_updated().state.controller_mode ==> {
            let told = turn.window_updated().effects.skip(turn.effects.len() as int);
            &&& told.len() >= 7
            &&& told[0] == AppEffect::Window(WindowCommand::Fullscreen(false))
            &&& told[1] == AppEffect::Window(WindowCommand::Decorations(true))
            &&& told[2] == AppEffect::Window(WindowCommand::MousePassthrough(false))
            &&& told[3] == AppEffect::Window(WindowCommand::NormalLevel)
            &&& told[4] == AppEffect::Window(WindowCommand::SettingsSize)
            &&& told[5] == AppEffect::Window(WindowCommand::SettingsPosition)
            &&& told[6] == AppEffect::Window(WindowCommand::Focus)
        },
        turn.state.controller_mode == turn.window_updated().state.controller_mode
            ==> turn.window_updated().effects.len() <= turn.effects.len() + 1,
{
    reveal(Turn::window_updated);
}

/// The settings get their size when they are open for the first time, and never again.
pub proof fn settings_get_their_size_once(turn: Turn)
    ensures
        turn.window_sized().window_sized() == turn.window_sized(),
        turn.window_sized().state.settings_sized == (turn.state.settings_sized
            || turn.state.settings_open),
        turn.window_sized().state == (AppState {
            settings_sized: turn.window_sized().state.settings_sized,
            ..turn.state
        }),
        turn.state.settings_sized || !turn.state.settings_open ==> turn.window_sized().effects
            == turn.effects,
        !turn.state.settings_sized && turn.state.settings_open ==> turn.window_sized().effects
            == turn.effects + seq![
            AppEffect::Window(WindowCommand::Fullscreen(false)),
            AppEffect::Window(WindowCommand::Decorations(true)),
            AppEffect::Window(WindowCommand::MousePassthrough(false)),
            AppEffect::Window(WindowCommand::NormalLevel),
            AppEffect::Window(WindowCommand::SettingsSize),
        ],
{
    reveal(Turn::window_sized);
}

/// The settings are saved with the display that is selected; where none is, they keep the one that
/// they name. Nothing else of them changes.
pub proof fn settings_are_saved_with_the_selected_display(turn: Turn)
    requires
        turn.state.selected >= 0,
    ensures
        turn.saving().effects == turn.effects.push(AppEffect::Save),
        turn.saving().state == (AppState {
            save_due_at: None,
            choices: Choices {
                display_id: if turn.state.selected < turn.state.displays.len() {
                    Some(turn.state.displays[turn.state.selected].id)
                } else {
                    turn.state.choices.display_id
                },
                ..turn.state.choices
            },
            ..turn.state
        }),
        turn.state.save_due_at is None ==> turn.saving_edits() == turn,
        turn.state.save_due_at is Some ==> turn.saving_edits() == turn.saving(),
{
    lemma_saving(turn);
}

/// A schedule that starts over waits for a whole interval of minutes, as the settings want it, and
/// takes down a reminder that is up.
pub proof fn schedule_starts_over(state: AppState, now: nat)
    ensures
        ({
            let (schedule, action) = state.restarted(now);
            &&& schedule.interval == state.choices.interval_minutes * 60_000_000_000
            &&& schedule.duration == state.choices.duration_seconds * 1_000_000_000
            &&& state.choices.reminders_enabled ==> schedule.phase == (Phase::Waiting {
                due_at: (now + state.choices.interval_minutes * 60_000_000_000) as nat,
            })
            &&& !state.choices.reminders_enabled ==> schedule.phase == Phase::Disabled
            &&& state.schedule.phase is Showing ==> action == SchedulerAction::Hide
            &&& !(state.schedule.phase is Showing) ==> action == SchedulerAction::Nothing
        }),
{
}

/// Edits take effect at once and are saved half a second later. Where they change the schedule, it
/// starts over; where they change what is seen, a reminder that is up shows it.
pub proof fn edits_take_effect(turn: Turn, now: nat, schedule_changed: bool, visual_changed: bool)
    ensures
        ({
            let done = edited(turn, now, schedule_changed, visual_changed);
            &&& done.state.choices == turn.state.choices
            &&& done.state.selected == turn.state.selected
            &&& schedule_changed ==> done.state.schedule == turn.state.restarted(now).0
            &&& !schedule_changed ==> done.state.schedule == turn.state.schedule
            &&& schedule_changed || visual_changed ==> done.state.save_due_at == Some(
                now + 500_000_000,
            ) && done.effects.contains(AppEffect::RepaintAfter(500_000_000))
            &&& !schedule_changed && !visual_changed ==> done == turn
            &&& !schedule_changed && visual_changed && turn.state.schedule.phase is Showing
                && overlay_has_a_place(turn.state) ==> done.effects.last() == frame_in_place(
                turn.state,
                turn.state.frame,
            )
            &&& schedule_changed && turn.state.schedule.phase is Showing && turn.state.platform
                != Platform::Other && turn.state.has_overlay
                ==> done.effects[turn.effects.len() as int] == AppEffect::HideOverlay
        }),
{
    let (schedule, action) = turn.state.restarted(now);
    let reset = turn.in_state(AppState { schedule, ..turn.state });
    lemma_acted(reset, now, action);
    reminder_goes_away_with_its_overlay(reset, now);
    let scheduled = if schedule_changed {
        reset.acted(now, action)
    } else {
        turn
    };
    let saved = scheduled.save_scheduled(now);
    assert(saved.effects[scheduled.effects.len() as int] == AppEffect::RepaintAfter(500_000_000));
    overlay_shows_what_is_chosen(saved);
    let refreshed = saved.overlay_refreshed();
    if schedule_changed || visual_changed {
        assert(saved.effects.contains(AppEffect::RepaintAfter(500_000_000)));
        assert(refreshed.effects[scheduled.effects.len() as int] == AppEffect::RepaintAfter(
            500_000_000,
        ));
    }
    if schedule_changed && turn.state.schedule.phase is Showing && turn.state.platform
        != Platform::Other && turn.state.has_overlay {
        lemma_window_appends(reset.and(AppEffect::HideOverlay));
        reveal(Turn::acted);
        assert(scheduled.effects.len() > turn.effects.len());
    }
}

/// The tray icon of Windows comes and goes with the setting; other systems have none.
pub proof fn tray_icon_follows_the_setting(turn: Turn)
    ensures
        turn.state.platform != Platform::Windows ==> tray_refreshed(turn) == turn,
        turn.state.platform == Platform::Windows && turn.state.choices.show_tray_icon ==> {
            &&& tray_refreshed(turn).state == turn.state
            &&& tray_refreshed(turn).effects == if turn.state.has_tray {
                turn.effects
            } else {
                turn.effects.push(AppEffect::CreateTray(turn.state.choices.reminders_enabled))
            }
        },
        turn.state.platform == Platform::Windows && !turn.state.choices.show_tray_icon ==> {
            &&& tray_refreshed(turn).state == (AppState { has_tray: false, ..turn.state })
            &&& tray_refreshed(turn).effects == turn.effects.push(AppEffect::RemoveTray)
        },
{
    reveal(tray_refreshed);
}

/// Opening the settings shows the current frame in the preview and brings their window to the
/// front, whether it was there before or not.
pub proof fn settings_open_on_request(state: AppState, now: nat)
    ensures
        ({
            let turn = commanded(state, now, AppCommand::OpenSettings, seq![]);
            &&& turn.state.settings_open
            &&& turn.state.settings_sized
            &&& turn.state.root_visible
            &&& turn.state.schedule == state.schedule
            &&& turn.state.choices == state.choices
            &&& turn.state.frame == state.frame
            &&& turn.effects[0] == AppEffect::UpdatePreview { frame: state.frame }
            &&& turn.effects.last() == AppEffect::Window(WindowCommand::Focus)
            &&& state.platform != Platform::Other && !state.root_visible ==> turn.effects[1]
                == AppEffect::Window(WindowCommand::Visible(true))
            &&& state.platform != Platform::Other && state.root_visible && state.settings_sized
                ==> turn.effects.len() == 2
        }),
{
    reveal(commanded);
    let opened = state.turn().in_state(AppState { settings_open: true, ..state });
    let previewed = opened.preview_updated();
    lemma_window_updated(previewed);
    lemma_window_appends(previewed);
    lemma_window_keeps_the_frame(previewed);
    window_is_seen_while_it_is_needed(previewed);
    window_is_told_what_changes(previewed);
    let updated = previewed.window_updated();
    settings_get_their_size_once(updated);
    assert(updated.effects[0] == previewed.effects[0]);
}

/// Going to the background starts a process that takes over on Linux; elsewhere the settings
/// close, and their window disappears where the overlay has a window of its own.
pub proof fn background_takes_over(state: AppState, now: nat)
    ensures
        ({
            let turn = commanded(state, now, AppCommand::RunInBackground, seq![]);
            &&& state.platform == Platform::Linux ==> turn.state == state && turn.effects == seq![
                AppEffect::SpawnBackground,
            ]
            &&& state.platform != Platform::Linux ==> !turn.state.settings_open
                && turn.state.schedule == state.schedule && turn.state.choices == state.choices
            &&& state.platform == Platform::Windows ==> !turn.state.root_visible && turn.effects
                == if state.root_visible {
                seq![AppEffect::Window(WindowCommand::Visible(false))]
            } else {
                seq![]
            }
        }),
{
    reveal(commanded);
    let closed = state.turn().in_state(AppState { settings_open: false, ..state });
    lemma_window_updated(closed);
    window_is_told_what_changes(closed);
    if state.platform == Platform::Windows && state.root_visible {
        assert(closed.window_updated().effects =~= seq![
            AppEffect::Window(WindowCommand::Visible(false)),
        ]);
    }
}

/// A reminder that is asked for is shown at once, and the settings stay as they are. During a
/// break of the schedule nothing happens.
pub proof fn reminder_shows_on_request(state: AppState, now: nat)
    ensures
        ({
            let turn = commanded(state, now, AppCommand::ShowNow, seq![]);
            &&& turn.state.choices == state.choices
            &&& turn.state.settings_open == state.settings_open
            &&& state.schedule.phase is OnBreak ==> turn.state == state && turn.effects.len() == 0
            &&& !(state.schedule.phase is OnBreak) ==> {
                &&& turn.state.schedule.phase is Showing
                &&& turn.state.schedule.phase->hide_at == now + state.schedule.duration
                &&& turn.state.frame == 0
                &&& turn.state.animation_started_at == now
                &&& overlay_has_a_place(state) ==> turn.effects.contains(frame_in_place(state, 0))
                &&& state.platform == Platform::Other ==> turn.effects.contains(
                    AppEffect::Repaint,
                ) && turn.state.root_visible
            }
        }),
{
    reveal(commanded);
    let (schedule, action) = state.schedule.shown_now(now);
    let stepped = state.turn().in_state(AppState { schedule, ..state });
    lemma_acted(stepped, now, action);
    if state.schedule.phase is OnBreak {
        reminder_goes_away_with_its_overlay(stepped, now);
    } else {
        reminder_comes_up_with_its_first_frame(stepped, now);
        if state.platform == Platform::Other {
            lemma_shown_is_seen(stepped, now);
        }
    }
}

proof fn lemma_shown_is_seen(turn: Turn, now: nat)
    requires
        turn.state.schedule.phase is Showing,
        turn.state.platform == Platform::Other,
    ensures
        turn.acted(now, SchedulerAction::Show).state.root_visible,
{
    reveal(Turn::acted);
    let started = turn.in_state(AppState { animation_started_at: now, ..turn.state });
    preview_follows_the_frame(started, 0);
    overlay_shows_what_is_chosen(started.frame_set(0));
    window_is_seen_while_it_is_needed(started.frame_set(0).overlay_refreshed());
}

/// As time passes, a reminder comes up when its interval is over and goes away when it has been up
/// for its time; until then nothing happens.
pub proof fn reminders_come_and_go_in_time(state: AppState, now: nat)
    ensures
        ({
            let turn = state.turn().scheduled(now, state.schedule.ticked(now));
            &&& turn.state.choices == state.choices
            &&& state.schedule.phase matches Phase::Waiting { due_at } ==> {
                &&& now < due_at ==> turn.state == state && turn.effects.len() == 0
                &&& now >= due_at ==> {
                    &&& turn.state.schedule.phase == (Phase::Showing {
                        hide_at: now + state.schedule.duration,
                        resume_enabled: true,
                    })
                    &&& overlay_has_a_place(state) ==> turn.effects.contains(
                        frame_in_place(state, 0),
                    )
                }
            }
            &&& state.schedule.phase matches Phase::Showing { hide_at, resume_enabled } ==> {
                &&& now < hide_at ==> turn.state == state && turn.effects.len() == 0
                &&& now >= hide_at ==> {
                    &&& turn.state.schedule.phase == if resume_enabled {
                        Phase::Waiting { due_at: now + state.schedule.interval }
                    } else {
                        Phase::Disabled
                    }
                    &&& overlay_has_a_place(state) ==> turn.effects[0] == AppEffect::HideOverlay
                    &&& state.platform == Platform::Other ==> turn.effects[0]
                        == AppEffect::CloseOverlayViewport
                }
            }
            &&& state.schedule.phase is Disabled || state.schedule.phase is OnBreak ==> turn.state
                == state && turn.effects.len() == 0
        }),
{
    let (schedule, action) = state.schedule.ticked(now);
    let stepped = state.turn().in_state(AppState { schedule, ..state });
    lemma_acted(stepped, now, action);
    reminder_goes_away_with_its_overlay(stepped, now);
    if schedule.phase is Showing {
        reminder_comes_up_with_its_first_frame(stepped, now);
    }
}

/// Turning reminders on or off starts the schedule over, keeps all other settings, and is checked
/// in the tray of Windows.
pub proof fn toggled_reminders_start_over(state: AppState, now: nat)
    ensures
        ({
            let turn = commanded(state, now, AppCommand::ToggleReminders, seq![]);
            let enabled = !state.choices.reminders_enabled;
            &&& turn.state.choices == (Choices {
                reminders_enabled: enabled,
                display_id: turn.state.choices.display_id,
                ..state.choices
            })
            &&& turn.state.save_due_at is None
            &&& enabled ==> turn.state.schedule.phase == (Phase::Waiting {
                due_at: (now + state.choices.interval_minutes * 60_000_000_000) as nat,
            })
            &&& !enabled ==> turn.state.schedule.phase == Phase::Disabled
            &&& state.schedule.phase is Showing && state.platform != Platform::Other
                && state.has_overlay ==> turn.effects[0] == AppEffect::HideOverlay
            &&& state.platform == Platform::Windows && state.has_tray ==> turn.effects.last()
                == AppEffect::CheckTrayItem(enabled)
            &&& !(state.platform == Platform::Windows && state.has_tray) ==> turn.effects.last()
                == AppEffect::Save
        }),
{
    reveal(commanded);
    let enabled = !state.choices.reminders_enabled;
    let toggled = state.turn().in_state(
        AppState { choices: Choices { reminders_enabled: enabled, ..state.choices }, ..state },
    );
    let (schedule, action) = toggled.state.restarted(now);
    let reset = toggled.in_state(AppState { schedule, ..toggled.state });
    lemma_acted(reset, now, action);
    reminder_goes_away_with_its_overlay(reset, now);
    let acted = reset.acted(now, action);
    lemma_saving(acted);
    if action == SchedulerAction::Hide && state.platform != Platform::Other && state.has_overlay {
        lemma_window_appends(reset.and(AppEffect::HideOverlay));
        reveal(Turn::acted);
        assert(acted.effects.len() > 0);
    }
}

/// When the displays may have changed, they are asked for where there is something to show on
/// them, and nothing else happens until they are known.
pub proof fn displays_are_asked_for(state: AppState, now: nat)
    ensures
        ({
            let turn = commanded(state, now, AppCommand::DisplayTopologyChanged, seq![]);
            &&& turn.state == state
            &&& turn.effects == if state.platform == Platform::Windows || state.platform
                == Platform::Linux && state.has_overlay {
                seq![AppEffect::EnumerateDisplays]
            } else {
                seq![]
            }
        }),
{
    reveal(commanded);
    let turn = commanded(state, now, AppCommand::DisplayTopologyChanged, seq![]);
    assert(turn.effects =~= if state.platform == Platform::Windows || state.platform
        == Platform::Linux && state.has_overlay {
        seq![AppEffect::EnumerateDisplays]
    } else {
        seq![]
    });
}

/// What is heard of the session's events changes nothing but what is said of them; once they are
/// followed, nothing is said.
pub proof fn session_events_are_spoken_of(state: AppState, now: nat, code: u32, text: Seq<char>)
    ensures
        ({
            let delayed = commanded(state, now, AppCommand::SessionNotificationsDelayed, text);
            let ready = commanded(state, now, AppCommand::SessionNotificationsReady, text);
            let lost = commanded(
                state,
                now,
                AppCommand::SessionNotificationsUnavailable(code),
                text,
            );
            &&& delayed.effects.len() == 0 && ready.effects.len() == 0 && lost.effects.len() == 0
            &&& delayed.state == (AppState {
                session_status: Some("Waiting for Windows lock and unlock notifications..."@),
                ..state
            })
            &&& ready.state == (AppState { session_status: None, ..state })
            &&& lost.state.session_status is Some
            &&& lost.state == (AppState { session_status: lost.state.session_status, ..state })
            &&& lost.state.session_status->0.len() == 43 + text.len()
            &&& lost.state.session_status->0.skip(43) == text
        }),
{
    reveal(commanded);
    reveal_strlit("Lock and unlock monitoring is unavailable: ");
    assert(("Lock and unlock monitoring is unavailable: "@ + text).skip(43) =~= text);
}

/// A pause takes a reminder down with its overlay.
pub proof fn pause_takes_the_reminder_down(
    state: AppState,
    now: nat,
    reason: SystemPauseReason,
)
    requires
        state.pause_mask == 0,
    ensures
        ({
            let turn = commanded(state, now, AppCommand::SystemPause(reason), seq![]);
            &&& !(turn.state.schedule.phase is Showing)
            &&& turn.state.choices == state.choices
            &&& turn.state.pause_mask == (if reason == SystemPauseReason::Power {
                1u8
            } else {
                2u8
            })
            &&& state.schedule.phase is Showing && overlay_has_a_place(state) ==> turn.effects[0]
                == AppEffect::HideOverlay
            &&& state.schedule.phase is Showing && state.platform == Platform::Other
                ==> turn.effects[0] == AppEffect::CloseOverlayViewport
            &&& !(state.schedule.phase is Showing) ==> turn.effects.len() == 0
        }),
{
    reveal(commanded);
    assert(0u8 | 1u8 == 1u8) by (bit_vector);
    assert(0u8 | 2u8 == 2u8) by (bit_vector);
    let paused = state.turn().in_state(
        AppState { pause_mask: state.pause_mask | reason_bit(reason), ..state },
    );
    let (schedule, action) = state.schedule.paused(now);
    let stepped = paused.in_state(AppState { schedule, ..paused.state });
    lemma_acted(stepped, now, action);
    reminder_goes_away_with_its_overlay(stepped, now);
}

/// The reasons to pause are kept apart: each has a bit of its own.
pub proof fn reasons_have_bits_of_their_own(reason: SystemPauseReason, other: SystemPauseReason)
    requires
        reason != other,
    ensures
        reason_bit(SystemPauseReason::Power) == 1,
        reason_bit(SystemPauseReason::Session) == 2,
        reason_bit(reason) & reason_bit(other) == 0,
{
    assert(1u8 & 2u8 == 0u8) by (bit_vector);
    assert(2u8 & 1u8 == 0u8) by (bit_vector);
}

/// Closing a window whose settings are closed already, or while the application quits, is left to
/// the system.
pub proof fn closing_twice_is_left_to_the_system(state: AppState)
    requires
        !state.settings_open || state.quitting,
    ensures
        close_asked(state).state == state,
        close_asked(state).effects.len() == 0,
{
}

/// Quitting closes the window, and nothing of the state changes but that the application quits.
pub proof fn quitting_closes_the_window(turn: Turn)
    ensures
        turn.quit().state == (AppState { quitting: true, ..turn.state }),
        turn.quit().effects == turn.effects.push(AppEffect::Window(WindowCommand::Close)),
{
}

/// A display is found by its identifier first, and the first one with it counts; on Windows it is
/// found by its earlier identifier else. Where it is found by neither, or where none was chosen,
/// the first display stands in.
pub proof fn displays_are_found_by_their_identifiers(
    platform: Platform,
    displays: Seq<Display>,
    id: Seq<char>,
)
    ensures
        matched(platform, displays, None) == (0int, Match::Unspecified),
        ({
            let (index, how) = matched(platform, displays, Some(id));
            &&& how == Match::Exact <==> exists|i: int|
                0 <= i < displays.len() && #[trigger] displays[i].id == id
            &&& how == Match::Exact ==> 0 <= index < displays.len() && displays[index].id == id
                && forall|i: int| 0 <= i < index ==> #[trigger] displays[i].id != id
            &&& how == Match::Legacy <==> platform == Platform::Windows && how != Match::Exact
                && exists|i: int| 0 <= i < displays.len() && #[trigger] displays[i].legacy_id == id
            &&& how == Match::Legacy ==> 0 <= index < displays.len() && displays[index].legacy_id
                == id && forall|i: int| 0 <= i < index ==> #[trigger] displays[i].legacy_id != id
            &&& how != Match::Unspecified
            &&& how == Match::Missing ==> index == 0
        }),
{
    let ids = display_ids(displays);
    let earlier = legacy_ids(displays);
    ids.index_of_first_ensures(id);
    earlier.index_of_first_ensures(id);
    assert forall|i: int| 0 <= i < displays.len() implies #[trigger] displays[i].id == ids[i] by {}
    assert forall|i: int| 0 <= i < displays.len() implies #[trigger] displays[i].legacy_id
        == earlier[i] by {}
    if exists|i: int| 0 <= i < displays.len() && #[trigger] displays[i].id == id {
        let i = choose|i: int| 0 <= i < displays.len() && #[trigger] displays[i].id == id;
        assert(ids[i] == id);
        assert(ids.contains(id));
    } else {
        if ids.contains(id) {
            let i = choose|i: int| 0 <= i < ids.len() && ids[i] == id;
            assert(displays[i].id == id);
        }
    }
    if exists|i: int| 0 <= i < displays.len() && #[trigger] displays[i].legacy_id == id {
        let i = choose|i: int| 0 <= i < displays.len() && #[trigger] displays[i].legacy_id == id;
        assert(earlier[i] == id);
        assert(earlier.contains(id));
    } else {
        if earlier.contains(id) {
            let i = choose|i: int| 0 <= i < earlier.len() && earlier[i] == id;
            assert(displays[i].legacy_id == id);
        }
    }
}

/// Displays that cannot be asked for, or outputs of which there are none, leave everything as it
/// was but for what is said of them.
pub proof fn unknown_displays_change_nothing(state: AppState, error: Seq<char>)
    ensures
        ({
            let failed = displays_updated(state, Err(error));
            &&& failed.effects.len() == 0
            &&& failed.state == (AppState { status: failed.state.status, ..state })
            &&& failed.state.status is Some
            &&& failed.state.status->0.len() >= error.len()
            &&& failed.state.status->0.skip(failed.state.status->0.len() - error.len()) == error
        }),
        state.platform != Platform::Windows ==> {
            let none = displays_updated(state, Ok(seq![]));
            &&& none.effects.len() == 0
            &&& none.state == (AppState { status: none.state.status, ..state })
            &&& none.state.status == appended(
                state.status,
                "Wayland compositor reported no outputs"@,
            )
        },
{
    let failed = displays_updated(state, Err(error));
    let said = (if state.platform == Platform::Windows {
        "Could not refresh displays: "@
    } else {
        "Could not refresh Wayland outputs: "@
    }) + error;
    assert(failed.state.status == appended(state.status, said));
    status_keeps_what_it_said(state.status, said);
    let text = failed.state.status->0;
    assert(text.skip(text.len() - error.len()) =~= error) by {
        assert(said.skip(said.len() - error.len()) =~= error);
        assert(text.skip(text.len() - said.len()) == said);
        assert(text.skip(text.len() - error.len()) =~= text.skip(text.len() - said.len()).skip(
            said.len() - error.len(),
        ));
    }
}

/// On Windows, a display that is selected by an identifier of earlier days stays selected, and the
/// settings are saved with its present identifier.
pub proof fn earlier_identifiers_are_replaced(state: AppState, displays: Seq<Display>, found: int)
    requires
        state.platform == Platform::Windows,
        0 <= state.selected < state.displays.len(),
        !display_ids(displays).contains(state.displays[state.selected].id),
        0 <= found < displays.len(),
        displays[found].legacy_id == state.displays[state.selected].id,
        forall|i: int|
            0 <= i < found ==> #[trigger] displays[i].legacy_id != displays[found].legacy_id,
    ensures
        ({
            let turn = displays_updated(state, Ok(displays));
            &&& turn.state.selected == found
            &&& turn.state.displays == displays
            &&& turn.state.choices == (Choices {
                display_id: Some(displays[found].id),
                ..state.choices
            })
            &&& turn.effects[0] == AppEffect::Save
            &&& forall|i: int|
                0 <= i < turn.effects.len() ==> !(#[trigger] turn.effects[i] is AppendStatus)
        }),
{
    let id = state.displays[state.selected].id;
    displays_are_found_by_their_identifiers(state.platform, displays, id);
    assert forall|i: int| 0 <= i < displays.len() implies #[trigger] displays[i].id != id by {
        assert(display_ids(displays)[i] == displays[i].id);
    }
    let (index, how) = matched(state.platform, displays, Some(id));
    assert(how == Match::Legacy);
    assert(index == found);
    let adopted = state.turn().in_state(AppState { displays, selected: found, ..state });
    lemma_saving(adopted);
    overlay_shows_what_is_chosen(adopted.saving());
}

/// A code of the system is read as a signed number with the same bits.
pub proof fn codes_are_read_as_signed_numbers(code: u32)
    ensures
        code < 0x8000_0000 ==> signed(code) == code,
        code >= 0x8000_0000 ==> signed(code) == code - 0x1_0000_0000,
{
}

} // verus!
