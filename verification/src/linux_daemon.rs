//! The reminder without a window: what the background process on Linux does.
//!
//! The daemon decides; whoever runs it performs the steps of each plan in their order, stops at
//! the first that fails, and reports back what the outputs are.

use vstd::prelude::*;
use vstd::string::*;

use crate::config::{Choices, NormalizedPosition, Settings};
use crate::image_asset::{frame_shown_at, DecodedImage};
use crate::linux_wayland::NativeDisplay;
use crate::scheduler::{ReminderScheduler, Schedule, SchedulerAction};
use crate::time::{Duration, MAX_NANOS, NANOS_PER_SEC};
use crate::AppCommand;

verus! {

/// The argument of a process that takes over in the background.
pub const BACKGROUND_TAKEOVER_ARGUMENT: &'static str = "--background-takeover";

/// The argument of a process that takes over with the settings window.
pub const FOREGROUND_TAKEOVER_ARGUMENT: &'static str = "--foreground-takeover";

/// How often the overlay is asked for errors, in nanoseconds.
pub const ERROR_POLL_NANOS: u128 = 1_000_000_000;

/// The shorter of two times, either of which may be missing.
pub open spec fn earlier(a: Option<nat>, b: Option<nat>) -> Option<nat> {
    match (a, b) {
        (Some(a), Some(b)) => Some(
            if a <= b {
                a
            } else {
                b
            },
        ),
        (Some(a), None) => Some(a),
        (None, b) => b,
    }
}

/// The length of a span, if there is one.
pub open spec fn optional_span(span: Option<Duration>) -> Option<nat> {
    match span {
        Some(span) => Some(span@),
        None => None,
    }
}

/// How long to wait for a command: until the schedule or the animation changes, and never
/// longer than a second.
pub fn next_wait(schedule: Option<Duration>, animation: Option<Duration>) -> (result: Duration)
    ensures
        result@ == match earlier(optional_span(schedule), optional_span(animation)) {
            Some(wait) if wait <= ERROR_POLL_NANOS => wait,
            _ => ERROR_POLL_NANOS as nat,
        },
{
    let longest = Duration::from_secs(1);
    let wait = match (schedule, animation) {
        (Some(schedule), Some(animation)) => schedule.shorter(animation),
        (Some(schedule), None) => schedule,
        (None, Some(animation)) => animation,
        (None, None) => longest,
    };
    wait.shorter(longest)
}

/// What an overlay shows.
#[derive(Debug, Clone, Copy)]
pub struct OverlayContents {
    /// The number of the image's frame.
    pub frame: usize,
    pub image_size: (u32, u32),
    pub width_percent: u8,
    pub opacity_percent: u8,
    pub position: NormalizedPosition,
}

/// Something that the daemon wants done.
#[derive(Debug)]
pub enum DaemonStep {
    /// Show the overlay on an output.
    Show { display_id: String, contents: OverlayContents },
    /// Hide the overlay.
    Hide,
    /// Save the settings.
    Save,
    /// Start a process that takes over with the settings window.
    OpenSettings,
    /// Ask for the outputs. A failure, of this or of what follows from it, is only noted.
    QueryOutputs,
}

/// The contents of a `DaemonStep`.
pub ghost enum Effect {
    Show { display_id: Seq<char>, contents: OverlayContents },
    Hide,
    Save,
    OpenSettings,
    QueryOutputs,
}

impl View for DaemonStep {
    type V = Effect;

    open spec fn view(&self) -> Effect {
        match *self {
            DaemonStep::Show { display_id, contents } => Effect::Show {
                display_id: display_id@,
                contents,
            },
            DaemonStep::Hide => Effect::Hide,
            DaemonStep::Save => Effect::Save,
            DaemonStep::OpenSettings => Effect::OpenSettings,
            DaemonStep::QueryOutputs => Effect::QueryOutputs,
        }
    }
}

/// The contents of several steps.
pub open spec fn effects(steps: Seq<DaemonStep>) -> Seq<Effect> {
    Seq::new(steps.len(), |i: int| steps[i]@)
}

/// What to do for a command, and whether the daemon ends after that.
#[derive(Debug)]
pub struct DaemonPlan {
    pub steps: Vec<DaemonStep>,
    pub exit: bool,
}

/// The identifiers of outputs.
pub open spec fn output_ids(displays: Seq<NativeDisplay>) -> Seq<Seq<char>> {
    Seq::new(displays.len(), |i: int| displays[i].id@)
}

/// The number of the chosen output: the first with its identifier, or the first of all.
pub open spec fn chosen(ids: Seq<Seq<char>>, id: Option<Seq<char>>) -> int {
    match id {
        Some(id) => match ids.index_of_first(id) {
            Some(index) => index,
            None => 0,
        },
        None => 0,
    }
}

/// The number of the first output with an identifier.
fn find_output(displays: &[NativeDisplay], id: &String) -> (result: Option<usize>)
    ensures
        match result {
            Some(index) => output_ids(displays@).index_of_first(id@) == Some(index as int),
            None => output_ids(displays@).index_of_first(id@) is None,
        },
{
    let ghost ids = output_ids(displays@);
    let mut i: usize = 0;
    while i < displays.len()
        invariant
            i <= displays@.len(),
            ids == output_ids(displays@),
            forall|j: int| 0 <= j < i ==> ids[j] != id@,
        decreases displays@.len() - i,
    {
        if displays[i].id == *id {
            proof {
                assert(ids[i as int] == id@);
                ids.index_of_first_ensures(id@);
            }
            return Some(i);
        }
        assert(ids[i as int] != id@);
        i += 1;
    }
    proof {
        ids.index_of_first_ensures(id@);
    }
    None
}

/// The number of the output that the settings choose.
pub fn selected_display(settings: &Settings, displays: &[NativeDisplay]) -> (result: usize)
    ensures
        result == chosen(output_ids(displays@), settings@.display_id),
{
    match &settings.display_id {
        Some(id) => match find_output(displays, id) {
            Some(index) => index,
            None => 0,
        },
        None => 0,
    }
}

/// Everything that the daemon remembers.
#[verifier::ext_equal]
pub ghost struct DaemonState {
    pub schedule: Schedule,
    pub choices: Choices,
    pub outputs: Seq<Seq<char>>,
    pub selected: int,
    pub animation_started_at: nat,
    pub frame: int,
}

/// The length of the interval that the settings choose.
pub open spec fn chosen_interval(choices: Choices) -> nat {
    (choices.interval_minutes * 60 * NANOS_PER_SEC) as nat
}

/// How long the settings want a reminder to be shown.
pub open spec fn chosen_duration(choices: Choices) -> nat {
    (choices.duration_seconds * NANOS_PER_SEC) as nat
}

impl DaemonState {
    /// Whether every time that may be needed after `now` fits a `Duration`.
    pub open spec fn room_at(self, now: nat) -> bool {
        &&& self.schedule.room_at(now)
        &&& now + chosen_interval(self.choices) <= MAX_NANOS
    }

    /// The step that shows the overlay, if there is an output for it.
    pub open spec fn show_effect(self, image_size: (u32, u32)) -> Option<Effect> {
        if self.selected < self.outputs.len() {
            Some(
                Effect::Show {
                    display_id: self.outputs[self.selected],
                    contents: OverlayContents {
                        frame: self.frame as usize,
                        image_size,
                        width_percent: self.choices.width_percent,
                        opacity_percent: self.choices.opacity_percent,
                        position: self.choices.position,
                    },
                },
            )
        } else {
            None
        }
    }

    /// The state after the schedule wants something at `now`.
    pub open spec fn after(self, now: nat, action: SchedulerAction) -> DaemonState {
        if action == SchedulerAction::Show {
            DaemonState { animation_started_at: now, frame: 0, ..self }
        } else {
            self
        }
    }
}

/// Whether steps are what the schedule wants of a state that is already up to date, or the error
/// where there is no output.
pub open spec fn carries_out(
    result: Result<Seq<Effect>, Seq<char>>,
    state: DaemonState,
    image_size: (u32, u32),
    action: SchedulerAction,
) -> bool {
    match action {
        SchedulerAction::Nothing => result == Ok::<Seq<Effect>, Seq<char>>(seq![]),
        SchedulerAction::Hide => result == Ok::<Seq<Effect>, Seq<char>>(seq![Effect::Hide]),
        SchedulerAction::Show => match state.show_effect(image_size) {
            Some(show) => result == Ok::<Seq<Effect>, Seq<char>>(seq![show]),
            None => result == Err::<Seq<Effect>, Seq<char>>(
                "Wayland compositor reported no usable output"@,
            ),
        },
    }
}

/// How long ago something was, or nothing where it is yet to come.
pub open spec fn elapsed_since(now: nat, then_at: nat) -> nat {
    if now >= then_at {
        (now - then_at) as nat
    } else {
        0
    }
}

/// The contents of steps, or of the error.
pub open spec fn outcome(result: Result<Vec<DaemonStep>, String>) -> Result<
    Seq<Effect>,
    Seq<char>,
> {
    match result {
        Ok(steps) => Ok(effects(steps@)),
        Err(message) => Err(message@),
    }
}

/// The reminder in the background.
pub struct Daemon {
    scheduler: ReminderScheduler,
    settings: Settings,
    image: DecodedImage,
    displays: Vec<NativeDisplay>,
    selected_display: usize,
    animation_started_at: Duration,
    animation_frame_index: usize,
}

impl View for Daemon {
    type V = DaemonState;

    closed spec fn view(&self) -> DaemonState {
        DaemonState {
            schedule: self.scheduler@,
            choices: self.settings@,
            outputs: output_ids(self.displays@),
            selected: self.selected_display as int,
            animation_started_at: self.animation_started_at@,
            frame: self.animation_frame_index as int,
        }
    }
}

impl Daemon {
    /// The image is complete.
    pub closed spec fn wf(self) -> bool {
        &&& self.image.wf()
        &&& self.image.playable()
    }

    /// Whether the image is still the same.
    pub open spec fn same_image(self, other: Daemon) -> bool {
        &&& self.image_size() == other.image_size()
        &&& self.frames() == other.frames()
        &&& self.wf() == other.wf()
    }

    /// The image's width and height.
    pub closed spec fn image_size(self) -> (u32, u32) {
        self.image.dimensions()
    }

    /// The image's frames.
    pub closed spec fn frames(self) -> Seq<(Seq<u8>, nat)> {
        self.image.frames()
    }

    /// A daemon that starts its first interval now.
    pub fn new(settings: Settings, image: DecodedImage, displays: Vec<NativeDisplay>) -> (result:
        Self)
        requires
            image.wf(),
            image.playable(),
        ensures
            result@ == (DaemonState {
                schedule: Schedule::starting(
                    0,
                    chosen_interval(settings@),
                    chosen_duration(settings@),
                    settings@.reminders_enabled,
                ),
                choices: settings@,
                outputs: output_ids(displays@),
                selected: chosen(output_ids(displays@), settings@.display_id),
                animation_started_at: 0,
                frame: 0,
            }),
            result.image_size() == image.dimensions(),
            result.frames() == image.frames(),
            result.wf(),
    {
        let scheduler = ReminderScheduler::new(
            Duration::zero(),
            settings.interval(),
            settings.overlay_duration(),
            settings.reminders_enabled,
        );
        let selected = selected_display(&settings, displays.as_slice());
        Daemon {
            scheduler,
            settings,
            image,
            displays,
            selected_display: selected,
            animation_started_at: Duration::zero(),
            animation_frame_index: 0,
        }
    }

    /// Whether every time that may be needed after `now` fits a `Duration`.
    pub fn has_room(&self, now: Duration) -> (result: bool)
        ensures
            result == self@.room_at(now@),
    {
        self.scheduler.has_room(now) && now.fits_before(self.settings.interval())
    }

    /// The settings as they are to be saved.
    pub fn settings(&self) -> (result: &Settings)
        ensures
            result@ == self@.choices,
    {
        &self.settings
    }

    /// The image.
    pub fn image(&self) -> (result: &DecodedImage)
        requires
            self.wf(),
        ensures
            result.dimensions() == self.image_size(),
            result.frames() == self.frames(),
            result.wf(),
            result.playable(),
    {
        &self.image
    }

    /// The number of the selected output.
    pub fn selected(&self) -> (result: usize)
        ensures
            result == self@.selected,
    {
        self.selected_display
    }

    fn show_overlay(&self) -> (result: Result<DaemonStep, String>)
        ensures
            match self@.show_effect(self.image_size()) {
                Some(show) => result matches Ok(step) && step@ == show,
                None => result matches Err(message) && message@
                    == "Wayland compositor reported no usable output"@,
            },
    {
        if self.selected_display < self.displays.len() {
            let contents = OverlayContents {
                frame: self.animation_frame_index,
                image_size: self.image.width_and_height(),
                width_percent: self.settings.width_percent,
                opacity_percent: self.settings.opacity_percent,
                position: self.settings.position,
            };
            Ok(
                DaemonStep::Show {
                    display_id: self.displays[self.selected_display].id.clone(),
                    contents,
                },
            )
        } else {
            Err("Wayland compositor reported no usable output".to_owned())
        }
    }

    fn apply_action(&mut self, now: Duration, action: SchedulerAction) -> (result: Result<
        Vec<DaemonStep>,
        String,
    >)
        ensures
            final(self)@ == old(self)@.after(now@, action),
            final(self).same_image(*old(self)),
            carries_out(outcome(result), final(self)@, final(self).image_size(), action),
    {
        let mut steps: Vec<DaemonStep> = Vec::new();
        match action {
            SchedulerAction::Nothing => {},
            SchedulerAction::Hide => steps.push(DaemonStep::Hide),
            SchedulerAction::Show => {
                self.animation_started_at = now;
                self.animation_frame_index = 0;
                match self.show_overlay() {
                    Ok(step) => steps.push(step),
                    Err(message) => return Err(message),
                }
            },
        }
        let ghost done = effects(steps@);
        proof {
            match action {
                SchedulerAction::Nothing => assert(done =~= seq![]),
                SchedulerAction::Hide => assert(done =~= seq![Effect::Hide]),
                SchedulerAction::Show => assert(done =~= seq![
                    self@.show_effect(self.image_size())->0,
                ]),
            }
        }
        Ok(steps)
    }

    /// Takes note that it is `now`.
    pub fn tick(&mut self, now: Duration) -> (result: Result<Vec<DaemonStep>, String>)
        requires
            old(self)@.room_at(now@),
        ensures
            ({
                let (schedule, action) = old(self)@.schedule.ticked(now@);
                &&& final(self)@ == (DaemonState { schedule, ..old(self)@ }).after(now@, action)
                &&& carries_out(outcome(result), final(self)@, final(self).image_size(), action)
            }),
            final(self).same_image(*old(self)),
    {
        let action = self.scheduler.tick(now);
        self.apply_action(now, action)
    }

    /// Shows a reminder at once.
    pub fn show_now(&mut self, now: Duration) -> (result: Result<Vec<DaemonStep>, String>)
        requires
            old(self)@.room_at(now@),
        ensures
            ({
                let (schedule, action) = old(self)@.schedule.shown_now(now@);
                &&& final(self)@ == (DaemonState { schedule, ..old(self)@ }).after(now@, action)
                &&& carries_out(outcome(result), final(self)@, final(self).image_size(), action)
            }),
            final(self).same_image(*old(self)),
    {
        let action = self.scheduler.show_now(now);
        self.apply_action(now, action)
    }

    /// Turns reminders on or off, and starts over.
    fn toggle_reminders(&mut self, now: Duration) -> (steps: Vec<DaemonStep>)
        requires
            old(self)@.room_at(now@),
        ensures
            final(self)@ == (DaemonState {
                schedule: Schedule::starting(
                    now@,
                    chosen_interval(old(self)@.choices),
                    chosen_duration(old(self)@.choices),
                    !old(self)@.choices.reminders_enabled,
                ),
                choices: Choices {
                    reminders_enabled: !old(self)@.choices.reminders_enabled,
                    ..old(self)@.choices
                },
                ..old(self)@
            }),
            final(self).same_image(*old(self)),
            effects(steps@) == if old(self)@.schedule.shows() {
                seq![Effect::Hide, Effect::Save]
            } else {
                seq![Effect::Save]
            },
    {
        self.settings.reminders_enabled = !self.settings.reminders_enabled;
        let action = self.scheduler.reset(
            now,
            self.settings.interval(),
            self.settings.overlay_duration(),
            self.settings.reminders_enabled,
        );
        let mut steps: Vec<DaemonStep> = Vec::new();
        if action == SchedulerAction::Hide {
            steps.push(DaemonStep::Hide);
        }
        steps.push(DaemonStep::Save);
        proof {
            if action == SchedulerAction::Hide {
                assert(effects(steps@) =~= seq![Effect::Hide, Effect::Save]);
            } else {
                assert(effects(steps@) =~= seq![Effect::Save]);
            }
        }
        steps
    }

    /// What a command asks for at `now`, or why the daemon has to give up.
    pub fn process_command(&mut self, now: Duration, command: AppCommand) -> (result: Result<
        DaemonPlan,
        String,
    >)
        requires
            old(self)@.room_at(now@),
        ensures
            final(self).same_image(*old(self)),
            match command {
                AppCommand::ShowNow => {
                    let (schedule, action) = old(self)@.schedule.shown_now(now@);
                    &&& final(self)@ == (DaemonState { schedule, ..old(self)@ }).after(
                        now@,
                        action,
                    )
                    &&& match result {
                        Ok(plan) => !plan.exit && carries_out(
                            Ok(effects(plan.steps@)),
                            final(self)@,
                            final(self).image_size(),
                            action,
                        ),
                        Err(message) => carries_out(
                            Err(message@),
                            final(self)@,
                            final(self).image_size(),
                            action,
                        ),
                    }
                },
                AppCommand::ToggleReminders => {
                    let choices = Choices {
                        reminders_enabled: !old(self)@.choices.reminders_enabled,
                        ..old(self)@.choices
                    };
                    &&& final(self)@ == (DaemonState {
                        schedule: Schedule::starting(
                            now@,
                            chosen_interval(choices),
                            chosen_duration(choices),
                            choices.reminders_enabled,
                        ),
                        choices,
                        ..old(self)@
                    })
                    &&& result matches Ok(plan)
                    &&& !plan.exit
                    &&& effects(plan.steps@) == if old(self)@.schedule.shows() {
                        seq![Effect::Hide, Effect::Save]
                    } else {
                        seq![Effect::Save]
                    }
                },
                _ => {
                    &&& final(self)@ == old(self)@
                    &&& result matches Ok(plan)
                    &&& plan.exit == (command is OpenSettings || command is Quit)
                    &&& effects(plan.steps@) == match command {
                        AppCommand::OpenSettings => seq![Effect::OpenSettings],
                        AppCommand::DisplayTopologyChanged => seq![Effect::QueryOutputs],
                        _ => seq![],
                    }
                },
            },
    {
        match command {
            AppCommand::ShowNow => match self.show_now(now) {
                Ok(steps) => Ok(DaemonPlan { steps, exit: false }),
                Err(message) => Err(message),
            },
            AppCommand::ToggleReminders => Ok(
                DaemonPlan { steps: self.toggle_reminders(now), exit: false },
            ),
            AppCommand::OpenSettings => {
                let steps = vec![DaemonStep::OpenSettings];
                assert(effects(steps@) =~= seq![Effect::OpenSettings]);
                Ok(DaemonPlan { steps, exit: true })
            },
            AppCommand::DisplayTopologyChanged => {
                let steps = vec![DaemonStep::QueryOutputs];
                assert(effects(steps@) =~= seq![Effect::QueryOutputs]);
                Ok(DaemonPlan { steps, exit: false })
            },
            _ => {
                let steps: Vec<DaemonStep> = Vec::new();
                assert(effects(steps@) =~= seq![]);
                Ok(DaemonPlan { steps, exit: matches!(command, AppCommand::Quit) })
            },
        }
    }

    /// Shows the frame of an animation that is due at `now`. Gives what to do, if anything, and
    /// how long the frame stays, if the image moves.
    pub fn update_animation(&mut self, now: Duration) -> (result: Result<
        (Option<DaemonStep>, Option<Duration>),
        String,
    >)
        requires
            old(self).wf(),
        ensures
            final(self).same_image(*old(self)),
            if old(self)@.schedule.shows() && old(self).frames().len() > 1 {
                let elapsed = elapsed_since(now@, old(self)@.animation_started_at);
                &&& final(self)@ == (DaemonState { frame: final(self)@.frame, ..old(self)@ })
                &&& exists|rest: nat|
                    #[trigger] frame_shown_at(
                        old(self).frames(),
                        elapsed,
                        (final(self)@.frame, rest),
                    ) && match result {
                        Ok((step, wait)) => optional_span(wait) == Some(rest) && match step {
                            Some(step) => final(self)@.frame != old(self)@.frame
                                && final(self)@.show_effect(final(self).image_size()) == Some(
                                step@,
                            ),
                            None => final(self)@.frame == old(self)@.frame,
                        },
                        Err(message) => final(self)@.frame != old(self)@.frame && message@
                            == "Wayland compositor reported no usable output"@
                            && final(self)@.show_effect(final(self).image_size()) is None,
                    }
            } else {
                &&& final(self)@ == old(self)@
                &&& result == Ok::<(Option<DaemonStep>, Option<Duration>), String>((None, None))
            },
    {
        if !self.scheduler.is_showing() || !self.image.is_animated() {
            return Ok((None, None));
        }
        let elapsed = now.saturating_sub(self.animation_started_at);
        let (index, rest) = self.image.frame_at(elapsed);
        let ghost since = elapsed_since(now@, self@.animation_started_at);
        if index != self.animation_frame_index {
            self.animation_frame_index = index;
            assert(frame_shown_at(self.frames(), since, (self@.frame, rest@)));
            match self.show_overlay() {
                Ok(step) => Ok((Some(step), Some(rest))),
                Err(message) => Err(message),
            }
        } else {
            assert(frame_shown_at(self.frames(), since, (self@.frame, rest@)));
            Ok((None, Some(rest)))
        }
    }

    /// How long to wait at `now` for the next command, given how long the shown frame stays.
    pub fn wait_at(&self, now: Duration, animation: Option<Duration>) -> (result: Duration)
        ensures
            ({
                let schedule = match self@.schedule.deadline() {
                    Some(deadline) => Some(
                        if deadline >= now@ {
                            (deadline - now@) as nat
                        } else {
                            0nat
                        },
                    ),
                    None => None,
                };
                result@ == match earlier(schedule, optional_span(animation)) {
                    Some(wait) if wait <= ERROR_POLL_NANOS => wait,
                    _ => ERROR_POLL_NANOS as nat,
                }
            }),
    {
        next_wait(self.scheduler.next_wake_in(now), animation)
    }

    /// Follows the selected output to its new place among the outputs. Where it is gone, the
    /// first output is chosen instead, and the settings have to be saved.
    pub fn select_output(&mut self, displays: &[NativeDisplay]) -> (result: Result<bool, String>)
        ensures
            final(self).same_image(*old(self)),
            ({
                let ids = output_ids(displays@);
                let selected = if old(self)@.selected < old(self)@.outputs.len() {
                    Some(old(self)@.outputs[old(self)@.selected])
                } else {
                    None
                };
                let gone = selected is Some && !ids.contains(selected->0);
                if ids.len() == 0 {
                    &&& final(self)@ == old(self)@
                    &&& result matches Err(message)
                    &&& message@ == "Wayland compositor reported no outputs"@
                } else {
                    &&& result == Ok::<bool, String>(gone)
                    &&& final(self)@ == (DaemonState {
                        selected: chosen(ids, selected),
                        choices: if gone {
                            Choices { display_id: Some(ids[0]), ..old(self)@.choices }
                        } else {
                            old(self)@.choices
                        },
                        ..old(self)@
                    })
                }
            }),
    {
        if displays.len() == 0 {
            return Err("Wayland compositor reported no outputs".to_owned());
        }
        let ghost ids = output_ids(displays@);
        if self.selected_display >= self.displays.len() {
            self.selected_display = 0;
            return Ok(false);
        }
        let ghost id = self@.outputs[self@.selected];
        proof {
            ids.index_of_first_ensures(id);
        }
        match find_output(displays, &self.displays[self.selected_display].id) {
            Some(index) => {
                self.selected_display = index;
                Ok(false)
            },
            None => {
                self.selected_display = 0;
                self.settings.display_id = Some(displays[0].id.clone());
                Ok(true)
            },
        }
    }

    /// Takes over the outputs that one was selected from, and shows the overlay there if it is
    /// up.
    pub fn adopt_outputs(&mut self, displays: Vec<NativeDisplay>) -> (result: Result<
        Option<DaemonStep>,
        String,
    >)
        ensures
            final(self).same_image(*old(self)),
            final(self)@ == (DaemonState { outputs: output_ids(displays@), ..old(self)@ }),
            if !old(self)@.schedule.shows() {
                result == Ok::<Option<DaemonStep>, String>(None)
            } else {
                match final(self)@.show_effect(final(self).image_size()) {
                    Some(show) => result matches Ok(Some(step)) && step@ == show,
                    None => result matches Err(message) && message@
                        == "Wayland compositor reported no usable output"@,
                }
            },
    {
        self.displays = displays;
        if self.scheduler.is_showing() {
            match self.show_overlay() {
                Ok(step) => Ok(Some(step)),
                Err(message) => Err(message),
            }
        } else {
            Ok(None)
        }
    }
}

/// What the daemon hears while it waits.
#[derive(Debug, Clone, Copy, PartialEq, Eq, Structural)]
pub enum Heard {
    Command(AppCommand),
    Silence,
    Disconnected,
}

/// The command that the daemon hears, if any; it gives up where nobody can send one any more.
pub fn heard_command(heard: Heard) -> (result: Result<Option<AppCommand>, String>)
    ensures
        match heard {
            Heard::Command(command) => result == Ok::<Option<AppCommand>, String>(Some(command)),
            Heard::Silence => result == Ok::<Option<AppCommand>, String>(None),
            Heard::Disconnected => result matches Err(message) && message@
                == "daemon command channel disconnected"@,
        },
{
    match heard {
        Heard::Command(command) => Ok(Some(command)),
        Heard::Silence => Ok(None),
        Heard::Disconnected => Err("daemon command channel disconnected".to_owned()),
    }
}

/// Where the configured image could not be loaded, it is no longer configured, and the settings
/// have to be saved before the built-in image is used.
pub fn forget_image(settings: &mut Settings)
    ensures
        final(settings)@ == (Choices { image_path: None, ..old(settings)@ }),
{
    settings.image_path = None;
}

/// The daemon looks for errors of the overlay at least every second, and never sleeps over a
/// change of the schedule or of the animation.
pub proof fn waits_are_bounded(schedule: Option<nat>, animation: Option<nat>)
    ensures
        ({
            let wait = match earlier(schedule, animation) {
                Some(wait) if wait <= ERROR_POLL_NANOS => wait,
                _ => ERROR_POLL_NANOS as nat,
            };
            &&& wait <= ERROR_POLL_NANOS
            &&& schedule matches Some(due) ==> wait <= due
            &&& animation matches Some(due) ==> wait <= due
        }),
{
}

/// An output that is still there stays selected, wherever it is now.
pub proof fn selection_follows_the_output(ids: Seq<Seq<char>>, id: Seq<char>)
    requires
        ids.contains(id),
    ensures
        0 <= chosen(ids, Some(id)) < ids.len(),
        ids[chosen(ids, Some(id))] == id,
{
    ids.index_of_first_ensures(id);
}

/// The daemon waits for the next change of the schedule or of the animation, whichever is sooner,
/// and for a second where that is later or never.
pub proof fn waits_end_with_the_next_change(schedule: nat, animation: nat)
    ensures
        schedule <= animation ==> earlier(Some(schedule), Some(animation)) == Some(schedule),
        animation <= schedule ==> earlier(Some(schedule), Some(animation)) == Some(animation),
        earlier(Some(schedule), None) == Some(schedule),
        earlier(None, Some(animation)) == Some(animation),
        earlier(None, None) is None,
        ERROR_POLL_NANOS == 1_000_000_000,
{
}

/// The first output is chosen where none was or the chosen one is not there.
pub proof fn first_output_stands_in(ids: Seq<Seq<char>>, id: Seq<char>)
    ensures
        chosen(ids, None) == 0,
        !ids.contains(id) ==> chosen(ids, Some(id)) == 0,
{
    ids.index_of_first_ensures(id);
}

/// Settings count the interval in minutes and the duration of a reminder in seconds.
pub proof fn chosen_times_in_nanoseconds(choices: Choices)
    ensures
        chosen_interval(choices) == choices.interval_minutes * 60_000_000_000,
        chosen_duration(choices) == choices.duration_seconds * 1_000_000_000,
{
}

/// The overlay is shown on the selected output, with the frame that is due and as the settings
/// want it; it cannot be shown where there is no such output.
pub proof fn overlay_is_shown_as_chosen(state: DaemonState, image_size: (u32, u32))
    requires
        0 <= state.frame <= usize::MAX,
    ensures
        ({
            let show = state.show_effect(image_size);
            &&& show is Some <==> state.selected < state.outputs.len()
            &&& show matches Some(Effect::Show { display_id, contents }) ==> {
                &&& display_id == state.outputs[state.selected]
                &&& contents.frame == state.frame
                &&& contents.image_size == image_size
                &&& contents.width_percent == state.choices.width_percent
                &&& contents.opacity_percent == state.choices.opacity_percent
                &&& contents.position == state.choices.position
            }
            &&& show is Some ==> show->0 is Show
        }),
{
}

/// A reminder that comes up shows the first frame of its animation, which starts then; one that
/// goes down is hidden; and where neither happens nothing is done.
pub proof fn reminders_start_their_animation(
    state: DaemonState,
    now: nat,
    action: SchedulerAction,
    result: Result<Seq<Effect>, Seq<char>>,
    image_size: (u32, u32),
)
    requires
        carries_out(result, state.after(now, action), image_size, action),
    ensures
        ({
            let after = state.after(now, action);
            &&& action == SchedulerAction::Show ==> {
                &&& after.frame == 0
                &&& after.animation_started_at == now
                &&& state.selected < state.outputs.len() ==> result is Ok && result->Ok_0.len() == 1
                    && result->Ok_0[0] is Show
                &&& state.selected >= state.outputs.len() ==> result is Err
            }
            &&& action == SchedulerAction::Hide ==> after == state && result == Ok::<
                Seq<Effect>,
                Seq<char>,
            >(seq![Effect::Hide])
            &&& action == SchedulerAction::Nothing ==> after == state && result == Ok::<
                Seq<Effect>,
                Seq<char>,
            >(seq![])
            &&& after.schedule == state.schedule
            &&& after.choices == state.choices
            &&& after.outputs == state.outputs
            &&& after.selected == state.selected
        }),
{
}

/// An animation has run since it started, and not at all before.
pub proof fn animations_run_from_their_start(now: nat, started: nat)
    ensures
        now >= started ==> elapsed_since(now, started) + started == now,
        now < started ==> elapsed_since(now, started) == 0,
{
}

} // verus!
