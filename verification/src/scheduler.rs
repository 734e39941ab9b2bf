//! The reminder schedule: a deterministic state machine over monotonic time.

use vstd::prelude::*;

use crate::config::ResumePolicy;
use crate::time::{Duration, MAX_NANOS};

verus! {

/// What the owner of the scheduler has to do with the overlay.
#[derive(Debug, Clone, Copy, PartialEq, Eq, Structural)]
pub enum SchedulerAction {
    Nothing,
    Show,
    Hide,
}

#[derive(Debug, Clone, Copy, PartialEq, Eq, Structural)]
enum State {
    Disabled,
    Waiting { due_at: Duration },
    Showing { hide_at: Duration, resume_enabled: bool },
    OnBreak { remaining: Duration, was_showing: bool },
}

/// Decides when the overlay appears and disappears.
#[derive(Debug, Clone)]
pub struct ReminderScheduler {
    interval: Duration,
    duration: Duration,
    state: State,
}

/// Where a schedule stands. Times are nanoseconds since the clock's origin.
pub ghost enum Phase {
    /// Nothing is scheduled.
    Disabled,
    /// The overlay appears at `due_at`.
    Waiting { due_at: nat },
    /// The overlay is up until `hide_at`; afterwards the next interval runs if `resume_enabled`.
    Showing { hide_at: nat, resume_enabled: bool },
    /// The system is paused with `remaining` of the interval left.
    OnBreak { remaining: nat, was_showing: bool },
}

/// A schedule as plain numbers.
pub ghost struct Schedule {
    pub interval: nat,
    pub duration: nat,
    pub phase: Phase,
}

impl Schedule {
    /// A schedule whose first interval, if any, starts at `now`.
    pub open spec fn starting(now: nat, interval: nat, duration: nat, enabled: bool) -> Schedule {
        Schedule {
            interval,
            duration,
            phase: if enabled {
                Phase::Waiting { due_at: now + interval }
            } else {
                Phase::Disabled
            },
        }
    }

    pub open spec fn with_phase(self, phase: Phase) -> Schedule {
        Schedule { phase, ..self }
    }

    /// When the schedule changes by itself, if ever.
    pub open spec fn deadline(self) -> Option<nat> {
        match self.phase {
            Phase::Waiting { due_at } => Some(due_at),
            Phase::Showing { hide_at, .. } => Some(hide_at),
            Phase::Disabled => None,
            Phase::OnBreak { .. } => None,
        }
    }

    pub open spec fn shows(self) -> bool {
        self.phase is Showing
    }

    pub open spec fn on_break(self) -> bool {
        self.phase is OnBreak
    }

    /// Whether the overlay's next disappearance starts an interval.
    pub open spec fn recurring(self) -> bool {
        match self.phase {
            Phase::Disabled => false,
            Phase::Showing { resume_enabled, .. } => resume_enabled,
            Phase::Waiting { .. } => true,
            Phase::OnBreak { .. } => true,
        }
    }

    /// The schedule with the overlay up from `now` on.
    pub open spec fn shown_at(self, now: nat) -> Schedule {
        self.with_phase(
            Phase::Showing { hide_at: now + self.duration, resume_enabled: self.recurring() },
        )
    }

    /// The schedule after the overlay has come down at `now`.
    pub open spec fn hidden_at(self, now: nat) -> Schedule {
        Schedule::starting(now, self.interval, self.duration, self.recurring())
    }

    /// What the passing of time brings at `now`.
    pub open spec fn ticked(self, now: nat) -> (Schedule, SchedulerAction) {
        if self.deadline() is Some && now >= self.deadline()->0 {
            if self.shows() {
                (self.hidden_at(now), SchedulerAction::Hide)
            } else {
                (self.shown_at(now), SchedulerAction::Show)
            }
        } else {
            (self, SchedulerAction::Nothing)
        }
    }

    /// What a request to show the overlay at once brings at `now`.
    pub open spec fn shown_now(self, now: nat) -> (Schedule, SchedulerAction) {
        if self.on_break() {
            (self, SchedulerAction::Nothing)
        } else {
            (self.shown_at(now), SchedulerAction::Show)
        }
    }

    /// The interval time that a break beginning at `now` leaves.
    pub open spec fn remaining_at(self, now: nat) -> nat {
        match self.phase {
            Phase::Waiting { due_at } => if due_at >= now {
                (due_at - now) as nat
            } else {
                0
            },
            Phase::OnBreak { remaining, .. } => remaining,
            _ => self.interval,
        }
    }

    /// What the beginning of a break brings at `now`.
    pub open spec fn paused(self, now: nat) -> (Schedule, SchedulerAction) {
        if self.on_break() || !self.shows() && !self.recurring() {
            (self, SchedulerAction::Nothing)
        } else {
            (
                if self.recurring() {
                    self.with_phase(
                        Phase::OnBreak {
                            remaining: self.remaining_at(now),
                            was_showing: self.shows(),
                        },
                    )
                } else {
                    self.with_phase(Phase::Disabled)
                },
                if self.shows() {
                    SchedulerAction::Hide
                } else {
                    SchedulerAction::Nothing
                },
            )
        }
    }

    /// The schedule after the end of a break at `now`.
    pub open spec fn resumed(self, now: nat, policy: ResumePolicy) -> Schedule {
        match self.phase {
            Phase::OnBreak { remaining, .. } => self.with_phase(
                Phase::Waiting {
                    due_at: now + match policy {
                        ResumePolicy::Reset => self.interval,
                        ResumePolicy::Continue => remaining,
                    },
                },
            ),
            _ => self,
        }
    }

    /// Whether every time that the schedule may need after `now` fits a `Duration`.
    pub open spec fn room_at(self, now: nat) -> bool {
        &&& now + self.interval <= MAX_NANOS
        &&& now + self.duration <= MAX_NANOS
        &&& self.phase matches Phase::OnBreak { remaining, .. } ==> now + remaining <= MAX_NANOS
    }

    /// Whether the time of the next change, if any, fits a `Duration`.
    pub open spec fn in_range(self) -> bool {
        self.deadline() is Some ==> self.deadline()->0 <= MAX_NANOS
    }
}

impl View for State {
    type V = Phase;

    closed spec fn view(&self) -> Phase {
        match *self {
            State::Disabled => Phase::Disabled,
            State::Waiting { due_at } => Phase::Waiting { due_at: due_at@ },
            State::Showing { hide_at, resume_enabled } => Phase::Showing {
                hide_at: hide_at@,
                resume_enabled,
            },
            State::OnBreak { remaining, was_showing } => Phase::OnBreak {
                remaining: remaining@,
                was_showing,
            },
        }
    }
}

impl View for ReminderScheduler {
    type V = Schedule;

    closed spec fn view(&self) -> Schedule {
        Schedule { interval: self.interval@, duration: self.duration@, phase: self.state@ }
    }
}

impl ReminderScheduler {
    /// A scheduler whose first interval, if it is `enabled`, starts at `now`.
    pub fn new(now: Duration, interval: Duration, duration: Duration, enabled: bool) -> (result:
        Self)
        requires
            Schedule::starting(now@, interval@, duration@, enabled).in_range(),
        ensures
            result@ == Schedule::starting(now@, interval@, duration@, enabled),
    {
        let state = if enabled {
            State::Waiting { due_at: now.plus(interval) }
        } else {
            State::Disabled
        };
        ReminderScheduler { interval, duration, state }
    }

    /// Takes note that it is `now`.
    pub fn tick(&mut self, now: Duration) -> (action: SchedulerAction)
        requires
            old(self)@.ticked(now@).1 != SchedulerAction::Nothing ==> old(self)@.ticked(
                now@,
            ).0.in_range(),
        ensures
            (final(self)@, action) == old(self)@.ticked(now@),
    {
        match self.state {
            State::Waiting { due_at } => {
                if now.at_least(due_at) {
                    self.state = State::Showing {
                        hide_at: now.plus(self.duration),
                        resume_enabled: true,
                    };
                    SchedulerAction::Show
                } else {
                    SchedulerAction::Nothing
                }
            },
            State::Showing { hide_at, resume_enabled } => {
                if now.at_least(hide_at) {
                    self.state = if resume_enabled {
                        State::Waiting { due_at: now.plus(self.interval) }
                    } else {
                        State::Disabled
                    };
                    SchedulerAction::Hide
                } else {
                    SchedulerAction::Nothing
                }
            },
            State::Disabled => SchedulerAction::Nothing,
            State::OnBreak { .. } => SchedulerAction::Nothing,
        }
    }

    /// Starts over at `now` with other times.
    pub fn reset(
        &mut self,
        now: Duration,
        interval: Duration,
        duration: Duration,
        enabled: bool,
    ) -> (action: SchedulerAction)
        requires
            Schedule::starting(now@, interval@, duration@, enabled).in_range(),
        ensures
            final(self)@ == Schedule::starting(now@, interval@, duration@, enabled),
            action == if old(self)@.shows() {
                SchedulerAction::Hide
            } else {
                SchedulerAction::Nothing
            },
    {
        let was_showing = self.is_showing();
        self.interval = interval;
        self.duration = duration;
        self.state = if enabled {
            State::Waiting { due_at: now.plus(interval) }
        } else {
            State::Disabled
        };
        if was_showing {
            SchedulerAction::Hide
        } else {
            SchedulerAction::Nothing
        }
    }

    /// Shows the overlay at once, unless the system is paused.
    pub fn show_now(&mut self, now: Duration) -> (action: SchedulerAction)
        requires
            !old(self)@.on_break() ==> old(self)@.shown_at(now@).in_range(),
        ensures
            (final(self)@, action) == old(self)@.shown_now(now@),
    {
        let resume_enabled = match self.state {
            State::Disabled => false,
            State::Showing { resume_enabled, .. } => resume_enabled,
            State::Waiting { .. } => true,
            State::OnBreak { .. } => {
                return SchedulerAction::Nothing;
            },
        };
        self.state = State::Showing { hide_at: now.plus(self.duration), resume_enabled };
        SchedulerAction::Show
    }

    /// Takes note that the system pauses at `now`.
    pub fn begin_break(&mut self, now: Duration) -> (action: SchedulerAction)
        ensures
            (final(self)@, action) == old(self)@.paused(now@),
    {
        let (remaining, was_showing) = match self.state {
            State::Waiting { due_at } => (due_at.saturating_sub(now), false),
            State::Showing { resume_enabled, .. } => {
                if resume_enabled {
                    (self.interval, true)
                } else {
                    self.state = State::Disabled;
                    return SchedulerAction::Hide;
                }
            },
            State::Disabled => {
                return SchedulerAction::Nothing;
            },
            State::OnBreak { .. } => {
                return SchedulerAction::Nothing;
            },
        };
        self.state = State::OnBreak { remaining, was_showing };
        if was_showing {
            SchedulerAction::Hide
        } else {
            SchedulerAction::Nothing
        }
    }

    /// Takes note that the system resumes at `now`.
    pub fn end_break(&mut self, now: Duration, policy: ResumePolicy)
        requires
            old(self)@.on_break() ==> old(self)@.resumed(now@, policy).in_range(),
        ensures
            final(self)@ == old(self)@.resumed(now@, policy),
    {
        if let State::OnBreak { remaining, .. } = self.state {
            let delay = match policy {
                ResumePolicy::Reset => self.interval,
                ResumePolicy::Continue => remaining,
            };
            self.state = State::Waiting { due_at: now.plus(delay) };
        }
    }

    /// Whether every time that the schedule may need after `now` fits a `Duration`.
    pub fn has_room(&self, now: Duration) -> (result: bool)
        ensures
            result == self@.room_at(now@),
    {
        let remaining = match self.state {
            State::OnBreak { remaining, .. } => remaining,
            _ => Duration::zero(),
        };
        now.fits_before(self.interval) && now.fits_before(self.duration) && now.fits_before(
            remaining,
        )
    }

    /// Whether the overlay is up.
    pub fn is_showing(&self) -> (result: bool)
        ensures
            result == self@.shows(),
    {
        matches!(self.state, State::Showing { .. })
    }

    /// How long after `now` the schedule next changes by itself, if ever.
    pub fn next_wake_in(&self, now: Duration) -> (result: Option<Duration>)
        ensures
            result is Some <==> self@.deadline() is Some,
            result is Some ==> result->0@ == if self@.deadline()->0 >= now@ {
                (self@.deadline()->0 - now@) as nat
            } else {
                0
            },
    {
        match self.state {
            State::Waiting { due_at } => Some(due_at.saturating_sub(now)),
            State::Showing { hide_at, .. } => Some(hide_at.saturating_sub(now)),
            State::Disabled => None,
            State::OnBreak { .. } => None,
        }
    }
}

/// Nothing happens before the announced wake-up, and something does happen at it.
pub proof fn wake_up_is_exact(schedule: Schedule, later: nat)
    requires
        schedule.deadline() is Some,
    ensures
        later < schedule.deadline()->0 ==> schedule.ticked(later) == (
            schedule,
            SchedulerAction::Nothing,
        ),
        later >= schedule.deadline()->0 ==> schedule.ticked(later).1 != SchedulerAction::Nothing,
{
}

/// Without a deadline the passing of time changes nothing.
pub proof fn no_deadline_no_change(schedule: Schedule, now: nat)
    requires
        schedule.deadline() is None,
    ensures
        schedule.ticked(now) == (schedule, SchedulerAction::Nothing),
{
}

/// The interval starts after the overlay hides: a reminder that comes up at `shown` and goes
/// down at `hidden` is followed by the next one at `hidden + interval`, no earlier.
pub proof fn interval_starts_after_the_overlay_hides(schedule: Schedule, shown: nat, hidden: nat)
    requires
        schedule.phase is Waiting,
        shown >= schedule.deadline()->0,
        hidden >= shown + schedule.duration,
    ensures
        ({
            let up = schedule.ticked(shown);
            let down = up.0.ticked(hidden);
            &&& up.1 == SchedulerAction::Show
            &&& up.0.deadline() == Some(shown + schedule.duration)
            &&& down.1 == SchedulerAction::Hide
            &&& down.0.deadline() == Some(hidden + schedule.interval)
            &&& forall|t: nat|
                t < hidden + schedule.interval ==> (#[trigger] down.0.ticked(t)).1
                    == SchedulerAction::Nothing
            &&& forall|t: nat|
                t >= hidden + schedule.interval ==> (#[trigger] down.0.ticked(t)).1
                    == SchedulerAction::Show
        }),
{
}

/// Under the reset policy a full interval runs after a break, however long the break was.
pub proof fn reset_policy_runs_a_full_interval(schedule: Schedule, paused: nat, resumed: nat)
    requires
        !schedule.on_break(),
        schedule.recurring(),
    ensures
        schedule.paused(paused).0.resumed(resumed, ResumePolicy::Reset).deadline() == Some(
            resumed + schedule.interval,
        ),
{
}

/// Under the continue policy a break that interrupts an interval moves its end by the length
/// of the break.
pub proof fn continue_policy_keeps_the_remaining_time(
    schedule: Schedule,
    paused: nat,
    resumed: nat,
)
    requires
        schedule.phase is Waiting,
        paused <= schedule.deadline()->0,
        paused <= resumed,
    ensures
        schedule.paused(paused).0.resumed(resumed, ResumePolicy::Continue).deadline() == Some(
            (schedule.deadline()->0 + (resumed - paused)) as nat,
        ),
{
}

/// A break takes an overlay down, and none comes up or goes down until the break ends.
pub proof fn nothing_shows_during_a_break(schedule: Schedule, paused: nat, now: nat)
    ensures
        ({
            let (during, action) = schedule.paused(paused);
            &&& schedule.shows() <==> action == SchedulerAction::Hide
            &&& !during.shows()
            &&& schedule.shows() || during.on_break() ==> during.ticked(now) == (
                during,
                SchedulerAction::Nothing,
            )
            &&& during.on_break() ==> during.shown_now(now) == (during, SchedulerAction::Nothing)
            &&& during.paused(now) == (during, SchedulerAction::Nothing)
        }),
{
}

/// The end of a break that never began changes nothing.
pub proof fn resuming_without_a_break_changes_nothing(
    schedule: Schedule,
    now: nat,
    policy: ResumePolicy,
)
    requires
        !schedule.on_break(),
    ensures
        schedule.resumed(now, policy) == schedule,
{
}

/// A reminder asked for while nothing is scheduled shows for its duration and leaves nothing
/// scheduled.
pub proof fn manual_reminder_leaves_a_disabled_schedule_disabled(
    schedule: Schedule,
    now: nat,
    later: nat,
)
    requires
        schedule.phase is Disabled,
        later >= now + schedule.duration,
    ensures
        ({
            let (up, action) = schedule.shown_now(now);
            &&& action == SchedulerAction::Show
            &&& up.shows()
            &&& forall|t: nat|
                t < now + schedule.duration ==> (#[trigger] up.ticked(t)).1
                    == SchedulerAction::Nothing
            &&& up.ticked(later) == (schedule, SchedulerAction::Hide)
        }),
{
}

/// A schedule that starts over disabled never acts by itself.
pub proof fn disabled_schedule_never_acts(now: nat, interval: nat, duration: nat, later: nat)
    ensures
        ({
            let schedule = Schedule::starting(now, interval, duration, false);
            &&& schedule.deadline() is None
            &&& !schedule.shows()
            &&& schedule.ticked(later) == (schedule, SchedulerAction::Nothing)
        }),
{
}

/// An overlay comes up only where none was up, and goes down only where one was.
pub proof fn actions_match_what_is_shown(schedule: Schedule, now: nat)
    ensures
        ({
            let (next, action) = schedule.ticked(now);
            match action {
                SchedulerAction::Show => !schedule.shows() && next.shows(),
                SchedulerAction::Hide => schedule.shows() && !next.shows(),
                SchedulerAction::Nothing => next == schedule,
            }
        }),
{
}

/// A schedule that is turned on waits for one whole interval and then shows the overlay.
pub proof fn first_reminder_comes_after_an_interval(
    now: nat,
    interval: nat,
    duration: nat,
    later: nat,
)
    ensures
        ({
            let schedule = Schedule::starting(now, interval, duration, true);
            let (next, action) = schedule.ticked(later);
            &&& schedule.deadline() == Some(now + interval)
            &&& later < now + interval ==> action == SchedulerAction::Nothing && next == schedule
            &&& later >= now + interval ==> action == SchedulerAction::Show && next.deadline()
                == Some(later + duration)
        }),
{
}

/// A reminder that is asked for shows at once and for its whole duration. Where reminders are
/// scheduled, also while one is up, the next one comes an interval after it went down; where
/// nothing is scheduled, nothing is afterwards.
pub proof fn reminder_on_request_keeps_the_schedule(schedule: Schedule, asked: nat, hidden: nat)
    requires
        !(schedule.phase is OnBreak),
        hidden >= asked + schedule.duration,
    ensures
        ({
            let (up, shown) = schedule.shown_now(asked);
            let (down, gone) = up.ticked(hidden);
            let scheduled = match schedule.phase {
                Phase::Waiting { .. } => true,
                Phase::Showing { resume_enabled, .. } => resume_enabled,
                _ => false,
            };
            &&& shown == SchedulerAction::Show
            &&& up.phase is Showing
            &&& up.deadline() == Some(asked + schedule.duration)
            &&& forall|t: nat|
                t < asked + schedule.duration ==> (#[trigger] up.ticked(t)).1
                    == SchedulerAction::Nothing
            &&& gone == SchedulerAction::Hide
            &&& scheduled ==> down.phase == (Phase::Waiting { due_at: hidden + schedule.interval })
            &&& scheduled ==> forall|t: nat|
                t >= hidden + schedule.interval ==> (#[trigger] down.ticked(t)).1
                    == SchedulerAction::Show
            &&& !scheduled ==> down.phase is Disabled
            &&& !scheduled ==> forall|t: nat|
                (#[trigger] down.ticked(t)).1 == SchedulerAction::Nothing
        }),
{
}

/// While the system is paused no reminder can be asked for, and the time that was left stays.
pub proof fn requests_wait_for_the_end_of_a_break(schedule: Schedule, asked: nat)
    requires
        schedule.phase is OnBreak,
    ensures
        schedule.shown_now(asked) == (schedule, SchedulerAction::Nothing),
        schedule.ticked(asked) == (schedule, SchedulerAction::Nothing),
{
}

/// A break while an interval runs begins quietly. Under the continue policy as much of the
/// interval is left after it as was before, nothing where the reminder was overdue; under the
/// reset policy a whole one is.
pub proof fn break_during_an_interval(
    schedule: Schedule,
    due_at: nat,
    paused: nat,
    resumed: nat,
)
    requires
        schedule.phase == (Phase::Waiting { due_at }),
    ensures
        ({
            let (during, action) = schedule.paused(paused);
            let went_on = during.resumed(resumed, ResumePolicy::Continue);
            let anew = during.resumed(resumed, ResumePolicy::Reset);
            &&& action == SchedulerAction::Nothing
            &&& during.deadline() is None
            &&& paused <= due_at ==> went_on.phase == (Phase::Waiting {
                due_at: (resumed + due_at - paused) as nat,
            })
            &&& paused > due_at ==> went_on.phase == (Phase::Waiting { due_at: resumed })
            &&& anew.phase == (Phase::Waiting { due_at: resumed + schedule.interval })
        }),
{
}

/// A break takes a reminder down. Where reminders are scheduled a whole interval runs after the
/// break under either policy; where that one was only asked for, nothing is scheduled then.
pub proof fn break_during_a_reminder(
    schedule: Schedule,
    hide_at: nat,
    resume_enabled: bool,
    paused: nat,
    resumed: nat,
    policy: ResumePolicy,
)
    requires
        schedule.phase == (Phase::Showing { hide_at, resume_enabled }),
    ensures
        ({
            let (during, action) = schedule.paused(paused);
            let after = during.resumed(resumed, policy);
            &&& action == SchedulerAction::Hide
            &&& during.deadline() is None
            &&& resume_enabled ==> after.phase == (Phase::Waiting {
                due_at: resumed + schedule.interval,
            })
            &&& !resume_enabled ==> after.phase is Disabled
        }),
{
}

/// A break changes nothing where nothing is scheduled, and a further one does not add to it.
pub proof fn break_needs_a_schedule(schedule: Schedule, paused: nat)
    requires
        schedule.phase is Disabled || schedule.phase is OnBreak,
    ensures
        schedule.paused(paused) == (schedule, SchedulerAction::Nothing),
{
}

/// Nothing but new settings changes how long an interval and a reminder last.
pub proof fn lengths_stay(schedule: Schedule, now: nat, policy: ResumePolicy)
    ensures
        schedule.ticked(now).0.interval == schedule.interval,
        schedule.ticked(now).0.duration == schedule.duration,
        schedule.shown_now(now).0.interval == schedule.interval,
        schedule.shown_now(now).0.duration == schedule.duration,
        schedule.paused(now).0.interval == schedule.interval,
        schedule.paused(now).0.duration == schedule.duration,
        schedule.resumed(now, policy).interval == schedule.interval,
        schedule.resumed(now, policy).duration == schedule.duration,
{
}

} // verus!
