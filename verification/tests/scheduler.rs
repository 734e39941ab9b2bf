use ohmyeyes::config::ResumePolicy;
use ohmyeyes::scheduler::{ReminderScheduler, SchedulerAction};
use ohmyeyes::time::Duration;

fn minutes(count: u64) -> Duration {
    Duration::from_secs(60 * count)
}

fn twenty_seconds() -> Duration {
    Duration::from_secs(20)
}

fn scheduler() -> ReminderScheduler {
    ReminderScheduler::new(Duration::zero(), minutes(20), twenty_seconds(), true)
}

#[test]
fn interval_starts_after_overlay_hides() {
    let mut scheduler = scheduler();
    assert_eq!(scheduler.tick(minutes(20)), SchedulerAction::Show);
    assert_eq!(
        scheduler.tick(minutes(20).plus(twenty_seconds())),
        SchedulerAction::Hide
    );
    assert_eq!(scheduler.tick(minutes(40)), SchedulerAction::Nothing);
    assert_eq!(
        scheduler.tick(minutes(40).plus(twenty_seconds())),
        SchedulerAction::Show
    );
}

#[test]
fn reset_policy_starts_a_full_interval_after_break() {
    let mut scheduler = scheduler();
    scheduler.begin_break(minutes(10));
    scheduler.end_break(minutes(100), ResumePolicy::Reset);
    assert_eq!(scheduler.tick(minutes(119)), SchedulerAction::Nothing);
    assert_eq!(scheduler.tick(minutes(120)), SchedulerAction::Show);
}

#[test]
fn continue_policy_preserves_remaining_time() {
    let mut scheduler = scheduler();
    scheduler.begin_break(minutes(7));
    scheduler.end_break(minutes(100), ResumePolicy::Continue);
    assert_eq!(scheduler.tick(minutes(112)), SchedulerAction::Nothing);
    assert_eq!(scheduler.tick(minutes(113)), SchedulerAction::Show);
}

#[test]
fn disabling_hides_an_active_overlay() {
    let mut scheduler = scheduler();
    scheduler.show_now(Duration::zero());
    assert_eq!(
        scheduler.reset(Duration::from_secs(1), minutes(20), twenty_seconds(), false),
        SchedulerAction::Hide
    );
    assert_eq!(scheduler.next_wake_in(Duration::zero()), None);
}

#[test]
fn manual_reminder_works_while_scheduling_is_disabled() {
    let mut scheduler =
        ReminderScheduler::new(Duration::zero(), minutes(20), twenty_seconds(), false);
    assert_eq!(scheduler.show_now(Duration::zero()), SchedulerAction::Show);
    assert!(scheduler.is_showing());
    assert_eq!(scheduler.tick(twenty_seconds()), SchedulerAction::Hide);
    assert_eq!(scheduler.next_wake_in(twenty_seconds()), None);
}

#[test]
fn a_pending_wake_up_counts_down_and_then_acts() {
    let mut scheduler = scheduler();
    assert_eq!(scheduler.next_wake_in(minutes(15)), Some(minutes(5)));
    assert_eq!(scheduler.next_wake_in(minutes(30)), Some(Duration::zero()));
    assert_eq!(
        scheduler.tick(Duration::from_millis(1_199_999)),
        SchedulerAction::Nothing
    );
    assert_eq!(scheduler.tick(minutes(20)), SchedulerAction::Show);
    assert_eq!(scheduler.next_wake_in(minutes(20)), Some(twenty_seconds()));
}

#[test]
fn a_break_hides_the_overlay_and_refuses_another_one() {
    let mut scheduler = scheduler();
    assert_eq!(scheduler.tick(minutes(20)), SchedulerAction::Show);
    assert_eq!(scheduler.begin_break(minutes(20)), SchedulerAction::Hide);
    assert_eq!(scheduler.begin_break(minutes(21)), SchedulerAction::Nothing);
    assert_eq!(scheduler.show_now(minutes(22)), SchedulerAction::Nothing);
    assert_eq!(scheduler.tick(minutes(500)), SchedulerAction::Nothing);
    assert_eq!(scheduler.next_wake_in(minutes(22)), None);
    scheduler.end_break(minutes(30), ResumePolicy::Continue);
    assert_eq!(scheduler.next_wake_in(minutes(30)), Some(minutes(20)));
}

#[test]
fn a_break_ends_a_manual_reminder_for_good() {
    let mut scheduler =
        ReminderScheduler::new(Duration::zero(), minutes(20), twenty_seconds(), false);
    scheduler.show_now(Duration::zero());
    assert_eq!(
        scheduler.begin_break(Duration::from_secs(1)),
        SchedulerAction::Hide
    );
    scheduler.end_break(Duration::from_secs(2), ResumePolicy::Reset);
    assert_eq!(scheduler.next_wake_in(Duration::from_secs(2)), None);
}
