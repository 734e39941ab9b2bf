//! What the program is asked for when it is launched, and how it gives way to an instance that
//! runs already.

use vstd::prelude::*;

use crate::app_state::Platform;
use crate::linux_daemon::{BACKGROUND_TAKEOVER_ARGUMENT, FOREGROUND_TAKEOVER_ARGUMENT};
use crate::text::{same_text, texts};
use crate::time::Duration;
use crate::AppCommand;

verus! {

/// The argument that shows a reminder at once.
pub const SHOW_NOW_ARGUMENT: &'static str = "--show-now";

/// The argument that keeps the settings closed.
pub const BACKGROUND_ARGUMENT: &'static str = "--background";

/// What the program is asked for.
#[derive(Debug, Clone, Copy, PartialEq, Eq, Structural)]
pub struct LaunchOptions {
    /// Show a reminder at once.
    pub show_now: bool,
    /// Run without the settings window.
    pub background: bool,
    /// Wait for the instance that this one replaces.
    pub takeover: bool,
}

/// Whether an argument is among arguments.
pub fn has_argument(arguments: &[String], wanted: &str) -> (result: bool)
    ensures
        result == texts(arguments@).contains(wanted@),
{
    let ghost list = texts(arguments@);
    let mut i: usize = 0;
    while i < arguments.len()
        invariant
            i <= arguments@.len(),
            list == texts(arguments@),
            forall|j: int| 0 <= j < i ==> list[j] != wanted@,
        decreases arguments@.len() - i,
    {
        if same_text(arguments[i].as_str(), wanted) {
            assert(list[i as int] == wanted@);
            return true;
        }
        assert(list[i as int] != wanted@);
        i += 1;
    }
    false
}

/// What arguments ask for. Taking over is for Linux only.
pub open spec fn options_of(arguments: Seq<Seq<char>>, platform: Platform) -> LaunchOptions {
    let linux = platform == Platform::Linux;
    LaunchOptions {
        show_now: arguments.contains(SHOW_NOW_ARGUMENT@),
        background: arguments.contains(BACKGROUND_ARGUMENT@) || linux && arguments.contains(
            BACKGROUND_TAKEOVER_ARGUMENT@,
        ),
        takeover: linux && (arguments.contains(BACKGROUND_TAKEOVER_ARGUMENT@)
            || arguments.contains(FOREGROUND_TAKEOVER_ARGUMENT@)),
    }
}

/// What arguments ask for.
pub fn parse_arguments(arguments: &[String], platform: Platform) -> (result: LaunchOptions)
    ensures
        result == options_of(texts(arguments@), platform),
{
    let linux = platform == Platform::Linux;
    let background_takeover = linux && has_argument(arguments, BACKGROUND_TAKEOVER_ARGUMENT);
    let foreground_takeover = linux && has_argument(arguments, FOREGROUND_TAKEOVER_ARGUMENT);
    LaunchOptions {
        show_now: has_argument(arguments, SHOW_NOW_ARGUMENT),
        background: has_argument(arguments, BACKGROUND_ARGUMENT) || background_takeover,
        takeover: background_takeover || foreground_takeover,
    }
}

/// What an instance that runs already is told.
pub open spec fn told(options: LaunchOptions) -> AppCommand {
    if options.background {
        AppCommand::RunInBackground
    } else if options.show_now {
        AppCommand::ShowNow
    } else {
        AppCommand::OpenSettings
    }
}

/// What an instance that runs already is told.
pub fn command_for_running_instance(options: LaunchOptions) -> (result: AppCommand)
    ensures
        result == told(options),
{
    if options.background {
        AppCommand::RunInBackground
    } else if options.show_now {
        AppCommand::ShowNow
    } else {
        AppCommand::OpenSettings
    }
}

/// How long an instance that takes over waits for the one before it.
pub fn takeover_patience() -> (result: Duration)
    ensures
        result@ == 3_000_000_000,
{
    Duration::from_secs(3)
}

/// How long to wait before the lock of the instance before is tried again, if this instance
/// takes over and there is time left.
pub fn retry_lock(takeover: bool, now: Duration, deadline: Duration) -> (result: Option<Duration>)
    ensures
        result is Some <==> takeover && now@ < deadline@,
        result matches Some(wait) ==> wait@ == 25_000_000,
{
    if !takeover || now.at_least(deadline) {
        None
    } else {
        Some(Duration::from_millis(25))
    }
}

/// What each argument asks for. Taking over is for Linux, and doing it in the background keeps the
/// settings closed.
pub proof fn arguments_ask_for(arguments: Seq<Seq<char>>, platform: Platform)
    ensures
        ({
            let options = options_of(arguments, platform);
            let linux = platform == Platform::Linux;
            &&& options.show_now <==> arguments.contains("--show-now"@)
            &&& arguments.contains("--background"@) ==> options.background
            &&& linux && arguments.contains("--background-takeover"@) ==> options.background
                && options.takeover
            &&& linux && arguments.contains("--foreground-takeover"@) ==> options.takeover
            &&& !linux ==> !options.takeover
            &&& options.background ==> arguments.contains("--background"@) || linux
                && arguments.contains("--background-takeover"@)
            &&& options.takeover ==> arguments.contains("--background-takeover"@)
                || arguments.contains("--foreground-takeover"@)
        }),
{
}

/// An instance that runs is told to stay in the background by one that was to start there, else to
/// show a reminder where one is asked for, and else to open its settings.
pub proof fn running_instance_is_told(options: LaunchOptions)
    ensures
        options.background ==> told(options) == AppCommand::RunInBackground,
        !options.background && options.show_now ==> told(options) == AppCommand::ShowNow,
        !options.background && !options.show_now ==> told(options) == AppCommand::OpenSettings,
{
}

} // verus!
