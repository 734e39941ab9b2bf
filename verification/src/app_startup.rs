//! How the application starts: with what it could load, find and create, and a word about the
//! rest.

use vstd::prelude::*;
use vstd::string::*;

use crate::app::{match_display, matched, Match};
use crate::app_state::{
    append_status, appended, display_views, failure, legacy_ids, AppCore, AppState, Display,
    DisplayInfo, Platform,
};
use crate::config::{Choices, LoadedSettings, Settings};
use crate::image_asset::DecodedImage;
use crate::linux_daemon::{chosen_duration, chosen_interval};
use crate::scheduler::Schedule;
use crate::text::{optional_text, texts};

verus! {

/// Texts with semicolons between them.
pub open spec fn joined_texts(list: Seq<Seq<char>>) -> Seq<char>
    decreases list.len(),
{
    if list.len() == 0 {
        seq![]
    } else if list.len() == 1 {
        list[0]
    } else {
        joined_texts(list.drop_last()) + "; "@ + list.last()
    }
}

/// Puts semicolons between texts.
pub fn join_texts(list: &[String]) -> (result: String)
    ensures
        result@ == joined_texts(texts(list@)),
{
    let mut text = String::new();
    let mut i: usize = 0;
    let ghost all = texts(list@);
    assert(text@ =~= joined_texts(all.take(0)));
    while i < list.len()
        invariant
            i <= list@.len(),
            all == texts(list@),
            text@ == joined_texts(all.take(i as int)),
        decreases list@.len() - i,
    {
        let ghost before = text@;
        if i > 0 {
            text.append("; ");
        }
        text.append(list[i].as_str());
        proof {
            assert(all.take(i + 1).drop_last() =~= all.take(i as int));
            assert(all.take(i + 1).last() == all[i as int]);
            if i == 0 {
                assert(text@ =~= all[0]);
                assert(all.take(1).len() == 1);
            }
            assert(text@ =~= joined_texts(all.take(i + 1)));
        }
        i += 1;
    }
    assert(all.take(i as int) =~= all);
    text
}

/// Everything that is known while the application starts.
pub ghost struct StartupState {
    pub platform: Platform,
    pub choices: Choices,
    pub status: Option<Seq<char>>,
    pub session_status: Option<Seq<char>>,
    pub displays: Seq<Display>,
    pub selected: int,
    pub has_overlay: bool,
    /// Whether something is amiss that a user has to be told of, even in the background.
    pub failed: bool,
}

/// An application that is starting.
pub struct Startup {
    platform: Platform,
    settings: Settings,
    status: Option<String>,
    session_status: Option<String>,
    displays: Vec<DisplayInfo>,
    selected: usize,
    has_overlay: bool,
    failed: bool,
}

impl View for Startup {
    type V = StartupState;

    closed spec fn view(&self) -> StartupState {
        StartupState {
            platform: self.platform,
            choices: self.settings@,
            status: optional_text(self.status),
            session_status: optional_text(self.session_status),
            displays: display_views(self.displays@),
            selected: self.selected as int,
            has_overlay: self.has_overlay,
            failed: self.failed,
        }
    }
}

/// The application as it starts, before there are displays.
pub open spec fn begun(
    platform: Platform,
    choices: Choices,
    status: Option<Seq<char>>,
) -> StartupState {
    StartupState {
        platform,
        choices,
        status,
        session_status: None,
        displays: seq![],
        selected: 0,
        has_overlay: false,
        failed: false,
    }
}

impl Startup {
    /// Starts with settings that were loaded, and what was said of them, or with the defaults.
    pub fn begin(platform: Platform, loaded: Result<LoadedSettings, String>) -> (result: Self)
        ensures
            match loaded {
                Ok(loaded) => result@ == begun(
                    platform,
                    loaded.settings@,
                    if loaded.warnings@.len() == 0 {
                        None
                    } else {
                        Some(joined_texts(texts(loaded.warnings@)))
                    },
                ),
                Err(error) => result@ == begun(
                    platform,
                    Choices::default_choices(),
                    Some("Could not load settings: "@ + error@),
                ),
            },
    {
        let (settings, status) = match loaded {
            Ok(loaded) => {
                let status = if loaded.warnings.len() == 0 {
                    None
                } else {
                    Some(join_texts(loaded.warnings.as_slice()))
                };
                (loaded.settings, status)
            },
            Err(error) => (
                Settings::default(),
                Some(failure("Could not load settings: ", error.as_str())),
            ),
        };
        let displays: Vec<DisplayInfo> = Vec::new();
        assert(display_views(displays@) =~= seq![]);
        Startup {
            platform,
            settings,
            status,
            session_status: None,
            displays,
            selected: 0,
            has_overlay: false,
            failed: false,
        }
    }

    /// The settings as they are.
    pub fn settings(&self) -> (result: &Settings)
        ensures
            result@ == self@.choices,
    {
        &self.settings
    }

    /// Gives up a chosen image that could not be loaded. The settings have to be saved.
    pub fn image_not_loaded(&mut self, path: &str, error: &str)
        ensures
            final(self)@ == (StartupState {
                choices: Choices { image_path: None, ..old(self)@.choices },
                status: appended(
                    old(self)@.status,
                    "Could not load "@ + path@ + ": "@ + error@ + "; using bundled eye"@,
                ),
                ..old(self)@
            }),
    {
        let mut message = failure("Could not load ", path);
        message.append(": ");
        message.append(error);
        message.append("; using bundled eye");
        append_status(&mut self.status, message);
        self.settings.image_path = None;
    }

    /// Takes note that settings without the image could not be saved.
    pub fn image_reset_not_saved(&mut self, error: &str)
        ensures
            final(self)@ == (StartupState {
                status: appended(
                    old(self)@.status,
                    "Could not clear invalid image setting: "@ + error@,
                ),
                ..old(self)@
            }),
    {
        append_status(
            &mut self.status,
            failure("Could not clear invalid image setting: ", error),
        );
    }

    /// Takes over the displays, or notes why there are none. On Linux they come with the overlay.
    /// A display that was chosen by an earlier identifier is chosen by its present one; then the
    /// settings have to be saved.
    pub fn displays_found(&mut self, result: Result<Vec<DisplayInfo>, String>) -> (migrated: bool)
        ensures
            match result {
                Ok(displays) => {
                    let before = old(self)@;
                    let found = display_views(displays@);
                    let (selected, how) = matched(
                        before.platform,
                        found,
                        before.choices.display_id,
                    );
                    &&& migrated == (how == Match::Legacy)
                    &&& final(self)@ == (StartupState {
                        displays: found,
                        selected,
                        has_overlay: before.has_overlay || before.platform == Platform::Linux,
                        choices: if how == Match::Legacy {
                            Choices { display_id: Some(found[selected].id), ..before.choices }
                        } else {
                            before.choices
                        },
                        ..before
                    })
                },
                Err(error) => {
                    let before = old(self)@;
                    &&& !migrated
                    &&& final(self)@ == (StartupState {
                        status: appended(
                            before.status,
                            (if before.platform == Platform::Linux {
                                "Could not create Wayland reminder overlay: "@
                            } else {
                                "Could not enumerate displays: "@
                            }) + error@,
                        ),
                        displays: seq![],
                        selected: 0,
                        failed: true,
                        ..before
                    })
                },
            },
    {
        let displays = match result {
            Ok(displays) => displays,
            Err(error) => {
                let message = if self.platform == Platform::Linux {
                    failure("Could not create Wayland reminder overlay: ", error.as_str())
                } else {
                    failure("Could not enumerate displays: ", error.as_str())
                };
                append_status(&mut self.status, message);
                self.failed = true;
                let none: Vec<DisplayInfo> = Vec::new();
                assert(display_views(none@) =~= seq![]);
                self.displays = none;
                self.selected = 0;
                return false;
            },
        };
        if self.platform == Platform::Linux {
            self.has_overlay = true;
        }
        let (selected, how) = match_display(
            self.platform,
            displays.as_slice(),
            &self.settings.display_id,
        );
        let migrated = how == Match::Legacy;
        if migrated {
            proof {
                lemma_legacy_in_range(
                    self.platform,
                    display_views(displays@),
                    self.settings@.display_id,
                );
            }
            self.settings.display_id = Some(displays[selected].id.clone());
        }
        self.displays = displays;
        self.selected = selected;
        migrated
    }

    /// Takes note that settings with the display's present identifier could not be saved.
    pub fn migration_not_saved(&mut self, error: &str)
        ensures
            final(self)@ == (StartupState {
                status: appended(
                    old(self)@.status,
                    "Could not migrate the selected display identifier: "@ + error@,
                ),
                ..old(self)@
            }),
    {
        append_status(
            &mut self.status,
            failure("Could not migrate the selected display identifier: ", error),
        );
    }

    /// Takes note that other instances cannot reach this one.
    pub fn activation_unavailable(&mut self, error: &str)
        ensures
            final(self)@ == (StartupState {
                status: appended(
                    old(self)@.status,
                    "Single-instance activation is unavailable: "@ + error@,
                ),
                failed: true,
                ..old(self)@
            }),
    {
        append_status(
            &mut self.status,
            failure("Single-instance activation is unavailable: ", error),
        );
        self.failed = true;
    }

    /// Takes note that the system's events cannot be followed.
    pub fn session_unavailable(&mut self, error: &str)
        ensures
            final(self)@ == (StartupState {
                session_status: Some("Lock and unlock monitoring is unavailable: "@ + error@),
                ..old(self)@
            }),
    {
        self.session_status = Some(failure("Lock and unlock monitoring is unavailable: ", error));
    }

    /// Takes note whether the overlay window of Windows was created.
    pub fn overlay_created(&mut self, result: Result<(), String>)
        ensures
            final(self)@ == match result {
                Ok(_) => StartupState { has_overlay: true, ..old(self)@ },
                Err(error) => StartupState {
                    status: Some("Could not create reminder overlay: "@ + error@),
                    failed: true,
                    ..old(self)@
                },
            },
    {
        match result {
            Ok(_) => {
                self.has_overlay = true;
            },
            Err(error) => {
                self.status = Some(failure("Could not create reminder overlay: ", error.as_str()));
                self.failed = true;
            },
        }
    }

    /// The application. Its settings are open unless it starts in the background and nothing is
    /// amiss.
    pub fn finish(self, image: DecodedImage, background: bool) -> (result: AppCore)
        requires
            image.wf(),
            image.playable(),
        ensures
            result.wf(),
            result@ == (AppState {
                platform: self@.platform,
                choices: self@.choices,
                schedule: Schedule::starting(
                    0,
                    chosen_interval(self@.choices),
                    chosen_duration(self@.choices),
                    self@.choices.reminders_enabled,
                ),
                frames: image.frames(),
                image_size: image.dimensions(),
                animation_started_at: 0,
                frame: 0,
                displays: self@.displays,
                selected: self@.selected,
                settings_open: !background || self@.failed,
                settings_sized: false,
                save_due_at: None,
                root_visible: !background,
                controller_mode: false,
                quitting: false,
                pause_mask: 0,
                session_status: self@.session_status,
                status: self@.status,
                has_overlay: self@.has_overlay,
                has_tray: false,
            }),
    {
        AppCore::start(
            self.platform,
            self.settings,
            image,
            self.displays,
            self.selected,
            !background || self.failed,
            !background,
            self.session_status,
            self.status,
            self.has_overlay,
        )
    }
}

proof fn lemma_legacy_in_range(
    platform: Platform,
    displays: Seq<Display>,
    id: Option<Seq<char>>,
)
    requires
        matched(platform, displays, id).1 == Match::Legacy,
    ensures
        0 <= matched(platform, displays, id).0 < displays.len(),
{
    legacy_ids(displays).index_of_first_ensures(id->0);
}

/// Nothing of several texts is lost when they are put together: each follows the one before it
/// after a semicolon and a space.
pub proof fn texts_are_put_together(list: Seq<Seq<char>>, text: Seq<char>)
    ensures
        joined_texts(seq![]) == Seq::<char>::empty(),
        joined_texts(seq![text]) == text,
        list.len() > 0 ==> joined_texts(list.push(text)) == joined_texts(list).push(';').push(' ')
            + text,
{
    if list.len() > 0 {
        reveal_strlit("; ");
        assert(list.push(text).drop_last() =~= list);
        assert(joined_texts(list.push(text)) =~= joined_texts(list).push(';').push(' ') + text);
    }
}

/// An application that begins knows its platform, its settings and what was said of them, and
/// neither displays nor an overlay.
pub proof fn nothing_else_is_known_at_first(
    platform: Platform,
    choices: Choices,
    status: Option<Seq<char>>,
)
    ensures
        ({
            let state = begun(platform, choices, status);
            &&& state.platform == platform
            &&& state.choices == choices
            &&& state.status == status
            &&& state.session_status is None
            &&& state.displays.len() == 0
            &&& state.selected == 0
            &&& !state.has_overlay
            &&& !state.failed
        }),
{
}

} // verus!
