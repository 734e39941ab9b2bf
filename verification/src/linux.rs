//! Starting at login on desktops that follow the XDG conventions.

use std::path::Path;

use vstd::prelude::*;
use vstd::string::*;

verus! {

/// The name of the file that starts the program at login.
pub const AUTOSTART_FILE_NAME: &'static str = "ohmyeyes.desktop";

/// Whether a character of a quoted argument needs a backslash in front of it.
pub open spec fn needs_backslash(character: char) -> bool {
    character == '"' || character == '`' || character == '$' || character == '\\'
}

/// A text with a backslash in front of every character that needs one.
pub open spec fn escaped(text: Seq<char>) -> Seq<char>
    decreases text.len(),
{
    if text.len() == 0 {
        seq![]
    } else if needs_backslash(text.last()) {
        escaped(text.drop_last()).push('\\').push(text.last())
    } else {
        escaped(text.drop_last()).push(text.last())
    }
}

/// A text as a quoted argument.
pub open spec fn quoted(text: Seq<char>) -> Seq<char> {
    seq!['"'] + escaped(text) + seq!['"']
}

/// The text that a quoted argument's escaped part stands for, read from its start: a backslash
/// stands for nothing, and the character after it for itself.
pub open spec fn unescaped(text: Seq<char>) -> Seq<char>
    decreases text.len(),
{
    if text.len() == 0 {
        seq![]
    } else if text[0] == '\\' && text.len() > 1 {
        seq![text[1]] + unescaped(text.skip(2))
    } else {
        seq![text[0]] + unescaped(text.skip(1))
    }
}

/// The text of a path, if it is Unicode.
pub uninterp spec fn path_text(path: &Path) -> Option<Seq<char>>;

/// `Path::to_str` gives the text of a path that is valid Unicode.
#[verifier::external_body]
pub(crate) fn text_of_path(path: &Path) -> (text: Option<&str>)
    ensures
        text is Some <==> path_text(path) is Some,
        text matches Some(text) ==> path_text(path) == Some(text@),
{
    path.to_str()
}

/// Quotes an argument of the command line of a desktop entry.
pub fn quoted_argument(value: &str) -> (result: String)
    ensures
        result@ == quoted(value@),
{
    let mut text = String::new();
    text.push('"');
    for character in characters: value.chars()
        invariant
            characters.seq() == value@,
            text@ == seq!['"'] + escaped(value@.take(characters.index())),
    {
        let ghost done = value@.take(characters.index());
        let ghost more = value@.take(characters.index() + 1);
        assert(more.drop_last() =~= done);
        if character == '"' || character == '`' || character == '$' || character == '\\' {
            text.push('\\');
        }
        text.push(character);
        assert(text@ =~= seq!['"'] + escaped(more));
    }
    assert(value@.take(value@.len() as int) =~= value@);
    text.push('"');
    assert(text@ =~= quoted(value@));
    text
}

/// The program's path as an argument of the command line of a desktop entry.
pub fn desktop_exec_argument(path: &Path) -> (result: Result<String, String>)
    ensures
        match path_text(path) {
            Some(text) => result matches Ok(argument) && argument@ == quoted(text),
            None => result matches Err(message) && message@
                == "the executable path is not valid UTF-8"@,
        },
{
    match text_of_path(path) {
        Some(text) => Ok(quoted_argument(text)),
        None => Err("the executable path is not valid UTF-8".to_owned()),
    }
}

/// The desktop entry that starts the program in the background.
pub open spec fn entry(argument: Seq<char>) -> Seq<char> {
    "[Desktop Entry]\nType=Application\nVersion=1.0\nName=OhMyEyes\nComment=20-20-20 eye-break reminder\nExec="@
        + argument
        + " --background\nTerminal=false\nStartupNotify=false\nX-GNOME-Autostart-enabled=true\n"@
}

/// The desktop entry that starts the program in the background.
pub fn desktop_entry(argument: &str) -> (result: String)
    ensures
        result@ == entry(argument@),
{
    let mut contents =
        "[Desktop Entry]\nType=Application\nVersion=1.0\nName=OhMyEyes\nComment=20-20-20 eye-break reminder\nExec=".to_owned();
    contents.append(argument);
    contents.append(
        " --background\nTerminal=false\nStartupNotify=false\nX-GNOME-Autostart-enabled=true\n",
    );
    contents
}

/// What became of an attempt to remove a file.
#[derive(Debug)]
pub enum Removal {
    Removed,
    NotFound,
    Failed(String),
}

/// Starting at login is off once its file is gone, whether it was there or not.
pub fn disabled(removal: Removal) -> (result: Result<(), String>)
    ensures
        match removal {
            Removal::Failed(error) => result matches Err(message) && message@ == error@,
            _ => result is Ok,
        },
{
    match removal {
        Removal::Removed => Ok(()),
        Removal::NotFound => Ok(()),
        Removal::Failed(error) => Err(error),
    }
}

/// What `escaped` makes of the end of a text is the end of what it makes of the text.
proof fn lemma_escaped_splits(text: Seq<char>)
    requires
        text.len() > 0,
    ensures
        needs_backslash(text[0]) ==> escaped(text) == seq!['\\', text[0]] + escaped(text.skip(1)),
        !needs_backslash(text[0]) ==> escaped(text) == seq![text[0]] + escaped(text.skip(1)),
    decreases text.len(),
{
    if text.len() == 1 {
        assert(text.drop_last() =~= Seq::empty());
        assert(text.skip(1) =~= Seq::empty());
        assert(escaped(text.drop_last()) =~= Seq::empty());
        assert(escaped(text.skip(1)) =~= Seq::empty());
        assert(escaped(text) =~= if needs_backslash(text[0]) {
            seq!['\\', text[0]]
        } else {
            seq![text[0]]
        });
    } else {
        lemma_escaped_splits(text.drop_last());
        assert(text.drop_last().skip(1) =~= text.skip(1).drop_last());
        assert(text.skip(1).last() == text.last());
        assert(escaped(text) =~= if needs_backslash(text[0]) {
            seq!['\\', text[0]] + escaped(text.skip(1))
        } else {
            seq![text[0]] + escaped(text.skip(1))
        });
    }
}

/// An argument can be read back: quoting loses nothing, whatever the path.
pub proof fn quoting_is_reversible(text: Seq<char>)
    ensures
        quoted(text).first() == '"',
        quoted(text).last() == '"',
        unescaped(quoted(text).subrange(1, quoted(text).len() - 1)) == text,
{
    assert(quoted(text).subrange(1, quoted(text).len() - 1) =~= escaped(text));
    lemma_reversible(text);
}

proof fn lemma_reversible(text: Seq<char>)
    ensures
        unescaped(escaped(text)) == text,
    decreases text.len(),
{
    if text.len() > 0 {
        lemma_escaped_splits(text);
        lemma_reversible(text.skip(1));
        let rest = escaped(text.skip(1));
        if needs_backslash(text[0]) {
            assert(escaped(text).skip(2) =~= rest);
        } else {
            assert(escaped(text).skip(1) =~= rest);
        }
        assert(seq![text[0]] + text.skip(1) =~= text);
    }
}

/// Whether a character that means something to a shell stands in a text without a backslash in
/// front of it, read from the text's start.
pub open spec fn has_bare_character(text: Seq<char>) -> bool
    decreases text.len(),
{
    if text.len() == 0 {
        false
    } else if text[0] == '\\' {
        text.len() == 1 || has_bare_character(text.skip(2))
    } else {
        text[0] == '"' || text[0] == '`' || text[0] == '$' || has_bare_character(text.skip(1))
    }
}

/// Nothing in a quoted argument ends it early or means anything to a shell.
pub proof fn arguments_are_inert(text: Seq<char>)
    ensures
        quoted(text) == seq!['"'] + escaped(text) + seq!['"'],
        !has_bare_character(escaped(text)),
    decreases text.len(),
{
    if text.len() > 0 {
        lemma_escaped_splits(text);
        arguments_are_inert(text.skip(1));
        let rest = escaped(text.skip(1));
        if needs_backslash(text[0]) {
            assert(escaped(text).skip(2) =~= rest);
        } else {
            assert(escaped(text).skip(1) =~= rest);
        }
    }
}

/// The desktop entry runs the argument in the background and nothing else: every argument stands
/// in the same place of the same text.
pub proof fn entries_run_the_argument(argument: Seq<char>)
    ensures
        ({
            let start =
                "[Desktop Entry]\nType=Application\nVersion=1.0\nName=OhMyEyes\nComment=20-20-20 eye-break reminder\nExec="@;
            let end =
                " --background\nTerminal=false\nStartupNotify=false\nX-GNOME-Autostart-enabled=true\n"@;
            entry(argument) == start + argument + end
        }),
{
}

} // verus!
