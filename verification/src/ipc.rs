//! How a second instance reaches the running one: names, messages and patience.

use vstd::prelude::*;
use vstd::string::*;
use vstd::utf8::*;

use crate::text::{
    decimal, lemma_decimal_is_injective, push_decimal, same_text, text_of_utf8, trimmed,
};
use crate::time::Duration;
use crate::AppCommand;

verus! {

/// What the lock that makes an instance the only one is called.
pub const INSTANCE_NAME: &'static str = "app.ohmyeyes.desktop";

/// Where the running instance listens.
pub const IPC_NAME: &'static str = "app.ohmyeyes.desktop.ipc";

/// The most bytes of a message.
pub const IPC_COMMAND_LIMIT: u64 = 64;

/// The name of the file that the running instance keeps locked.
pub const LOCK_FILE_NAME: &'static str = "ohmyeyes.lock";

/// How long one end waits for the other.
pub fn ipc_timeout() -> (result: Duration)
    ensures
        result@ == 2_000_000_000,
{
    Duration::from_secs(2)
}

/// The text that is sent for a command. Commands that a second instance never sends open the
/// settings.
pub open spec fn message(command: AppCommand) -> Seq<char> {
    match command {
        AppCommand::ShowNow => "show-now\n"@,
        AppCommand::RunInBackground => "run-in-background\n"@,
        _ => "open-settings\n"@,
    }
}

/// The bytes that are sent for a command.
pub fn encode_command(command: AppCommand) -> (bytes: &'static [u8])
    ensures
        bytes@ == encode_utf8(message(command)),
{
    match command {
        AppCommand::ShowNow => "show-now\n".as_bytes(),
        AppCommand::RunInBackground => "run-in-background\n".as_bytes(),
        _ => "open-settings\n".as_bytes(),
    }
}

/// The command that a word stands for.
pub open spec fn command_of(word: Seq<char>) -> Option<AppCommand> {
    if word == "open-settings"@ {
        Some(AppCommand::OpenSettings)
    } else if word == "run-in-background"@ {
        Some(AppCommand::RunInBackground)
    } else if word == "show-now"@ {
        Some(AppCommand::ShowNow)
    } else {
        None
    }
}

/// The command that a word stands for.
pub fn decode_command(command: &str) -> (result: Option<AppCommand>)
    ensures
        result == command_of(command@),
{
    if same_text(command, "open-settings") {
        Some(AppCommand::OpenSettings)
    } else if same_text(command, "run-in-background") {
        Some(AppCommand::RunInBackground)
    } else if same_text(command, "show-now") {
        Some(AppCommand::ShowNow)
    } else {
        None
    }
}

/// What a message turned out to be.
#[derive(Debug, Clone, Copy, PartialEq, Eq, Structural)]
pub enum Received {
    /// Not one whole line of text within the limit. Nobody is told.
    Malformed,
    /// A line that is no command. The window is still drawn anew.
    Unknown,
    /// A command.
    Command(AppCommand),
}

/// Whether bytes are one whole line of text within the limit.
pub open spec fn is_line(bytes: Seq<u8>) -> bool {
    &&& 0 < bytes.len() <= IPC_COMMAND_LIMIT
    &&& bytes.last() == 0x0a
    &&& valid_utf8(bytes)
}

/// What a message turns out to be.
pub open spec fn received(bytes: Seq<u8>) -> Received {
    if !is_line(bytes) {
        Received::Malformed
    } else {
        match command_of(trimmed(decode_utf8(bytes))) {
            Some(command) => Received::Command(command),
            None => Received::Unknown,
        }
    }
}

/// Reads a message: the bytes up to the first line feed, or up to the end or one above the
/// limit where there is none.
pub fn receive(bytes: &[u8]) -> (result: Received)
    ensures
        result == received(bytes@),
{
    if bytes.len() as u64 > IPC_COMMAND_LIMIT || bytes.len() == 0 || bytes[bytes.len() - 1] != 0x0a {
        return Received::Malformed;
    }
    match text_of_utf8(bytes) {
        None => Received::Malformed,
        Some(text) => match decode_command(text.trim()) {
            Some(command) => Received::Command(command),
            None => Received::Unknown,
        },
    }
}

/// A name, for one user where users share names.
pub open spec fn scoped_name(base: Seq<char>, user: Option<u32>) -> Seq<char> {
    match user {
        Some(id) => base + ".uid-"@ + decimal(id as nat),
        None => base,
    }
}

/// A name, for one user where users share names.
pub fn platform_scoped_name(base: &str, user: Option<u32>) -> (result: String)
    ensures
        result@ == scoped_name(base@, user),
{
    let mut name = base.to_owned();
    if let Some(id) = user {
        name.append(".uid-");
        push_decimal(&mut name, id as u64);
    }
    name
}

/// The name of the lock that makes an instance the only one.
pub fn instance_name(user: Option<u32>) -> (result: String)
    ensures
        result@ == scoped_name(INSTANCE_NAME@, user),
{
    platform_scoped_name(INSTANCE_NAME, user)
}

/// Where the running instance of a user listens.
pub fn endpoint_name(user: Option<u32>) -> (result: String)
    ensures
        result@ == scoped_name(IPC_NAME@, user),
{
    platform_scoped_name(IPC_NAME, user)
}

/// Checks that the runtime directory is a directory of the user's own.
pub fn validate_runtime_directory(is_directory: bool, owner: u32, user: u32) -> (result: Result<
    (),
    String,
>)
    ensures
        result is Ok <==> is_directory && owner == user,
        result matches Err(message) ==> message@
            == "XDG_RUNTIME_DIR is not a directory owned by the current user"@,
{
    if !is_directory || owner != user {
        return Err("XDG_RUNTIME_DIR is not a directory owned by the current user".to_owned());
    }
    Ok(())
}

/// How long to wait before the running instance is called again, if there is time left.
pub fn retry_connect(now: Duration, deadline: Duration) -> (result: Option<Duration>)
    ensures
        result is Some <==> now@ < deadline@,
        result matches Some(wait) ==> wait@ == 50_000_000,
{
    if now.at_least(deadline) {
        None
    } else {
        Some(Duration::from_millis(50))
    }
}

/// How long to wait before listening is tried again: while another instance still listens, and
/// there is time left.
pub fn retry_listen(address_in_use: bool, now: Duration, deadline: Duration) -> (result: Option<
    Duration,
>)
    ensures
        result is Some <==> address_in_use && now@ < deadline@,
        result matches Some(wait) ==> wait@ == 25_000_000,
{
    if !address_in_use || now.at_least(deadline) {
        None
    } else {
        Some(Duration::from_millis(25))
    }
}

/// What an instance sends is what the running one receives; commands that are not for sending
/// open the settings.
pub proof fn commands_round_trip(command: AppCommand)
    ensures
        received(encode_utf8(message(command))) == Received::Command(
            match command {
                AppCommand::ShowNow => AppCommand::ShowNow,
                AppCommand::RunInBackground => AppCommand::RunInBackground,
                _ => AppCommand::OpenSettings,
            },
        ),
{
    let line = message(command);
    let word = match command {
        AppCommand::ShowNow => "show-now"@,
        AppCommand::RunInBackground => "run-in-background"@,
        _ => "open-settings"@,
    };
    reveal_strlit("show-now\n");
    reveal_strlit("run-in-background\n");
    reveal_strlit("open-settings\n");
    reveal_strlit("show-now");
    reveal_strlit("run-in-background");
    reveal_strlit("open-settings");
    encode_utf8_valid_utf8(line);
    encode_utf8_decode_utf8(line);
    assert(is_ascii_chars(line));
    is_ascii_chars_encode_utf8(line);
    assert(line.drop_last() =~= word);
    assert(trimmed(word) == word);
    assert(trimmed(line) == trimmed(line.drop_last()));
    assert("open-settings"@.len() != "run-in-background"@.len());
    assert("open-settings"@.len() != "show-now"@.len());
    assert("run-in-background"@.len() != "show-now"@.len());
}

/// A line that is not ended, too long or no text never becomes a command.
pub proof fn only_whole_lines_are_commands(bytes: Seq<u8>)
    ensures
        received(bytes) is Command ==> is_line(bytes),
        bytes.len() > IPC_COMMAND_LIMIT ==> received(bytes) is Malformed,
{
}

/// The lock and the endpoint of a user never share a name, and neither do two users.
pub proof fn names_are_distinct(user: Option<u32>, other: u32)
    ensures
        scoped_name(INSTANCE_NAME@, user) != scoped_name(IPC_NAME@, user),
        user matches Some(id) ==> id != other ==> scoped_name(IPC_NAME@, user) != scoped_name(
            IPC_NAME@,
            Some(other),
        ) && scoped_name(INSTANCE_NAME@, user) != scoped_name(INSTANCE_NAME@, Some(other)),
{
    reveal_strlit("app.ohmyeyes.desktop");
    reveal_strlit("app.ohmyeyes.desktop.ipc");
    reveal_strlit(".uid-");
    let first = scoped_name(INSTANCE_NAME@, user);
    let second = scoped_name(IPC_NAME@, user);
    if first == second {
        assert(first.len() == second.len());
    }
    if let Some(id) = user {
        if id != other {
            lemma_decimal_is_injective(id as nat, other as nat);
            lemma_scoped(IPC_NAME@, id, other);
            lemma_scoped(INSTANCE_NAME@, id, other);
        }
    }
}

proof fn lemma_scoped(base: Seq<char>, id: u32, other: u32)
    requires
        decimal(id as nat) != decimal(other as nat),
    ensures
        scoped_name(base, Some(id)) != scoped_name(base, Some(other)),
{
    let prefix = base + ".uid-"@;
    let a = scoped_name(base, Some(id));
    let b = scoped_name(base, Some(other));
    assert(a.skip(prefix.len() as int) =~= decimal(id as nat));
    assert(b.skip(prefix.len() as int) =~= decimal(other as nat));
}

/// The words that are commands, and what they ask for.
pub proof fn words_that_are_commands(word: Seq<char>)
    ensures
        command_of("open-settings"@) == Some(AppCommand::OpenSettings),
        command_of("run-in-background"@) == Some(AppCommand::RunInBackground),
        command_of("show-now"@) == Some(AppCommand::ShowNow),
        command_of(word) is Some ==> word == "open-settings"@ || word == "run-in-background"@ || word
            == "show-now"@,
{
    reveal_strlit("show-now");
    reveal_strlit("run-in-background");
    reveal_strlit("open-settings");
    assert("open-settings"@.len() != "run-in-background"@.len());
    assert("open-settings"@.len() != "show-now"@.len());
    assert("run-in-background"@.len() != "show-now"@.len());
}

/// A message of 1 to 64 bytes that are text and end with a line feed is understood: white space
/// around its word does not matter, and a word that is no command is known as such. Any other
/// message is malformed.
pub proof fn messages_are_lines_of_text(bytes: Seq<u8>)
    ensures
        ({
            let line = 1 <= bytes.len() <= 64 && bytes[bytes.len() - 1] == 0x0a && valid_utf8(bytes);
            let command = command_of(trimmed(decode_utf8(bytes)));
            &&& !line ==> received(bytes) is Malformed
            &&& line && command is Some ==> received(bytes) == Received::Command(command->0)
            &&& line && command is None ==> received(bytes) is Unknown
        }),
{
}

/// Where users share names, a user's name is the common one with the user's number behind it, and
/// else it is the common one.
pub proof fn names_are_the_users_own(base: Seq<char>, id: u32)
    ensures
        scoped_name(base, None) == base,
        scoped_name(base, Some(id)) == base + ".uid-"@ + decimal(id as nat),
{
}

} // verus!
