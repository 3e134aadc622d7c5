//! Screening of commands before they are handed to a shell.

use crate::encoding::byte_len;
use crate::text::{chars_of, find_kind, first_word, range_equals, string_of};
use vstd::prelude::*;
use vstd::string::*;

verus! {

/// Longest command that is accepted, in bytes.
pub const MAX_COMMAND_LENGTH: usize = 4096;

/// Verdict on a command.
#[derive(Debug)]
pub struct ValidationResult {
    pub is_valid: bool,
    pub error_message: Option<String>,
}

/// What a command printed and how it ended.
#[derive(Debug)]
pub struct CommandOutput {
    pub stdout: String,
    pub stderr: String,
    pub exit_code: i32,
}

/// Whether `word` names one of the commands that may be run.
pub open spec fn is_allowed_command(word: Seq<char>) -> bool {
    word == "echo"@ || word == "pwd"@ || word == "ls"@ || word == "cat"@ || word == "grep"@ || word
        == "find"@ || word == "git"@
}

/// The message for a command that is too long.
pub open spec fn too_long_message() -> Seq<char> {
    "Command exceeds maximum length of 4096 characters"@
}

/// The message for a command whose first word is not allowed.
pub open spec fn not_allowed_message(word: Seq<char>) -> Seq<char> {
    "Command not allowed: "@ + word
        + ". Allowed commands: [\"echo\", \"pwd\", \"ls\", \"cat\", \"grep\", \"find\", \"git\"]"@
}

/// The verdict that `validate_command` gives on `command`.
pub open spec fn verdict(command: Seq<char>) -> Option<Seq<char>> {
    if byte_len(command) > MAX_COMMAND_LENGTH {
        Some(too_long_message())
    } else if !is_allowed_command(first_word(command)) {
        Some(not_allowed_message(first_word(command)))
    } else {
        None
    }
}

/// Whether the characters of `chars` from `from` up to `to` name an
/// allowed command.
fn names_allowed_command(chars: &Vec<char>, from: usize, to: usize) -> (allowed: bool)
    requires
        from <= to <= chars@.len(),
    ensures
        allowed == is_allowed_command(chars@.subrange(from as int, to as int)),
{
    range_equals(chars, from, to, &chars_of("echo")) || range_equals(
        chars,
        from,
        to,
        &chars_of("pwd"),
    ) || range_equals(chars, from, to, &chars_of("ls")) || range_equals(
        chars,
        from,
        to,
        &chars_of("cat"),
    ) || range_equals(chars, from, to, &chars_of("grep")) || range_equals(
        chars,
        from,
        to,
        &chars_of("find"),
    ) || range_equals(chars, from, to, &chars_of("git"))
}

/// Screens a command: it must be no longer than `MAX_COMMAND_LENGTH` bytes
/// and its first word must name an allowed command. The working directory
/// is taken as it is: no directory is turned down.
pub fn validate_command(command: &str, working_dir: Option<&String>) -> (result: ValidationResult)
    ensures
        result.is_valid == (verdict(command@) is None),
        match result.error_message {
            Some(message) => verdict(command@) == Some(message@),
            None => verdict(command@) is None,
        },
{
    if command.as_bytes().len() > MAX_COMMAND_LENGTH {
        return ValidationResult {
            is_valid: false,
            error_message: Some("Command exceeds maximum length of 4096 characters".to_owned()),
        };
    }
    let chars = chars_of(command);
    let start: usize = find_kind(&chars, 0, false);
    let end: usize = find_kind(&chars, start, true);
    if !names_allowed_command(&chars, start, end) {
        let mut message: String = "Command not allowed: ".to_owned();
        message.append(string_of(&chars, start, end).as_str());
        message.append(
            ". Allowed commands: [\"echo\", \"pwd\", \"ls\", \"cat\", \"grep\", \"find\", \"git\"]",
        );
        return ValidationResult { is_valid: false, error_message: Some(message) };
    }
    ValidationResult { is_valid: true, error_message: None }
}

/// What `check_command` returns: nothing for a command that passes, the
/// message for one that does not.
pub open spec fn checked(command: Seq<char>) -> Result<(), Seq<char>> {
    match verdict(command) {
        Some(message) => Err(message),
        None => Ok(()),
    }
}

/// Screens a command as `validate_command` does, for those who run it:
/// they go on where it passes and give the message back where it does not.
pub fn check_command(command: &str, working_dir: Option<&String>) -> (result: Result<(), String>)
    ensures
        match result {
            Ok(_) => checked(command@) == Ok::<(), Seq<char>>(()),
            Err(message) => checked(command@) == Err::<(), Seq<char>>(message@),
        },
{
    let validation = validate_command(command, working_dir);
    if validation.is_valid {
        Ok(())
    } else {
        match validation.error_message {
            Some(message) => Err(message),
            None => Err("Command validation failed".to_owned()),
        }
    }
}

impl CommandOutput {
    /// What a command printed, with its exit code; a command that ended
    /// without one, as one killed by a signal does, gets -1.
    pub fn new(stdout: String, stderr: String, code: Option<i32>) -> (output: CommandOutput)
        ensures
            output.stdout == stdout,
            output.stderr == stderr,
            output.exit_code == match code {
                Some(code) => code,
                None => -1i32,
            },
    {
        let exit_code: i32 = match code {
            Some(code) => code,
            None => -1,
        };
        CommandOutput { stdout, stderr, exit_code }
    }
}

} // verus!
