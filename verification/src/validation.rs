//! Screening of the values that make up a server definition before they
//! reach a command line: names, commands, arguments, URLs, environment
//! variables and headers.

use crate::encoding::byte_len;
use crate::text::{
    char_is_alphanumeric, chars_of, contains_any, decimal, decimal_text, find_in,
    has_prefix, has_substring, holds_any, is_alphanumeric, starts_with_at, trim, trimmed,
};
use vstd::prelude::*;
use vstd::slice::slice_to_vec;
use vstd::string::*;

verus! {

/// Longest server name, command, argument and variable, in bytes.
pub const MAX_SERVER_NAME_LENGTH: usize = 128;

/// Most environment variables of one server.
pub const MAX_ENV_VARS: usize = 100;

/// Most headers of one server.
pub const MAX_HEADERS: usize = 50;

/// Longest header name, in bytes.
pub const MAX_HEADER_NAME_LENGTH: usize = 256;

/// Longest header value, in bytes.
pub const MAX_HEADER_VALUE_LENGTH: usize = 1024;

/// Why a value was turned down.
#[derive(Debug)]
pub enum ValidationError {
    EmptyField(String),
    InvalidCharacters(String, String),
    InvalidLength(String, usize),
    InvalidFormat(String, String),
    PathTraversal(String),
    UnauthorizedPath(String),
}

/// A `ValidationError` as plain text and numbers.
pub enum Fault {
    EmptyField(Seq<char>),
    InvalidCharacters(Seq<char>, Seq<char>),
    InvalidLength(Seq<char>, nat),
    InvalidFormat(Seq<char>, Seq<char>),
    PathTraversal(Seq<char>),
    UnauthorizedPath(Seq<char>),
}

impl View for ValidationError {
    type V = Fault;

    /// The error as plain text and numbers.
    open spec fn view(&self) -> Fault {
        match self {
            ValidationError::EmptyField(field) => Fault::EmptyField(field@),
            ValidationError::InvalidCharacters(field, what) => Fault::InvalidCharacters(
                field@,
                what@,
            ),
            ValidationError::InvalidLength(field, length) => Fault::InvalidLength(
                field@,
                *length as nat,
            ),
            ValidationError::InvalidFormat(field, what) => Fault::InvalidFormat(field@, what@),
            ValidationError::PathTraversal(path) => Fault::PathTraversal(path@),
            ValidationError::UnauthorizedPath(path) => Fault::UnauthorizedPath(path@),
        }
    }
}

/// The result of a validation as plain text.
pub open spec fn outcome(result: Result<String, ValidationError>) -> Result<Seq<char>, Fault> {
    match result {
        Ok(value) => Ok(value@),
        Err(error) => Err(error@),
    }
}

/// The message that describes a fault.
pub open spec fn message_of(fault: Fault) -> Seq<char> {
    match fault {
        Fault::EmptyField(field) => field + " cannot be empty"@,
        Fault::InvalidCharacters(field, what) => field + " contains invalid characters: "@ + what,
        Fault::InvalidLength(field, length) => field + " length "@ + decimal_text(length)
            + " exceeds maximum allowed"@,
        Fault::InvalidFormat(field, what) => field + " has invalid format: "@ + what,
        Fault::PathTraversal(path) => "Path traversal detected: "@ + path,
        Fault::UnauthorizedPath(path) => "Unauthorized path: "@ + path,
    }
}

/// Characters with a meaning to a shell.
pub open spec fn shell_chars() -> Seq<char> {
    seq![
        ';',
        '&',
        '|',
        '$',
        '`',
        '(',
        ')',
        '<',
        '>',
        '\n',
        '\r',
        '*',
        '?',
        '[',
        ']',
        '{',
        '}',
        '~',
        '!',
        '#',
        '%',
    ]
}

/// Characters that may not stand in an argument.
pub open spec fn arg_chars() -> Seq<char> {
    seq![';', '&', '|', '$', '`', '(', ')', '<', '>', '\n', '\r']
}

/// Characters that may not stand in a URL.
pub open spec fn url_chars() -> Seq<char> {
    seq!['\n', '\r', '\0', ' ', '<', '>', '"']
}

/// Characters that may not stand in a header value.
pub open spec fn header_chars() -> Seq<char> {
    seq!['\n', '\r', '\0']
}

/// Whether an absolute path begins with a directory from which commands
/// may be run.
pub open spec fn has_allowed_prefix(path: Seq<char>) -> bool {
    has_prefix(path, "/usr/"@) || has_prefix(path, "/bin/"@) || has_prefix(path, "/sbin/"@)
        || has_prefix(path, "/Applications/"@) || has_prefix(path, "C:\\Program Files\\"@)
        || has_prefix(path, "C:\\Windows\\System32\\"@)
}

/// Whether `c` is an ASCII letter or digit.
pub open spec fn is_ascii_alphanumeric(c: char) -> bool {
    ('a' <= c <= 'z') || ('A' <= c <= 'Z') || ('0' <= c <= '9')
}

/// Whether `c` may stand in a name: a letter or a digit (of any script, or
/// of ASCII only), an underscore, or, where `dash` says so, a hyphen.
pub open spec fn is_name_char(c: char, ascii_only: bool, dash: bool) -> bool {
    (if ascii_only {
        is_ascii_alphanumeric(c)
    } else {
        is_alphanumeric(c)
    }) || c == '_' || (dash && c == '-')
}

/// Whether every character of `text` may stand in a name.
pub open spec fn all_name_chars(text: Seq<char>, ascii_only: bool, dash: bool) -> bool {
    forall|i: int| 0 <= i < text.len() ==> is_name_char(#[trigger] text[i], ascii_only, dash)
}

/// What is wrong with the length of `value`, if anything: it is empty, or
/// takes more than `max_length` bytes.
pub open spec fn length_fault(field: Seq<char>, value: Seq<char>, max_length: nat) -> Option<
    Fault,
> {
    if value.len() == 0 {
        Some(Fault::EmptyField(field))
    } else if byte_len(value) > max_length {
        Some(Fault::InvalidLength(field, byte_len(value)))
    } else {
        None
    }
}

/// What `validate_length` returns.
pub open spec fn checked_length(field: Seq<char>, value: Seq<char>, max_length: nat) -> Result<
    Seq<char>,
    Fault,
> {
    match length_fault(field, value, max_length) {
        Some(fault) => Err(fault),
        None => Ok(value),
    }
}

/// What `validate_command` returns.
pub open spec fn checked_command(cmd: Seq<char>) -> Result<Seq<char>, Fault> {
    let cmd = trimmed(cmd);
    if let Some(fault) = length_fault("Command"@, cmd, MAX_SERVER_NAME_LENGTH as nat) {
        Err(fault)
    } else if contains_any(cmd, shell_chars()) {
        Err(Fault::InvalidCharacters("Command"@, "shell metacharacters"@))
    } else if has_substring(cmd, ".."@) {
        Err(Fault::PathTraversal(cmd))
    } else if has_prefix(cmd, "~/"@) {
        Err(Fault::UnauthorizedPath("home directory"@))
    } else if has_prefix(cmd, "/"@) && !has_allowed_prefix(cmd) {
        Err(Fault::UnauthorizedPath(cmd))
    } else {
        Ok(cmd)
    }
}

/// What `validate_url` returns.
pub open spec fn checked_url(url: Seq<char>) -> Result<Seq<char>, Fault> {
    let url = trimmed(url);
    if let Some(fault) = length_fault("URL"@, url, (MAX_SERVER_NAME_LENGTH * 2) as nat) {
        Err(fault)
    } else if !has_prefix(url, "http://"@) && !has_prefix(url, "https://"@) {
        Err(Fault::InvalidFormat("URL"@, "Only http/https URLs are allowed"@))
    } else if contains_any(url, url_chars()) {
        Err(Fault::InvalidCharacters("URL"@, "control characters or spaces"@))
    } else {
        Ok(url)
    }
}

/// What `validate_env_var_name` returns.
pub open spec fn checked_env_var_name(name: Seq<char>) -> Result<Seq<char>, Fault> {
    let name = trimmed(name);
    if let Some(fault) = length_fault(
        "Environment variable"@,
        name,
        MAX_SERVER_NAME_LENGTH as nat,
    ) {
        Err(fault)
    } else if !all_name_chars(name, false, false) {
        Err(Fault::InvalidCharacters("Environment variable"@, "non-alphanumeric characters"@))
    } else if '0' <= name[0] <= '9' {
        Err(Fault::InvalidFormat("Environment variable"@, "cannot start with a digit"@))
    } else {
        Ok(name)
    }
}

/// What `validate_header_name` returns.
pub open spec fn checked_header_name(name: Seq<char>) -> Result<Seq<char>, Fault> {
    let name = trimmed(name);
    if let Some(fault) = length_fault("Header name"@, name, MAX_HEADER_NAME_LENGTH as nat) {
        Err(fault)
    } else if !all_name_chars(name, true, true) {
        Err(Fault::InvalidCharacters("Header name"@, "invalid characters"@))
    } else {
        Ok(name)
    }
}

/// What `validate_header_value` returns.
pub open spec fn checked_header_value(value: Seq<char>) -> Result<Seq<char>, Fault> {
    let value = trimmed(value);
    if let Some(fault) = length_fault("Header value"@, value, MAX_HEADER_VALUE_LENGTH as nat) {
        Err(fault)
    } else if contains_any(value, header_chars()) {
        Err(Fault::InvalidCharacters("Header value"@, "control characters"@))
    } else {
        Ok(value)
    }
}

/// What `validate_arg` returns.
pub open spec fn checked_arg(arg: Seq<char>) -> Result<Seq<char>, Fault> {
    let arg = trimmed(arg);
    if let Some(fault) = length_fault("Argument"@, arg, MAX_SERVER_NAME_LENGTH as nat) {
        Err(fault)
    } else if contains_any(arg, arg_chars()) {
        Err(Fault::InvalidCharacters("Argument"@, "shell metacharacters"@))
    } else {
        Ok(arg)
    }
}

/// What `validate_server_name` returns.
pub open spec fn checked_server_name(name: Seq<char>) -> Result<Seq<char>, Fault> {
    let name = trimmed(name);
    if let Some(fault) = length_fault("Server name"@, name, MAX_SERVER_NAME_LENGTH as nat) {
        Err(fault)
    } else if !all_name_chars(name, false, true) {
        Err(
            Fault::InvalidCharacters(
                "Server name"@,
                "non-alphanumeric characters except - and _"@,
            ),
        )
    } else {
        Ok(name)
    }
}

/// What becomes of one environment variable: its name must be valid; its
/// value is trimmed and may take no more than `MAX_SERVER_NAME_LENGTH`
/// bytes.
pub open spec fn checked_env_var(key: Seq<char>, value: Seq<char>) -> Result<
    (Seq<char>, Seq<char>),
    Fault,
> {
    match checked_env_var_name(key) {
        Err(fault) => Err(fault),
        Ok(name) => if byte_len(trimmed(value)) > MAX_SERVER_NAME_LENGTH {
            Err(
                Fault::InvalidLength(
                    "Environment variable value for "@ + name,
                    byte_len(trimmed(value)),
                ),
            )
        } else {
            Ok((name, trimmed(value)))
        },
    }
}

/// What becomes of one header: its name and its value must be valid.
pub open spec fn checked_header(key: Seq<char>, value: Seq<char>) -> Result<
    (Seq<char>, Seq<char>),
    Fault,
> {
    match checked_header_name(key) {
        Err(fault) => Err(fault),
        Ok(name) => match checked_header_value(value) {
            Err(fault) => Err(fault),
            Ok(value) => Ok((name, value)),
        },
    }
}

impl ValidationError {
    /// The message that describes this error.
    pub fn message(&self) -> (text: String)
        ensures
            text@ == message_of(self@),
    {
        match self {
            ValidationError::EmptyField(field) => {
                let mut text: String = field.clone();
                text.append(" cannot be empty");
                text
            },
            ValidationError::InvalidCharacters(field, what) => {
                let mut text: String = field.clone();
                text.append(" contains invalid characters: ");
                text.append(what.as_str());
                text
            },
            ValidationError::InvalidLength(field, length) => {
                let mut text: String = field.clone();
                text.append(" length ");
                text.append(decimal(*length).as_str());
                text.append(" exceeds maximum allowed");
                text
            },
            ValidationError::InvalidFormat(field, what) => {
                let mut text: String = field.clone();
                text.append(" has invalid format: ");
                text.append(what.as_str());
                text
            },
            ValidationError::PathTraversal(path) => {
                let mut text: String = "Path traversal detected: ".to_owned();
                text.append(path.as_str());
                text
            },
            ValidationError::UnauthorizedPath(path) => {
                let mut text: String = "Unauthorized path: ".to_owned();
                text.append(path.as_str());
                text
            },
        }
    }
}

/// The characters with a meaning to a shell.
fn shell_char_list() -> (list: Vec<char>)
    ensures
        list@ == shell_chars(),
{
    let list: Vec<char> = vec![
        ';',
        '&',
        '|',
        '$',
        '`',
        '(',
        ')',
        '<',
        '>',
        '\n',
        '\r',
        '*',
        '?',
        '[',
        ']',
        '{',
        '}',
        '~',
        '!',
        '#',
        '%',
    ];
    assert(list@ =~= shell_chars());
    list
}

/// The characters that may not stand in an argument.
fn arg_char_list() -> (list: Vec<char>)
    ensures
        list@ == arg_chars(),
{
    let list: Vec<char> = vec![';', '&', '|', '$', '`', '(', ')', '<', '>', '\n', '\r'];
    assert(list@ =~= arg_chars());
    list
}

/// The characters that may not stand in a URL.
fn url_char_list() -> (list: Vec<char>)
    ensures
        list@ == url_chars(),
{
    let list: Vec<char> = vec!['\n', '\r', '\0', ' ', '<', '>', '"'];
    assert(list@ =~= url_chars());
    list
}

/// The characters that may not stand in a header value.
fn header_char_list() -> (list: Vec<char>)
    ensures
        list@ == header_chars(),
{
    let list: Vec<char> = vec!['\n', '\r', '\0'];
    assert(list@ =~= header_chars());
    list
}

/// Whether `s` holds one of the characters of `dangerous`.
pub fn contains_dangerous_chars(s: &str, dangerous: &[char]) -> (found: bool)
    ensures
        found == contains_any(s@, dangerous@),
{
    holds_any(&chars_of(s), &slice_to_vec(dangerous))
}

/// Whether `text` begins with `prefix`.
fn begins_with(text: &Vec<char>, prefix: &str) -> (yes: bool)
    ensures
        yes == has_prefix(text@, prefix@),
{
    starts_with_at(text, 0, &chars_of(prefix))
}

/// Whether every character of `text` may stand in a name.
fn only_name_chars(text: &Vec<char>, ascii_only: bool, dash: bool) -> (yes: bool)
    ensures
        yes == all_name_chars(text@, ascii_only, dash),
{
    let mut i: usize = 0;
    while i < text.len()
        invariant
            i <= text@.len(),
            forall|j: int| 0 <= j < i ==> is_name_char(#[trigger] text@[j], ascii_only, dash),
        decreases text@.len() - i,
    {
        let c: char = text[i];
        let letter_or_digit: bool = if ascii_only {
            ('a' <= c && c <= 'z') || ('A' <= c && c <= 'Z') || ('0' <= c && c <= '9')
        } else {
            char_is_alphanumeric(c)
        };
        if !(letter_or_digit || c == '_' || (dash && c == '-')) {
            return false;
        }
        i = i + 1;
    }
    true
}

/// Checks that `value` is not empty and takes no more than `max_length`
/// bytes, and returns it.
pub fn validate_length(field: &str, value: &str, max_length: usize) -> (result: Result<
    String,
    ValidationError,
>)
    ensures
        outcome(result) == checked_length(field@, value@, max_length as nat),
{
    if value.is_empty() {
        return Err(ValidationError::EmptyField(field.to_owned()));
    }
    let length: usize = value.as_bytes().len();
    if length > max_length {
        return Err(ValidationError::InvalidLength(field.to_owned(), length));
    }
    Ok(value.to_owned())
}

/// Screens the command of a server: trimmed, not empty, at most
/// `MAX_SERVER_NAME_LENGTH` bytes, free of shell metacharacters and of
/// `..`, not under the home directory, and, where it is an absolute path,
/// under one of the allowed directories. Returns the trimmed command.
pub fn validate_command(cmd: &str) -> (result: Result<String, ValidationError>)
    ensures
        outcome(result) == checked_command(cmd@),
{
    let cmd: String = trim(cmd);
    match validate_length("Command", cmd.as_str(), MAX_SERVER_NAME_LENGTH) {
        Err(error) => {
            return Err(error);
        },
        Ok(_) => {},
    }
    let chars = chars_of(cmd.as_str());
    if holds_any(&chars, &shell_char_list()) {
        return Err(
            ValidationError::InvalidCharacters(
                "Command".to_owned(),
                "shell metacharacters".to_owned(),
            ),
        );
    }
    if find_in(&chars, &chars_of(".."), 0).is_some() {
        return Err(ValidationError::PathTraversal(cmd));
    }
    if begins_with(&chars, "~/") {
        return Err(ValidationError::UnauthorizedPath("home directory".to_owned()));
    }
    if begins_with(&chars, "/") && !(begins_with(&chars, "/usr/") || begins_with(&chars, "/bin/")
        || begins_with(&chars, "/sbin/") || begins_with(&chars, "/Applications/") || begins_with(
        &chars,
        "C:\\Program Files\\",
    ) || begins_with(&chars, "C:\\Windows\\System32\\")) {
        return Err(ValidationError::UnauthorizedPath(cmd));
    }
    Ok(cmd)
}

/// Screens a URL: trimmed, not empty, at most twice
/// `MAX_SERVER_NAME_LENGTH` bytes, `http` or `https`, and free of control
/// characters, spaces, angle brackets and quotes. Returns the trimmed URL.
pub fn validate_url(url: &str) -> (result: Result<String, ValidationError>)
    ensures
        outcome(result) == checked_url(url@),
{
    let url: String = trim(url);
    match validate_length("URL", url.as_str(), MAX_SERVER_NAME_LENGTH * 2) {
        Err(error) => {
            return Err(error);
        },
        Ok(_) => {},
    }
    let chars = chars_of(url.as_str());
    if !begins_with(&chars, "http://") && !begins_with(&chars, "https://") {
        return Err(
            ValidationError::InvalidFormat(
                "URL".to_owned(),
                "Only http/https URLs are allowed".to_owned(),
            ),
        );
    }
    if holds_any(&chars, &url_char_list()) {
        return Err(
            ValidationError::InvalidCharacters(
                "URL".to_owned(),
                "control characters or spaces".to_owned(),
            ),
        );
    }
    Ok(url)
}

/// Screens the name of an environment variable: trimmed, not empty, at
/// most `MAX_SERVER_NAME_LENGTH` bytes, made of letters, digits and
/// underscores, and not starting with a digit. Returns the trimmed name.
pub fn validate_env_var_name(name: &str) -> (result: Result<String, ValidationError>)
    ensures
        outcome(result) == checked_env_var_name(name@),
{
    let name: String = trim(name);
    match validate_length("Environment variable", name.as_str(), MAX_SERVER_NAME_LENGTH) {
        Err(error) => {
            return Err(error);
        },
        Ok(_) => {},
    }
    let chars = chars_of(name.as_str());
    if !only_name_chars(&chars, false, false) {
        return Err(
            ValidationError::InvalidCharacters(
                "Environment variable".to_owned(),
                "non-alphanumeric characters".to_owned(),
            ),
        );
    }
    let first: char = chars[0];
    if '0' <= first && first <= '9' {
        return Err(
            ValidationError::InvalidFormat(
                "Environment variable".to_owned(),
                "cannot start with a digit".to_owned(),
            ),
        );
    }
    Ok(name)
}

/// Screens the name of a header: trimmed, not empty, at most
/// `MAX_HEADER_NAME_LENGTH` bytes, made of ASCII letters and digits,
/// hyphens and underscores. Returns the trimmed name.
pub fn validate_header_name(name: &str) -> (result: Result<String, ValidationError>)
    ensures
        outcome(result) == checked_header_name(name@),
{
    let name: String = trim(name);
    match validate_length("Header name", name.as_str(), MAX_HEADER_NAME_LENGTH) {
        Err(error) => {
            return Err(error);
        },
        Ok(_) => {},
    }
    if !only_name_chars(&chars_of(name.as_str()), true, true) {
        return Err(
            ValidationError::InvalidCharacters(
                "Header name".to_owned(),
                "invalid characters".to_owned(),
            ),
        );
    }
    Ok(name)
}

/// Screens the value of a header: trimmed, not empty, at most
/// `MAX_HEADER_VALUE_LENGTH` bytes, free of line breaks and NUL. Returns
/// the trimmed value.
pub fn validate_header_value(value: &str) -> (result: Result<String, ValidationError>)
    ensures
        outcome(result) == checked_header_value(value@),
{
    let value: String = trim(value);
    match validate_length("Header value", value.as_str(), MAX_HEADER_VALUE_LENGTH) {
        Err(error) => {
            return Err(error);
        },
        Ok(_) => {},
    }
    if holds_any(&chars_of(value.as_str()), &header_char_list()) {
        return Err(
            ValidationError::InvalidCharacters(
                "Header value".to_owned(),
                "control characters".to_owned(),
            ),
        );
    }
    Ok(value)
}

/// Screens an argument of a command: trimmed, not empty, at most
/// `MAX_SERVER_NAME_LENGTH` bytes, free of the characters with which a
/// shell chains, substitutes and redirects. Returns the trimmed argument.
pub fn validate_arg(arg: &str) -> (result: Result<String, ValidationError>)
    ensures
        outcome(result) == checked_arg(arg@),
{
    let arg: String = trim(arg);
    match validate_length("Argument", arg.as_str(), MAX_SERVER_NAME_LENGTH) {
        Err(error) => {
            return Err(error);
        },
        Ok(_) => {},
    }
    if holds_any(&chars_of(arg.as_str()), &arg_char_list()) {
        return Err(
            ValidationError::InvalidCharacters(
                "Argument".to_owned(),
                "shell metacharacters".to_owned(),
            ),
        );
    }
    Ok(arg)
}

/// Screens the name of a server: trimmed, not empty, at most
/// `MAX_SERVER_NAME_LENGTH` bytes, made of letters, digits, hyphens and
/// underscores. Returns the trimmed name.
pub fn validate_server_name(name: &str) -> (result: Result<String, ValidationError>)
    ensures
        outcome(result) == checked_server_name(name@),
{
    let name: String = trim(name);
    match validate_length("Server name", name.as_str(), MAX_SERVER_NAME_LENGTH) {
        Err(error) => {
            return Err(error);
        },
        Ok(_) => {},
    }
    if !only_name_chars(&chars_of(name.as_str()), false, true) {
        return Err(
            ValidationError::InvalidCharacters(
                "Server name".to_owned(),
                "non-alphanumeric characters except - and _".to_owned(),
            ),
        );
    }
    Ok(name)
}

/// Screens one environment variable.
pub fn validate_env_var(key: &str, value: &str) -> (result: Result<
    (String, String),
    ValidationError,
>)
    ensures
        match result {
            Ok(pair) => checked_env_var(key@, value@) == Ok::<(Seq<char>, Seq<char>), Fault>(
                (pair.0@, pair.1@),
            ),
            Err(error) => checked_env_var(key@, value@) == Err::<(Seq<char>, Seq<char>), Fault>(
                error@,
            ),
        },
{
    let name: String = match validate_env_var_name(key) {
        Ok(name) => name,
        Err(error) => {
            return Err(error);
        },
    };
    let value: String = trim(value);
    let length: usize = value.as_str().as_bytes().len();
    if length > MAX_SERVER_NAME_LENGTH {
        let mut field: String = "Environment variable value for ".to_owned();
        field.append(name.as_str());
        return Err(ValidationError::InvalidLength(field, length));
    }
    Ok((name, value))
}

/// Screens one header.
pub fn validate_header(key: &str, value: &str) -> (result: Result<
    (String, String),
    ValidationError,
>)
    ensures
        match result {
            Ok(pair) => checked_header(key@, value@) == Ok::<(Seq<char>, Seq<char>), Fault>(
                (pair.0@, pair.1@),
            ),
            Err(error) => checked_header(key@, value@) == Err::<(Seq<char>, Seq<char>), Fault>(
                error@,
            ),
        },
{
    let name: String = match validate_header_name(key) {
        Ok(name) => name,
        Err(error) => {
            return Err(error);
        },
    };
    let value: String = match validate_header_value(value) {
        Ok(value) => value,
        Err(error) => {
            return Err(error);
        },
    };
    Ok((name, value))
}

/// Pairs of texts as plain text.
pub open spec fn pairs_of(pairs: Seq<(String, String)>) -> Seq<(Seq<char>, Seq<char>)> {
    Seq::new(pairs.len(), |i: int| (pairs[i].0@, pairs[i].1@))
}

/// The result of the validation of a list of pairs as plain text.
pub open spec fn pairs_outcome(result: Result<Vec<(String, String)>, ValidationError>) -> Result<
    Seq<(Seq<char>, Seq<char>)>,
    Fault,
> {
    match result {
        Ok(pairs) => Ok(pairs_of(pairs@)),
        Err(error) => Err(error@),
    }
}

/// Pairs that are screened already, followed by those that are still to
/// come, unless one of these has a fault.
pub open spec fn and_then(
    done: Seq<(Seq<char>, Seq<char>)>,
    rest: Result<Seq<(Seq<char>, Seq<char>)>, Fault>,
) -> Result<Seq<(Seq<char>, Seq<char>)>, Fault> {
    match rest {
        Ok(more) => Ok(done + more),
        Err(fault) => Err(fault),
    }
}

/// The environment variables, each screened, in their order; or the fault
/// of the first that has one.
pub open spec fn each_env_var(env: Seq<(Seq<char>, Seq<char>)>) -> Result<
    Seq<(Seq<char>, Seq<char>)>,
    Fault,
>
    decreases env.len(),
{
    if env.len() == 0 {
        Ok(Seq::empty())
    } else {
        match checked_env_var(env[0].0, env[0].1) {
            Err(fault) => Err(fault),
            Ok(pair) => and_then(seq![pair], each_env_var(env.drop_first())),
        }
    }
}

/// The headers, each screened, in their order; or the fault of the first
/// that has one.
pub open spec fn each_header(headers: Seq<(Seq<char>, Seq<char>)>) -> Result<
    Seq<(Seq<char>, Seq<char>)>,
    Fault,
>
    decreases headers.len(),
{
    if headers.len() == 0 {
        Ok(Seq::empty())
    } else {
        match checked_header(headers[0].0, headers[0].1) {
            Err(fault) => Err(fault),
            Ok(pair) => and_then(seq![pair], each_header(headers.drop_first())),
        }
    }
}

/// What `validate_env_vars` returns.
pub open spec fn checked_env_vars(env: Seq<(Seq<char>, Seq<char>)>) -> Result<
    Seq<(Seq<char>, Seq<char>)>,
    Fault,
> {
    if env.len() > MAX_ENV_VARS {
        Err(Fault::InvalidLength("Environment variables"@, env.len()))
    } else {
        each_env_var(env)
    }
}

/// What `validate_headers` returns.
pub open spec fn checked_headers(headers: Seq<(Seq<char>, Seq<char>)>) -> Result<
    Seq<(Seq<char>, Seq<char>)>,
    Fault,
> {
    if headers.len() > MAX_HEADERS {
        Err(Fault::InvalidLength("Headers"@, headers.len()))
    } else {
        each_header(headers)
    }
}

/// Screens the environment of a server, given as pairs of name and value
/// in the order in which they are to be checked: no more than
/// `MAX_ENV_VARS` pairs, each of them valid. Returns the screened pairs in
/// the same order, or the fault of the first pair that has one.
pub fn validate_env_vars(env: &Vec<(String, String)>) -> (result: Result<
    Vec<(String, String)>,
    ValidationError,
>)
    ensures
        pairs_outcome(result) == checked_env_vars(pairs_of(env@)),
{
    if env.len() > MAX_ENV_VARS {
        return Err(ValidationError::InvalidLength("Environment variables".to_owned(), env.len()));
    }
    let ghost all = pairs_of(env@);
    let mut validated_env: Vec<(String, String)> = Vec::with_capacity(env.len());
    let mut i: usize = 0;
    proof {
        assert(all.skip(0) =~= all);
        assert(pairs_of(validated_env@) =~= Seq::<(Seq<char>, Seq<char>)>::empty());
        match each_env_var(all) {
            Ok(more) => {
                assert(pairs_of(validated_env@) + more =~= more);
            },
            Err(_) => {},
        }
    }
    while i < env.len()
        invariant
            i <= env@.len(),
            env@.len() <= MAX_ENV_VARS,
            all == pairs_of(env@),
            each_env_var(all) == and_then(pairs_of(validated_env@), each_env_var(all.skip(i as int))),
        decreases env@.len() - i,
    {
        let ghost rest = all.skip(i as int);
        let ghost so_far = pairs_of(validated_env@);
        assert(rest[0] == all[i as int]);
        assert(rest.drop_first() =~= all.skip(i + 1));
        match validate_env_var(env[i].0.as_str(), env[i].1.as_str()) {
            Ok(pair) => {
                validated_env.push(pair);
                proof {
                    let screened = (pair.0@, pair.1@);
                    assert(pairs_of(validated_env@) =~= so_far.push(screened));
                    match each_env_var(rest.drop_first()) {
                        Ok(more) => {
                            assert(so_far + (seq![screened] + more) =~= so_far.push(screened) + more);
                        },
                        Err(_) => {},
                    }
                }
            },
            Err(error) => {
                return Err(error);
            },
        }
        i = i + 1;
    }
    proof {
        assert(all.skip(i as int) =~= Seq::<(Seq<char>, Seq<char>)>::empty());
        assert(pairs_of(validated_env@) + Seq::<(Seq<char>, Seq<char>)>::empty() =~= pairs_of(
            validated_env@,
        ));
    }
    Ok(validated_env)
}

/// Screens the headers of a server, given as pairs of name and value in
/// the order in which they are to be checked: no more than `MAX_HEADERS`
/// pairs, each of them valid. Returns the screened pairs in the same
/// order, or the fault of the first pair that has one.
pub fn validate_headers(headers: &Vec<(String, String)>) -> (result: Result<
    Vec<(String, String)>,
    ValidationError,
>)
    ensures
        pairs_outcome(result) == checked_headers(pairs_of(headers@)),
{
    if headers.len() > MAX_HEADERS {
        return Err(ValidationError::InvalidLength("Headers".to_owned(), headers.len()));
    }
    let ghost all = pairs_of(headers@);
    let mut validated_headers: Vec<(String, String)> = Vec::with_capacity(headers.len());
    let mut i: usize = 0;
    proof {
        assert(all.skip(0) =~= all);
        assert(pairs_of(validated_headers@) =~= Seq::<(Seq<char>, Seq<char>)>::empty());
        match each_header(all) {
            Ok(more) => {
                assert(pairs_of(validated_headers@) + more =~= more);
            },
            Err(_) => {},
        }
    }
    while i < headers.len()
        invariant
            i <= headers@.len(),
            headers@.len() <= MAX_HEADERS,
            all == pairs_of(headers@),
            each_header(all) == and_then(
                pairs_of(validated_headers@),
                each_header(all.skip(i as int)),
            ),
        decreases headers@.len() - i,
    {
        let ghost rest = all.skip(i as int);
        let ghost so_far = pairs_of(validated_headers@);
        assert(rest[0] == all[i as int]);
        assert(rest.drop_first() =~= all.skip(i + 1));
        match validate_header(headers[i].0.as_str(), headers[i].1.as_str()) {
            Ok(pair) => {
                validated_headers.push(pair);
                proof {
                    let screened = (pair.0@, pair.1@);
                    assert(pairs_of(validated_headers@) =~= so_far.push(screened));
                    match each_header(rest.drop_first()) {
                        Ok(more) => {
                            assert(so_far + (seq![screened] + more) =~= so_far.push(screened) + more);
                        },
                        Err(_) => {},
                    }
                }
            },
            Err(error) => {
                return Err(error);
            },
        }
        i = i + 1;
    }
    proof {
        assert(all.skip(i as int) =~= Seq::<(Seq<char>, Seq<char>)>::empty());
        assert(pairs_of(validated_headers@) + Seq::<(Seq<char>, Seq<char>)>::empty() =~= pairs_of(
            validated_headers@,
        ));
    }
    Ok(validated_headers)
}

} // verus!
