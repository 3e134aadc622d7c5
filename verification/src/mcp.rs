//! Server definitions of the command-line tool that manages them: what is
//! handed to the tool, and what is read out of its reports.

use crate::text::{
    chars_of, find_from, find_in, has_prefix, has_substring, holds_text,
    lines_of, lowercase_of, remove_all, slice_of, split_lines, split_words, starts_with_at,
    same_text, set_holds, string_of, to_lowercase, trimmed, trimmed_chars, without, words_of,
};
use crate::validation::{
    checked_arg, checked_command, checked_env_var_name, checked_header_name, checked_header_value,
    checked_server_name, checked_url, message_of, pairs_of, validate_arg, validate_command,
    validate_env_var_name, validate_header_name, validate_header_value, validate_server_name,
    validate_url, ValidationError,
};
use std::collections::HashMap;
use vstd::prelude::*;
use vstd::string::*;

verus! {

/// Whether a server is reachable, as last seen.
#[derive(Debug, Clone)]
pub struct ServerStatus {
    /// Whether the server is running.
    pub running: bool,
    /// Last error message, if any.
    pub error: Option<String>,
    /// When the status was taken, in seconds since the start of 1970.
    pub last_checked: Option<u64>,
}

/// A configured server.
#[derive(Debug, Clone)]
pub struct MCPServer {
    /// Name of the server.
    pub name: String,
    /// Transport: "stdio" or "sse".
    pub transport: String,
    /// Command to run (stdio).
    pub command: Option<String>,
    /// Arguments of the command (stdio).
    pub args: Vec<String>,
    /// Environment variables.
    pub env: HashMap<String, String>,
    /// Endpoint (SSE).
    pub url: Option<String>,
    /// HTTP headers (SSE).
    pub headers: HashMap<String, String>,
    /// Scope of the definition: "local", "project" or "user".
    pub scope: String,
    /// Whether the server is active.
    pub is_active: bool,
    /// Status of the server.
    pub status: ServerStatus,
    /// Tools that the server offers.
    pub tools: Option<Vec<String>>,
}

/// How the attempt to add a server ended.
#[derive(Debug, Clone)]
pub struct AddServerResult {
    pub success: bool,
    pub message: String,
    pub server_name: Option<String>,
}

/// `text` up to the first occurrence of `pattern`, trimmed; nothing where
/// `pattern` does not occur.
pub open spec fn cut_before(text: Seq<char>, pattern: Seq<char>) -> Option<Seq<char>> {
    match find_from(text, pattern, 0) {
        Some(at) => Some(trimmed(text.take(at))),
        None => None,
    }
}

/// The marks that a report puts behind a command to say whether the
/// server answered, the longer ones first.
pub open spec fn status_marks() -> Seq<Seq<char>> {
    seq![
        " - \u{2713} Connected"@,
        " - \u{2717} Failed to connect"@,
        " - \u{2713} connected"@,
        " - \u{2717} failed"@,
        " - \u{2713}"@,
        " - \u{2717}"@,
    ]
}

/// `text` cut before the first of `marks` that occurs in it.
pub open spec fn cut_at_first_mark(text: Seq<char>, marks: Seq<Seq<char>>) -> Seq<char>
    decreases marks.len(),
{
    if marks.len() == 0 {
        text
    } else {
        match cut_before(text, marks[0]) {
            Some(kept) => kept,
            None => cut_at_first_mark(text, marks.drop_first()),
        }
    }
}

/// A command as a report shows it, without the status mark behind it.
pub open spec fn cleaned_command(command: Seq<char>) -> Seq<char> {
    let first = cut_at_first_mark(command, status_marks());
    match cut_before(first, " - \u{2713}"@) {
        Some(kept) => kept,
        None => match cut_before(first, " - \u{2717}"@) {
            Some(kept) => kept,
            None => first,
        },
    }
}

/// `chars` up to the first occurrence of `pattern`, trimmed.
fn cut_chars_before(chars: &Vec<char>, pattern: &str) -> (kept: Option<Vec<char>>)
    ensures
        match kept {
            Some(kept) => cut_before(chars@, pattern@) == Some(kept@),
            None => cut_before(chars@, pattern@) is None,
        },
{
    match find_in(chars, &chars_of(pattern), 0) {
        Some(at) => {
            assert(chars@.take(at as int) =~= chars@.subrange(0, at as int));
            Some(trimmed_chars(&slice_of(chars, 0, at)))
        },
        None => None,
    }
}

/// The status marks, the longer ones first.
fn status_mark_list() -> (marks: Vec<&'static str>)
    ensures
        marks@.len() == status_marks().len(),
        forall|i: int| 0 <= i < marks@.len() ==> (#[trigger] marks@[i])@ == status_marks()[i],
{
    vec![
        " - \u{2713} Connected",
        " - \u{2717} Failed to connect",
        " - \u{2713} connected",
        " - \u{2717} failed",
        " - \u{2713}",
        " - \u{2717}",
    ]
}

/// `chars` cut before the first of the status marks that occurs in it.
fn cut_chars_at_first_mark(chars: Vec<char>) -> (kept: Vec<char>)
    ensures
        kept@ == cut_at_first_mark(chars@, status_marks()),
{
    let marks = status_mark_list();
    let mut i: usize = 0;
    assert(status_marks().skip(0) =~= status_marks());
    while i < marks.len()
        invariant
            i <= marks@.len(),
            marks@.len() == status_marks().len(),
            forall|k: int| 0 <= k < marks@.len() ==> (#[trigger] marks@[k])@ == status_marks()[k],
            cut_at_first_mark(chars@, status_marks()) == cut_at_first_mark(
                chars@,
                status_marks().skip(i as int),
            ),
        decreases marks@.len() - i,
    {
        let ghost rest = status_marks().skip(i as int);
        assert(rest[0] == status_marks()[i as int]);
        assert(rest.drop_first() =~= status_marks().skip(i + 1));
        match cut_chars_before(&chars, marks[i]) {
            Some(kept) => {
                return kept;
            },
            None => {},
        }
        i = i + 1;
    }
    assert(status_marks().skip(i as int) =~= Seq::<Seq<char>>::empty());
    chars
}

/// Takes the status mark, and what follows it, off a command as a report
/// shows it.
pub fn clean_command_string(command: &str) -> (cleaned: String)
    ensures
        cleaned@ == cleaned_command(command@),
{
    let result: Vec<char> = cut_chars_at_first_mark(chars_of(command));
    let cleaned: Vec<char> = match cut_chars_before(&result, " - \u{2713}") {
        Some(kept) => kept,
        None => match cut_chars_before(&result, " - \u{2717}") {
            Some(kept) => kept,
            None => result,
        },
    };
    string_of(&cleaned, 0, cleaned.len())
}

/// The name of a server as it stands in the name of a tool: blanks and
/// hyphens become underscores.
pub open spec fn slug_of(name: Seq<char>) -> Seq<char> {
    Seq::new(
        name.len(),
        |i: int|
            if name[i] == ' ' || name[i] == '-' {
                '_'
            } else {
                name[i]
            },
    )
}

/// The operations that a server is taken to offer, judged by what its
/// name, in lower case, holds. This is a guess from naming habits, no
/// knowledge of the server.
pub open spec fn tool_suffixes(lower: Seq<char>) -> Seq<Seq<char>> {
    if has_substring(lower, "postgres"@) || has_substring(lower, "postgresql"@) || has_substring(
        lower,
        "db"@,
    ) {
        seq!["query"@, "connect"@, "list_tables"@, "describe"@, "execute"@]
    } else if has_substring(lower, "git"@) || has_substring(lower, "github"@) || has_substring(
        lower,
        "version"@,
    ) {
        seq!["status"@, "commit"@, "push"@, "pull"@, "branch"@, "create_issue"@]
    } else if has_substring(lower, "fs"@) || has_substring(lower, "file"@) || has_substring(
        lower,
        "storage"@,
    ) {
        seq!["read"@, "write"@, "delete"@, "list"@, "search"@]
    } else if has_substring(lower, "http"@) || has_substring(lower, "web"@) || has_substring(
        lower,
        "api"@,
    ) {
        seq!["get"@, "post"@, "put"@, "delete"@, "list"@]
    } else if has_substring(lower, "docker"@) || has_substring(lower, "container"@) {
        seq!["run"@, "stop"@, "list"@, "logs"@, "build"@]
    } else if has_substring(lower, "search"@) || has_substring(lower, "find"@) {
        seq!["search"@, "filter"@, "sort"@, "group"@]
    } else {
        seq!["execute"@]
    }
}

/// The name of the tool of a server for one operation.
pub open spec fn tool_name(slug: Seq<char>, suffix: Seq<char>) -> Seq<char> {
    "mcp__"@ + slug + "__"@ + suffix
}

/// The tools that a server of this name is taken to offer.
pub open spec fn tools_for(name: Seq<char>) -> Seq<Seq<char>> {
    let suffixes = tool_suffixes(lowercase_of(name));
    Seq::new(suffixes.len(), |i: int| tool_name(slug_of(name), suffixes[i]))
}

/// The operations that a server is taken to offer.
fn suffix_list(lower: &Vec<char>) -> (list: Vec<&'static str>)
    ensures
        list@.len() == tool_suffixes(lower@).len(),
        forall|i: int| 0 <= i < list@.len() ==> (#[trigger] list@[i])@ == tool_suffixes(lower@)[i],
{
    if holds_text(lower, "postgres") || holds_text(lower, "postgresql") || holds_text(lower, "db") {
        vec!["query", "connect", "list_tables", "describe", "execute"]
    } else if holds_text(lower, "git") || holds_text(lower, "github") || holds_text(
        lower,
        "version",
    ) {
        vec!["status", "commit", "push", "pull", "branch", "create_issue"]
    } else if holds_text(lower, "fs") || holds_text(lower, "file") || holds_text(lower, "storage") {
        vec!["read", "write", "delete", "list", "search"]
    } else if holds_text(lower, "http") || holds_text(lower, "web") || holds_text(lower, "api") {
        vec!["get", "post", "put", "delete", "list"]
    } else if holds_text(lower, "docker") || holds_text(lower, "container") {
        vec!["run", "stop", "list", "logs", "build"]
    } else if holds_text(lower, "search") || holds_text(lower, "find") {
        vec!["search", "filter", "sort", "group"]
    } else {
        vec!["execute"]
    }
}

/// The name of a server as it stands in the name of a tool.
fn slug(name: &Vec<char>) -> (slug: String)
    ensures
        slug@ == slug_of(name@),
{
    let mut chars: Vec<char> = Vec::new();
    let mut i: usize = 0;
    while i < name.len()
        invariant
            i <= name@.len(),
            chars@.len() == i,
            forall|k: int| 0 <= k < i ==> chars@[k] == slug_of(name@)[k],
        decreases name@.len() - i,
    {
        let c: char = name[i];
        chars.push(
            if c == ' ' || c == '-' {
                '_'
            } else {
                c
            },
        );
        i = i + 1;
    }
    assert(chars@ =~= slug_of(name@));
    assert(chars@.subrange(0, chars@.len() as int) =~= chars@);
    string_of(&chars, 0, chars.len())
}

/// The tools that a server of this name is taken to offer: a guess from
/// what the name holds, for when the server cannot be asked.
pub fn generate_mcp_tools_for_server(server_name: &str) -> (tools: Vec<String>)
    ensures
        tools@.len() == tools_for(server_name@).len(),
        forall|i: int| 0 <= i < tools@.len() ==> (#[trigger] tools@[i])@ == tools_for(
            server_name@,
        )[i],
{
    let name_lower: String = to_lowercase(server_name);
    let name_slug: String = slug(&chars_of(server_name));
    let suffixes = suffix_list(&chars_of(name_lower.as_str()));
    let mut tools: Vec<String> = Vec::new();
    let mut i: usize = 0;
    while i < suffixes.len()
        invariant
            i <= suffixes@.len(),
            name_slug@ == slug_of(server_name@),
            suffixes@.len() == tool_suffixes(lowercase_of(server_name@)).len(),
            forall|k: int|
                0 <= k < suffixes@.len() ==> (#[trigger] suffixes@[k])@ == tool_suffixes(
                    lowercase_of(server_name@),
                )[k],
            tools@.len() == i,
            forall|k: int| 0 <= k < i ==> (#[trigger] tools@[k])@ == tools_for(server_name@)[k],
        decreases suffixes@.len() - i,
    {
        let mut tool: String = "mcp__".to_owned();
        tool.append(name_slug.as_str());
        tool.append("__");
        tool.append(suffixes[i]);
        tools.push(tool);
        i = i + 1;
    }
    tools
}

/// The name that a line of a listing gives to a server: what stands before
/// its first colon, trimmed, unless that holds a slash or a backslash, as
/// a path would. A line without colon names nothing.
pub open spec fn entry_name(line: Seq<char>) -> Option<Seq<char>> {
    match find_from(line, ":"@, 0) {
        None => None,
        Some(at) => {
            let name = trimmed(line.take(at));
            if has_substring(name, "/"@) || has_substring(name, "\\"@) {
                None
            } else {
                Some(name)
            }
        },
    }
}

/// The names of the servers that `lines` list. Before the first server
/// any line that names one counts, also with an empty name; after it, the
/// lines with an empty name continue the entry above them, as do the
/// lines that name nothing.
pub open spec fn names_in(lines: Seq<Seq<char>>, started: bool) -> Seq<Seq<char>>
    decreases lines.len(),
{
    if lines.len() == 0 {
        Seq::empty()
    } else {
        match entry_name(lines[0]) {
            Some(name) => if !started || name.len() > 0 {
                seq![name] + names_in(lines.drop_first(), true)
            } else {
                names_in(lines.drop_first(), started)
            },
            None => names_in(lines.drop_first(), started),
        }
    }
}

/// The names of the servers that a listing shows.
pub open spec fn server_names(output: Seq<char>) -> Seq<Seq<char>> {
    let listing = trimmed(output);
    if listing.len() == 0 || has_substring(listing, "No MCP servers configured"@) {
        Seq::empty()
    } else {
        names_in(split_lines(listing), false)
    }
}

/// The name that a line of a listing gives to a server.
fn name_on_line(line: &Vec<char>) -> (name: Option<Vec<char>>)
    ensures
        match name {
            Some(name) => entry_name(line@) == Some(name@),
            None => entry_name(line@) is None,
        },
{
    match find_in(line, &chars_of(":"), 0) {
        None => None,
        Some(at) => {
            assert(line@.take(at as int) =~= line@.subrange(0, at as int));
            let name = trimmed_chars(&slice_of(line, 0, at));
            if holds_text(&name, "/") || holds_text(&name, "\\") {
                None
            } else {
                Some(name)
            }
        },
    }
}

/// Reads the names of the servers out of a listing: one per entry, in the
/// order of the listing. A listing that is blank, or says that no server
/// is configured, names none.
pub fn parse_server_names(output: &str) -> (names: Vec<String>)
    ensures
        names@.len() == server_names(output@).len(),
        forall|i: int| 0 <= i < names@.len() ==> (#[trigger] names@[i])@ == server_names(output@)[i],
{
    let listing: Vec<char> = trimmed_chars(&chars_of(output));
    let mut names: Vec<String> = Vec::new();
    if listing.len() == 0 || holds_text(&listing, "No MCP servers configured") {
        return names;
    }
    let lines = lines_of(&listing);
    let ghost all = split_lines(listing@);
    let ghost mut done: Seq<Seq<char>> = Seq::empty();
    let mut started: bool = false;
    let mut i: usize = 0;
    assert(all.skip(0) =~= all);
    while i < lines.len()
        invariant
            i <= lines@.len(),
            lines@.len() == all.len(),
            forall|k: int| 0 <= k < lines@.len() ==> (#[trigger] lines@[k])@ == all[k],
            done.len() == names@.len(),
            forall|k: int| 0 <= k < names@.len() ==> (#[trigger] names@[k])@ == done[k],
            names_in(all, false) == done + names_in(all.skip(i as int), started),
        decreases lines@.len() - i,
    {
        let ghost rest = all.skip(i as int);
        assert(rest[0] == all[i as int]);
        assert(rest.drop_first() =~= all.skip(i + 1));
        match name_on_line(&lines[i]) {
            Some(name) => {
                if !started || name.len() > 0 {
                    assert(name@.subrange(0, name@.len() as int) =~= name@);
                    names.push(string_of(&name, 0, name.len()));
                    proof {
                        assert(done + (seq![name@] + names_in(rest.drop_first(), true)) =~= done.push(
                            name@,
                        ) + names_in(rest.drop_first(), true));
                        done = done.push(name@);
                    }
                    started = true;
                }
            },
            None => {},
        }
        i = i + 1;
    }
    assert(all.skip(i as int) =~= Seq::<Seq<char>>::empty());
    assert(done + Seq::<Seq<char>>::empty() =~= done);
    names
}

/// What a report on one server says.
#[derive(Debug)]
pub struct ServerDetails {
    pub scope: String,
    pub transport: String,
    pub command: Option<String>,
    pub args: Vec<String>,
    pub url: Option<String>,
    pub is_connected: bool,
    pub status_error: Option<String>,
}

/// `ServerDetails` as plain text.
pub struct DetailsView {
    pub scope: Seq<char>,
    pub transport: Seq<char>,
    pub command: Option<Seq<char>>,
    pub args: Seq<Seq<char>>,
    pub url: Option<Seq<char>>,
    pub is_connected: bool,
    pub status_error: Option<Seq<char>>,
}

/// An optional text as plain text.
pub open spec fn text_of(text: Option<String>) -> Option<Seq<char>> {
    match text {
        Some(text) => Some(text@),
        None => None,
    }
}

/// A list of texts as plain text.
pub open spec fn texts_of(texts: Seq<String>) -> Seq<Seq<char>> {
    Seq::new(texts.len(), |i: int| texts[i]@)
}

impl View for ServerDetails {
    type V = DetailsView;

    /// The details as plain text.
    open spec fn view(&self) -> DetailsView {
        DetailsView {
            scope: self.scope@,
            transport: self.transport@,
            command: text_of(self.command),
            args: texts_of(self.args@),
            url: text_of(self.url),
            is_connected: self.is_connected,
            status_error: text_of(self.status_error),
        }
    }
}

/// What is assumed of a server until its report says otherwise.
pub open spec fn initial_details() -> DetailsView {
    DetailsView {
        scope: "local"@,
        transport: "stdio"@,
        command: None,
        args: Seq::empty(),
        url: None,
        is_connected: false,
        status_error: None,
    }
}

/// What a line says behind its label: the line without the label, trimmed.
pub open spec fn field_value(line: Seq<char>, label: Seq<char>) -> Seq<char> {
    trimmed(without(line, label))
}

/// The scope that a description of a scope, in lower case, names.
pub open spec fn scope_named(lower: Seq<char>) -> Option<Seq<char>> {
    if has_substring(lower, "local"@) {
        Some("local"@)
    } else if has_substring(lower, "project"@) {
        Some("project"@)
    } else if has_substring(lower, "user"@) || has_substring(lower, "global"@) {
        Some("user"@)
    } else {
        None
    }
}

/// The details after one more line of the report has been read. A line is
/// read by the label it begins with, once trimmed; a line with no known
/// label changes nothing.
pub open spec fn after_line(details: DetailsView, raw: Seq<char>) -> DetailsView {
    let line = trimmed(raw);
    if has_prefix(line, "Scope:"@) {
        match scope_named(lowercase_of(field_value(line, "Scope:"@))) {
            Some(scope) => DetailsView { scope, ..details },
            None => details,
        }
    } else if has_prefix(line, "Status:"@) {
        let status = field_value(line, "Status:"@);
        if has_substring(status, "\u{2713}"@) || has_substring(lowercase_of(status), "connected"@) {
            DetailsView { is_connected: true, ..details }
        } else if has_substring(status, "\u{2717}"@) || has_substring(
            lowercase_of(status),
            "failed"@,
        ) {
            DetailsView { is_connected: false, status_error: Some(status), ..details }
        } else {
            details
        }
    } else if has_prefix(line, "Type:"@) {
        DetailsView { transport: field_value(line, "Type:"@), ..details }
    } else if has_prefix(line, "Command:"@) {
        DetailsView { command: Some(field_value(line, "Command:"@)), ..details }
    } else if has_prefix(line, "Args:"@) {
        if field_value(line, "Args:"@).len() > 0 {
            DetailsView { args: split_words(field_value(line, "Args:"@)), ..details }
        } else {
            details
        }
    } else if has_prefix(line, "URL:"@) {
        DetailsView { url: Some(field_value(line, "URL:"@)), ..details }
    } else {
        details
    }
}

/// The details after all of `lines` have been read, in order.
pub open spec fn details_after(details: DetailsView, lines: Seq<Seq<char>>) -> DetailsView
    decreases lines.len(),
{
    if lines.len() == 0 {
        details
    } else {
        after_line(details_after(details, lines.drop_last()), lines.last())
    }
}

/// What a report on one server says.
pub open spec fn server_details(output: Seq<char>) -> DetailsView {
    details_after(initial_details(), split_lines(output))
}

/// Whether `line` begins with `label`.
fn has_label(line: &Vec<char>, label: &str) -> (yes: bool)
    ensures
        yes == has_prefix(line@, label@),
{
    starts_with_at(line, 0, &chars_of(label))
}

/// What a line says behind its label.
fn value_behind(line: &Vec<char>, label: &str) -> (value: Vec<char>)
    ensures
        value@ == field_value(line@, label@),
{
    trimmed_chars(&remove_all(line, &chars_of(label)))
}

/// `chars` as a text.
fn text(chars: &Vec<char>) -> (text: String)
    ensures
        text@ == chars@,
{
    assert(chars@.subrange(0, chars@.len() as int) =~= chars@);
    string_of(chars, 0, chars.len())
}

/// `chars` in lower case.
fn lower(chars: &Vec<char>) -> (lower: Vec<char>)
    ensures
        lower@ == lowercase_of(chars@),
{
    chars_of(to_lowercase(text(chars).as_str()).as_str())
}

impl ServerDetails {
    /// What is assumed of a server until its report says otherwise.
    pub fn new() -> (details: ServerDetails)
        ensures
            details@ == initial_details(),
    {
        let details = ServerDetails {
            scope: "local".to_owned(),
            transport: "stdio".to_owned(),
            command: None,
            args: Vec::new(),
            url: None,
            is_connected: false,
            status_error: None,
        };
        assert(texts_of(details.args@) =~= Seq::<Seq<char>>::empty());
        details
    }

    /// Reads one more line of the report.
    fn read_line(&mut self, raw: &Vec<char>)
        ensures
            final(self)@ == after_line(old(self)@, raw@),
    {
        let line: Vec<char> = trimmed_chars(raw);
        if has_label(&line, "Scope:") {
            let described: Vec<char> = lower(&value_behind(&line, "Scope:"));
            if holds_text(&described, "local") {
                self.scope = "local".to_owned();
            } else if holds_text(&described, "project") {
                self.scope = "project".to_owned();
            } else if holds_text(&described, "user") || holds_text(&described, "global") {
                self.scope = "user".to_owned();
            }
        } else if has_label(&line, "Status:") {
            let status: Vec<char> = value_behind(&line, "Status:");
            let status_lower: Vec<char> = lower(&status);
            if holds_text(&status, "\u{2713}") || holds_text(&status_lower, "connected") {
                self.is_connected = true;
            } else if holds_text(&status, "\u{2717}") || holds_text(&status_lower, "failed") {
                self.is_connected = false;
                self.status_error = Some(text(&status));
            }
        } else if has_label(&line, "Type:") {
            self.transport = text(&value_behind(&line, "Type:"));
        } else if has_label(&line, "Command:") {
            self.command = Some(text(&value_behind(&line, "Command:")));
        } else if has_label(&line, "Args:") {
            let listed: Vec<char> = value_behind(&line, "Args:");
            if listed.len() > 0 {
                self.args = words_of(&listed);
                assert(texts_of(self.args@) =~= split_words(listed@));
            }
        } else if has_label(&line, "URL:") {
            self.url = Some(text(&value_behind(&line, "URL:")));
        }
    }
}

/// Reads the report on one server: its scope, status, transport, command
/// with arguments, and endpoint, each from the line that begins with its
/// label. Where a label comes twice the later line counts.
pub fn parse_server_details(output: &str) -> (details: ServerDetails)
    ensures
        details@ == server_details(output@),
{
    let lines = lines_of(&chars_of(output));
    let ghost all = split_lines(output@);
    let mut details = ServerDetails::new();
    let mut i: usize = 0;
    assert(all.take(0) =~= Seq::<Seq<char>>::empty());
    while i < lines.len()
        invariant
            i <= lines@.len(),
            lines@.len() == all.len(),
            forall|k: int| 0 <= k < lines@.len() ==> (#[trigger] lines@[k])@ == all[k],
            details@ == details_after(initial_details(), all.take(i as int)),
        decreases lines@.len() - i,
    {
        assert(all.take(i + 1).drop_last() =~= all.take(i as int));
        assert(all.take(i + 1).last() == all[i as int]);
        details.read_line(&lines[i]);
        i = i + 1;
    }
    assert(all.take(all.len() as int) =~= all);
    details
}

/// Arguments so far, followed by those that are still to come, unless
/// these could not be made.
pub open spec fn followed_by(
    done: Seq<Seq<char>>,
    rest: Result<Seq<Seq<char>>, Seq<char>>,
) -> Result<Seq<Seq<char>>, Seq<char>> {
    match rest {
        Ok(more) => Ok(done + more),
        Err(message) => Err(message),
    }
}

/// The complaint about the first environment variable whose name is not
/// valid, if there is one.
pub open spec fn bad_env_name(env: Seq<(Seq<char>, Seq<char>)>) -> Option<Seq<char>>
    decreases env.len(),
{
    if env.len() == 0 {
        None
    } else {
        match checked_env_var_name(env[0].0) {
            Err(fault) => Some(
                "Invalid environment variable name '"@ + env[0].0 + "': "@ + message_of(fault),
            ),
            Ok(_) => bad_env_name(env.drop_first()),
        }
    }
}

/// The flags that hand the environment to the tool: `-e NAME=VALUE` for
/// each variable.
pub open spec fn env_flags(env: Seq<(Seq<char>, Seq<char>)>) -> Seq<Seq<char>>
    decreases env.len(),
{
    if env.len() == 0 {
        Seq::empty()
    } else {
        seq!["-e"@, env[0].0 + "="@ + env[0].1] + env_flags(env.drop_first())
    }
}

/// The flags that hand the headers to the tool: `--header NAME: VALUE`
/// for each header, or the complaint about the first header that is not
/// valid.
pub open spec fn header_flags(headers: Seq<(Seq<char>, Seq<char>)>) -> Result<
    Seq<Seq<char>>,
    Seq<char>,
>
    decreases headers.len(),
{
    if headers.len() == 0 {
        Ok(Seq::empty())
    } else {
        let name = headers[0].0;
        let value = headers[0].1;
        match checked_header_name(name) {
            Err(fault) => Err("Invalid header name '"@ + name + "': "@ + message_of(fault)),
            Ok(_) => match checked_header_value(value) {
                Err(fault) => Err(
                    "Invalid header value for '"@ + name + "': "@ + message_of(fault),
                ),
                Ok(_) => followed_by(
                    seq!["--header"@, name + ": "@ + value],
                    header_flags(headers.drop_first()),
                ),
            },
        }
    }
}

/// The arguments of the command, each screened and trimmed, or the
/// complaint about the first that is not valid.
pub open spec fn screened_args(args: Seq<Seq<char>>) -> Result<Seq<Seq<char>>, Seq<char>>
    decreases args.len(),
{
    if args.len() == 0 {
        Ok(Seq::empty())
    } else {
        match checked_arg(args[0]) {
            Err(fault) => Err("Invalid argument '"@ + args[0] + "': "@ + message_of(fault)),
            Ok(arg) => followed_by(seq![arg], screened_args(args.drop_first())),
        }
    }
}

/// What follows the name of the server on the command line: for `stdio`
/// the command and its arguments, behind `--` where there are arguments or
/// the command holds a hyphen; for `sse` the URL; nothing for any other
/// transport.
pub open spec fn target_args(
    transport: Seq<char>,
    command: Option<Seq<char>>,
    args: Seq<Seq<char>>,
    url: Option<Seq<char>>,
) -> Result<Seq<Seq<char>>, Seq<char>> {
    if transport == "stdio"@ {
        match command {
            None => Err("Command is required for stdio transport"@),
            Some(command) => match checked_command(command) {
                Err(fault) => Err("Invalid command: "@ + message_of(fault)),
                Ok(command) => followed_by(
                    if args.len() > 0 || command.contains('-') {
                        seq!["--"@, command]
                    } else {
                        seq![command]
                    },
                    screened_args(args),
                ),
            },
        }
    } else if transport == "sse"@ {
        match url {
            None => Err("URL is required for SSE transport"@),
            Some(url) => match checked_url(url) {
                Err(fault) => Err("Invalid URL: "@ + message_of(fault)),
                Ok(url) => Ok(seq![url]),
            },
        }
    } else {
        Ok(Seq::empty())
    }
}

/// The flags that come before the name of the server: the scope, the
/// transport where it is `sse`, and the environment.
pub open spec fn leading_flags(
    transport: Seq<char>,
    env: Seq<(Seq<char>, Seq<char>)>,
    scope: Seq<char>,
) -> Seq<Seq<char>> {
    seq!["add"@, "-s"@, scope] + (if transport == "sse"@ {
        seq!["--transport"@, "sse"@]
    } else {
        Seq::empty()
    }) + env_flags(env)
}

/// The arguments with which the tool adds a server, or the complaint
/// about the first value that is not valid. The values are checked in this
/// order: the name of the server, the names of the environment variables,
/// the headers (only for `http` and `sse`), then the command with its
/// arguments or the URL.
pub open spec fn add_args(
    name: Seq<char>,
    transport: Seq<char>,
    command: Option<Seq<char>>,
    args: Seq<Seq<char>>,
    env: Seq<(Seq<char>, Seq<char>)>,
    url: Option<Seq<char>>,
    scope: Seq<char>,
    headers: Seq<(Seq<char>, Seq<char>)>,
) -> Result<Seq<Seq<char>>, Seq<char>> {
    match checked_server_name(name) {
        Err(fault) => Err("Invalid server name: "@ + message_of(fault)),
        Ok(_) => match bad_env_name(env) {
            Some(message) => Err(message),
            None => match (if headers.len() > 0 && (transport == "http"@ || transport == "sse"@) {
                header_flags(headers)
            } else {
                Ok(Seq::empty())
            }) {
                Err(message) => Err(message),
                Ok(header_flags) => followed_by(
                    leading_flags(transport, env, scope) + header_flags + seq![name],
                    target_args(transport, command, args, url),
                ),
            },
        },
    }
}

/// A list of arguments, or a complaint, as plain text.
pub open spec fn args_view(result: Result<Vec<String>, String>) -> Result<
    Seq<Seq<char>>,
    Seq<char>,
> {
    match result {
        Ok(args) => Ok(texts_of(args@)),
        Err(message) => Err(message@),
    }
}

/// A complaint: what is wrong, and the message of the fault.
fn complaint(about: &str, error: &ValidationError) -> (message: String)
    ensures
        message@ == about@ + message_of(error@),
{
    let mut message: String = about.to_owned();
    message.append(error.message().as_str());
    message
}

/// A complaint that quotes the value it is about.
fn quoted_complaint(about: &str, quoted: &str, error: &ValidationError) -> (message: String)
    ensures
        message@ == about@ + quoted@ + "': "@ + message_of(error@),
{
    let mut message: String = about.to_owned();
    message.append(quoted);
    message.append("': ");
    message.append(error.message().as_str());
    message
}

/// Two texts with a third between them.
fn joined_by(left: &str, between: &str, right: &str) -> (text: String)
    ensures
        text@ == left@ + between@ + right@,
{
    let mut text: String = left.to_owned();
    text.append(between);
    text.append(right);
    text
}

/// The complaint about the first environment variable whose name is not
/// valid.
fn find_bad_env_name(env: &Vec<(String, String)>) -> (message: Option<String>)
    ensures
        text_of(message) == bad_env_name(pairs_of(env@)),
{
    let ghost all = pairs_of(env@);
    let mut i: usize = 0;
    assert(all.skip(0) =~= all);
    while i < env.len()
        invariant
            i <= env@.len(),
            all == pairs_of(env@),
            bad_env_name(all) == bad_env_name(all.skip(i as int)),
        decreases env@.len() - i,
    {
        let ghost rest = all.skip(i as int);
        assert(rest[0] == all[i as int]);
        assert(rest.drop_first() =~= all.skip(i + 1));
        match validate_env_var_name(env[i].0.as_str()) {
            Err(error) => {
                return Some(
                    quoted_complaint(
                        "Invalid environment variable name '",
                        env[i].0.as_str(),
                        &error,
                    ),
                );
            },
            Ok(_) => {},
        }
        i = i + 1;
    }
    None
}

/// Appends the flags that hand the environment to the tool.
fn push_env_flags(cmd_args: &mut Vec<String>, env: &Vec<(String, String)>)
    ensures
        texts_of(final(cmd_args)@) == texts_of(old(cmd_args)@) + env_flags(pairs_of(env@)),
{
    let ghost all = pairs_of(env@);
    let ghost before = texts_of(cmd_args@);
    let mut i: usize = 0;
    assert(all.skip(0) =~= all);
    assert(before + env_flags(all) =~= texts_of(cmd_args@) + env_flags(all.skip(0)));
    while i < env.len()
        invariant
            i <= env@.len(),
            all == pairs_of(env@),
            before + env_flags(all) == texts_of(cmd_args@) + env_flags(all.skip(i as int)),
        decreases env@.len() - i,
    {
        let ghost rest = all.skip(i as int);
        let ghost so_far = texts_of(cmd_args@);
        assert(rest[0] == all[i as int]);
        assert(rest.drop_first() =~= all.skip(i + 1));
        cmd_args.push("-e".to_owned());
        cmd_args.push(joined_by(env[i].0.as_str(), "=", env[i].1.as_str()));
        proof {
            let pair = seq!["-e"@, rest[0].0 + "="@ + rest[0].1];
            assert(texts_of(cmd_args@) =~= so_far + pair);
            assert(so_far + (pair + env_flags(rest.drop_first())) =~= (so_far + pair) + env_flags(
                rest.drop_first(),
            ));
        }
        i = i + 1;
    }
    assert(all.skip(i as int) =~= Seq::<(Seq<char>, Seq<char>)>::empty());
    assert(texts_of(cmd_args@) + Seq::<Seq<char>>::empty() =~= texts_of(cmd_args@));
}

/// The flags that hand the headers to the tool.
fn make_header_flags(headers: &Vec<(String, String)>) -> (result: Result<Vec<String>, String>)
    ensures
        args_view(result) == header_flags(pairs_of(headers@)),
{
    let ghost all = pairs_of(headers@);
    let mut flags: Vec<String> = Vec::new();
    let mut i: usize = 0;
    assert(all.skip(0) =~= all);
    assert(texts_of(flags@) =~= Seq::<Seq<char>>::empty());
    assert(header_flags(all) == followed_by(texts_of(flags@), header_flags(all.skip(0)))) by {
        match header_flags(all) {
            Ok(more) => {
                assert(Seq::<Seq<char>>::empty() + more =~= more);
            },
            Err(_) => {},
        }
    }
    while i < headers.len()
        invariant
            i <= headers@.len(),
            all == pairs_of(headers@),
            header_flags(all) == followed_by(texts_of(flags@), header_flags(all.skip(i as int))),
        decreases headers@.len() - i,
    {
        let ghost rest = all.skip(i as int);
        let ghost so_far = texts_of(flags@);
        assert(rest[0] == all[i as int]);
        assert(rest.drop_first() =~= all.skip(i + 1));
        let key: &str = headers[i].0.as_str();
        let value: &str = headers[i].1.as_str();
        match validate_header_name(key) {
            Err(error) => {
                return Err(quoted_complaint("Invalid header name '", key, &error));
            },
            Ok(_) => {},
        }
        match validate_header_value(value) {
            Err(error) => {
                return Err(quoted_complaint("Invalid header value for '", key, &error));
            },
            Ok(_) => {},
        }
        flags.push("--header".to_owned());
        flags.push(joined_by(key, ": ", value));
        proof {
            let pair = seq!["--header"@, rest[0].0 + ": "@ + rest[0].1];
            assert(texts_of(flags@) =~= so_far + pair);
            match header_flags(rest.drop_first()) {
                Ok(more) => {
                    assert(so_far + (pair + more) =~= (so_far + pair) + more);
                },
                Err(_) => {},
            }
        }
        i = i + 1;
    }
    assert(all.skip(i as int) =~= Seq::<(Seq<char>, Seq<char>)>::empty());
    assert(texts_of(flags@) + Seq::<Seq<char>>::empty() =~= texts_of(flags@));
    Ok(flags)
}

/// Appends the arguments of the command, each screened and trimmed.
fn push_screened_args(cmd_args: Vec<String>, args: &Vec<String>) -> (result: Result<
    Vec<String>,
    String,
>)
    ensures
        args_view(result) == followed_by(texts_of(cmd_args@), screened_args(texts_of(args@))),
{
    let ghost all = texts_of(args@);
    let ghost before = texts_of(cmd_args@);
    let mut cmd_args = cmd_args;
    let mut i: usize = 0;
    assert(all.skip(0) =~= all);
    while i < args.len()
        invariant
            i <= args@.len(),
            all == texts_of(args@),
            followed_by(before, screened_args(all)) == followed_by(
                texts_of(cmd_args@),
                screened_args(all.skip(i as int)),
            ),
        decreases args@.len() - i,
    {
        let ghost rest = all.skip(i as int);
        let ghost so_far = texts_of(cmd_args@);
        assert(rest[0] == all[i as int]);
        assert(rest.drop_first() =~= all.skip(i + 1));
        match validate_arg(args[i].as_str()) {
            Err(error) => {
                return Err(quoted_complaint("Invalid argument '", args[i].as_str(), &error));
            },
            Ok(arg) => {
                cmd_args.push(arg);
                proof {
                    assert(texts_of(cmd_args@) =~= so_far + seq![arg@]);
                    match screened_args(rest.drop_first()) {
                        Ok(more) => {
                            assert(so_far + (seq![arg@] + more) =~= (so_far + seq![arg@]) + more);
                        },
                        Err(_) => {},
                    }
                }
            },
        }
        i = i + 1;
    }
    assert(all.skip(i as int) =~= Seq::<Seq<char>>::empty());
    assert(texts_of(cmd_args@) + Seq::<Seq<char>>::empty() =~= texts_of(cmd_args@));
    Ok(cmd_args)
}

/// Appends what follows the name of the server on the command line.
fn push_target_args(
    cmd_args: Vec<String>,
    transport: &str,
    command: &Option<String>,
    args: &Vec<String>,
    url: &Option<String>,
) -> (result: Result<Vec<String>, String>)
    ensures
        args_view(result) == followed_by(
            texts_of(cmd_args@),
            target_args(transport@, text_of(*command), texts_of(args@), text_of(*url)),
        ),
{
    let ghost before = texts_of(cmd_args@);
    let mut cmd_args = cmd_args;
    if same_text(transport, "stdio") {
        match command {
            None => Err("Command is required for stdio transport".to_owned()),
            Some(cmd) => {
                let validated_cmd: String = match validate_command(cmd.as_str()) {
                    Ok(validated) => validated,
                    Err(error) => {
                        return Err(complaint("Invalid command: ", &error));
                    },
                };
                let with_separator: bool = args.len() > 0 || set_holds(
                    &chars_of(validated_cmd.as_str()),
                    '-',
                );
                if with_separator {
                    cmd_args.push("--".to_owned());
                }
                cmd_args.push(validated_cmd);
                proof {
                    let lead = if with_separator {
                        seq!["--"@, validated_cmd@]
                    } else {
                        seq![validated_cmd@]
                    };
                    assert(texts_of(cmd_args@) =~= before + lead);
                    match screened_args(texts_of(args@)) {
                        Ok(more) => {
                            assert(before + (lead + more) =~= (before + lead) + more);
                        },
                        Err(_) => {},
                    }
                }
                push_screened_args(cmd_args, args)
            },
        }
    } else if same_text(transport, "sse") {
        match url {
            None => Err("URL is required for SSE transport".to_owned()),
            Some(url_str) => {
                match validate_url(url_str.as_str()) {
                    Ok(validated_url) => {
                        cmd_args.push(validated_url);
                        assert(texts_of(cmd_args@) =~= before + seq![validated_url@]);
                        Ok(cmd_args)
                    },
                    Err(error) => Err(complaint("Invalid URL: ", &error)),
                }
            },
        }
    } else {
        assert(before + Seq::<Seq<char>>::empty() =~= before);
        Ok(cmd_args)
    }
}

/// Screens the definition of a server and makes the arguments with which
/// the tool adds it. The environment and the headers are given as pairs
/// of name and value, in the order in which they are to be handed on.
/// Returns the arguments, or the complaint about the first value that is
/// not valid.
pub fn mcp_add_args(
    name: &str,
    transport: &str,
    command: &Option<String>,
    args: &Vec<String>,
    env: &Vec<(String, String)>,
    url: &Option<String>,
    scope: &str,
    headers: &Vec<(String, String)>,
) -> (result: Result<Vec<String>, String>)
    ensures
        args_view(result) == add_args(
            name@,
            transport@,
            text_of(*command),
            texts_of(args@),
            pairs_of(env@),
            text_of(*url),
            scope@,
            pairs_of(headers@),
        ),
{
    match validate_server_name(name) {
        Err(error) => {
            return Err(complaint("Invalid server name: ", &error));
        },
        Ok(_) => {},
    }
    match find_bad_env_name(env) {
        Some(message) => {
            return Err(message);
        },
        None => {},
    }
    let mut cmd_args: Vec<String> = Vec::new();
    cmd_args.push("add".to_owned());
    cmd_args.push("-s".to_owned());
    cmd_args.push(scope.to_owned());
    let is_sse: bool = same_text(transport, "sse");
    if is_sse {
        cmd_args.push("--transport".to_owned());
        cmd_args.push("sse".to_owned());
    }
    let ghost start = texts_of(cmd_args@);
    assert(start =~= seq!["add"@, "-s"@, scope@] + (if transport@ == "sse"@ {
        seq!["--transport"@, "sse"@]
    } else {
        Seq::<Seq<char>>::empty()
    }));
    push_env_flags(&mut cmd_args, env);
    assert(texts_of(cmd_args@) == leading_flags(transport@, pairs_of(env@), scope@));
    let ghost mut flags: Seq<Seq<char>> = Seq::empty();
    assert(pairs_of(headers@).len() == headers@.len());
    if headers.len() > 0 && (same_text(transport, "http") || is_sse) {
        match make_header_flags(headers) {
            Err(message) => {
                return Err(message);
            },
            Ok(header_flags) => {
                let mut header_flags = header_flags;
                let ghost lead = texts_of(cmd_args@);
                proof {
                    flags = texts_of(header_flags@);
                }
                cmd_args.append(&mut header_flags);
                assert(texts_of(cmd_args@) =~= lead + flags);
            },
        }
    } else {
        assert(texts_of(cmd_args@) + flags =~= texts_of(cmd_args@));
    }
    let ghost lead = texts_of(cmd_args@);
    cmd_args.push(name.to_owned());
    assert(texts_of(cmd_args@) =~= lead + seq![name@]);
    push_target_args(cmd_args, transport, command, args, url)
}

/// The arguments with which the tool adds a server from its definition in
/// JSON.
pub fn mcp_add_json_args(name: &str, json_config: &str, scope: &str) -> (cmd_args: Vec<String>)
    ensures
        texts_of(cmd_args@) == seq!["add-json"@, name@, json_config@, "-s"@, scope@],
{
    let mut cmd_args: Vec<String> = Vec::new();
    cmd_args.push("add-json".to_owned());
    cmd_args.push(name.to_owned());
    cmd_args.push(json_config.to_owned());
    cmd_args.push("-s".to_owned());
    cmd_args.push(scope.to_owned());
    assert(texts_of(cmd_args@) =~= seq!["add-json"@, name@, json_config@, "-s"@, scope@]);
    cmd_args
}

impl AddServerResult {
    /// The server could not be added.
    pub fn failure(message: String) -> (result: AddServerResult)
        ensures
            !result.success,
            result.message == message,
            result.server_name is None,
    {
        AddServerResult { success: false, message, server_name: None }
    }

    /// The server was added; `output` is what the tool printed.
    pub fn added(name: String, output: &str) -> (result: AddServerResult)
        ensures
            result.success,
            result.message@ == trimmed(output@),
            result.server_name == Some(name),
    {
        let message: Vec<char> = trimmed_chars(&chars_of(output));
        AddServerResult { success: true, message: text(&message), server_name: Some(name) }
    }
}

impl MCPServer {
    /// The entry for a server that is listed but whose details could not
    /// be had.
    pub fn without_details(name: String, error: &str) -> (server: MCPServer)
        ensures
            server.name == name,
            server.transport@ == "stdio"@,
            server.command is None,
            server.args@.len() == 0,
            server.url is None,
            server.scope@ == "local"@,
            !server.is_active,
            !server.status.running,
            text_of(server.status.error) == Some("Failed to get details: "@ + error@),
            server.status.last_checked is None,
            server.tools is None,
    {
        let mut message: String = "Failed to get details: ".to_owned();
        message.append(error);
        MCPServer {
            name,
            transport: "stdio".to_owned(),
            command: None,
            args: Vec::new(),
            env: HashMap::new(),
            url: None,
            headers: HashMap::new(),
            scope: "local".to_owned(),
            is_active: false,
            status: ServerStatus { running: false, error: Some(message), last_checked: None },
            tools: None,
        }
    }

    /// The entry for a server from its report, its tools, and the time at
    /// which the report was taken.
    pub fn from_details(
        name: String,
        details: ServerDetails,
        tools: Vec<String>,
        checked_at: u64,
    ) -> (server: MCPServer)
        ensures
            server.name == name,
            server.transport == details.transport,
            server.command == details.command,
            server.args == details.args,
            server.url == details.url,
            server.scope == details.scope,
            server.is_active == details.is_connected,
            server.status.running == details.is_connected,
            server.status.error == details.status_error,
            server.status.last_checked == Some(checked_at),
            server.tools == Some(tools),
    {
        MCPServer {
            name,
            transport: details.transport,
            command: details.command,
            args: details.args,
            env: HashMap::new(),
            url: details.url,
            headers: HashMap::new(),
            scope: details.scope,
            is_active: details.is_connected,
            status: ServerStatus {
                running: details.is_connected,
                error: details.status_error,
                last_checked: Some(checked_at),
            },
            tools: Some(tools),
        }
    }
}

/// The tools of a server: those that it was seen to offer, or, where none
/// was seen, the guess from its name.
pub fn tools_or_guess(seen: Vec<String>, server_name: &str) -> (tools: Vec<String>)
    ensures
        seen@.len() > 0 ==> tools == seen,
        seen@.len() == 0 ==> texts_of(tools@) == tools_for(server_name@),
{
    if seen.len() > 0 {
        seen
    } else {
        let tools = generate_mcp_tools_for_server(server_name);
        assert(texts_of(tools@) =~= tools_for(server_name@));
        tools
    }
}

} // verus!
