use process_registry::mcp::{
    clean_command_string, generate_mcp_tools_for_server, mcp_add_args, mcp_add_json_args,
    parse_server_details, parse_server_names, AddServerResult, MCPServer, ServerDetails,
};

fn texts(items: &[&str]) -> Vec<String> {
    items.iter().map(|s| s.to_string()).collect()
}

fn pairs(items: &[(&str, &str)]) -> Vec<(String, String)> {
    items.iter().map(|(k, v)| (k.to_string(), v.to_string())).collect()
}

#[test]
fn status_mark_is_cut_off() {
    assert_eq!(clean_command_string("npx server - \u{2713} Connected"), "npx server");
    assert_eq!(clean_command_string("cmd  - \u{2717} Failed to connect"), "cmd");
    assert_eq!(clean_command_string("cmd - \u{2713} connected"), "cmd");
    assert_eq!(clean_command_string("cmd - \u{2717} failed"), "cmd");
    assert_eq!(clean_command_string("  cmd - \u{2713}"), "cmd");
    assert_eq!(clean_command_string("cmd - \u{2717} whatever"), "cmd");
}

#[test]
fn command_without_mark_is_left_as_it_is() {
    assert_eq!(clean_command_string("npx server"), "npx server");
    assert_eq!(clean_command_string("  padded  "), "  padded  ");
    assert_eq!(clean_command_string(""), "");
    assert_eq!(clean_command_string("a -\u{2713}"), "a -\u{2713}");
}

#[test]
fn the_longer_marks_are_looked_for_first() {
    assert_eq!(clean_command_string("a - \u{2713} b - \u{2717} c"), "a");
    assert_eq!(clean_command_string("a - \u{2717} failed - \u{2713} Connected"), "a");
    assert_eq!(clean_command_string("a - \u{2713} x - \u{2713} Connected"), "a");
}

#[test]
fn tools_of_a_database_server() {
    assert_eq!(
        generate_mcp_tools_for_server("my postgres-db"),
        texts(&[
            "mcp__my_postgres_db__query",
            "mcp__my_postgres_db__connect",
            "mcp__my_postgres_db__list_tables",
            "mcp__my_postgres_db__describe",
            "mcp__my_postgres_db__execute",
        ])
    );
}

#[test]
fn tools_by_kind_of_server() {
    assert_eq!(
        generate_mcp_tools_for_server("GitHub"),
        texts(&[
            "mcp__GitHub__status",
            "mcp__GitHub__commit",
            "mcp__GitHub__push",
            "mcp__GitHub__pull",
            "mcp__GitHub__branch",
            "mcp__GitHub__create_issue",
        ])
    );
    assert_eq!(
        generate_mcp_tools_for_server("files"),
        texts(&[
            "mcp__files__read",
            "mcp__files__write",
            "mcp__files__delete",
            "mcp__files__list",
            "mcp__files__search",
        ])
    );
    assert_eq!(
        generate_mcp_tools_for_server("web-api"),
        texts(&[
            "mcp__web_api__get",
            "mcp__web_api__post",
            "mcp__web_api__put",
            "mcp__web_api__delete",
            "mcp__web_api__list",
        ])
    );
    assert_eq!(
        generate_mcp_tools_for_server("Docker"),
        texts(&[
            "mcp__Docker__run",
            "mcp__Docker__stop",
            "mcp__Docker__list",
            "mcp__Docker__logs",
            "mcp__Docker__build",
        ])
    );
    assert_eq!(
        generate_mcp_tools_for_server("finder"),
        texts(&[
            "mcp__finder__search",
            "mcp__finder__filter",
            "mcp__finder__sort",
            "mcp__finder__group",
        ])
    );
    assert_eq!(generate_mcp_tools_for_server("other"), texts(&["mcp__other__execute"]));
    assert_eq!(generate_mcp_tools_for_server(""), texts(&["mcp____execute"]));
}

#[test]
fn the_first_kind_that_matches_counts() {
    assert_eq!(generate_mcp_tools_for_server("docker-fs")[0], "mcp__docker_fs__read");
    assert_eq!(generate_mcp_tools_for_server("webdb")[0], "mcp__webdb__query");
    assert_eq!(generate_mcp_tools_for_server("search-api")[0], "mcp__search_api__get");
}

#[test]
fn blank_listing_names_no_server() {
    assert!(parse_server_names("").is_empty());
    assert!(parse_server_names("  \n \t\n").is_empty());
    assert!(parse_server_names("No MCP servers configured. Use `add`.").is_empty());
    assert!(parse_server_names("a: b\nNo MCP servers configured").is_empty());
}

#[test]
fn names_are_read_from_a_listing() {
    let output = "\nserver1: npx foo - \u{2713} Connected\nserver-2: /usr/bin/bar --flag\n   continued line\n/usr/bin: not a name\n  third_one  : https://example.com/sse\n";
    assert_eq!(parse_server_names(output), texts(&["server1", "server-2", "third_one"]));
}

#[test]
fn what_stands_before_the_first_colon_is_the_name() {
    assert_eq!(parse_server_names("http://x: y"), texts(&["http"]));
    assert_eq!(parse_server_names("a: b: c"), texts(&["a"]));
    assert_eq!(parse_server_names("C:\\tools\\x: y"), texts(&["C"]));
    assert_eq!(parse_server_names("a\\b: y").len(), 0);
    assert_eq!(parse_server_names("one: 1\r\ntwo: 2\r\n"), texts(&["one", "two"]));
}

#[test]
fn empty_names_count_only_before_the_first_server() {
    assert_eq!(parse_server_names("x\n: orphan\nname: x"), texts(&["", "name"]));
    assert_eq!(parse_server_names("name: x\n: y\nother: z"), texts(&["name", "other"]));
    assert_eq!(parse_server_names("x\n: a\n: b"), texts(&[""]));
}

#[test]
fn details_start_from_the_defaults() {
    let details = ServerDetails::new();
    assert_eq!(details.scope, "local");
    assert_eq!(details.transport, "stdio");
    assert!(details.command.is_none());
    assert!(details.args.is_empty());
    assert!(details.url.is_none());
    assert!(!details.is_connected);
    assert!(details.status_error.is_none());
    let parsed = parse_server_details("");
    assert_eq!(parsed.scope, "local");
    assert_eq!(parsed.transport, "stdio");
}

#[test]
fn details_are_read_from_a_report() {
    let output = "my-server:\n  Scope: Local config (private to you)\n  Status: \u{2713} Connected\n  Type: stdio\n  Command: npx\n  Args: -y  @scope/pkg\t--port 80\n  Environment:\n    KEY=value\n";
    let details = parse_server_details(output);
    assert_eq!(details.scope, "local");
    assert!(details.is_connected);
    assert!(details.status_error.is_none());
    assert_eq!(details.transport, "stdio");
    assert_eq!(details.command.as_deref(), Some("npx"));
    assert_eq!(details.args, texts(&["-y", "@scope/pkg", "--port", "80"]));
    assert!(details.url.is_none());
}

#[test]
fn details_of_a_failing_remote_server() {
    let output = "remote:\r\n  Scope: Project config (shared via .mcp.json)\r\n  Status: \u{2717} Failed to connect\r\n  Type: sse\r\n  URL: https://example.com/sse\r\n";
    let details = parse_server_details(output);
    assert_eq!(details.scope, "project");
    assert!(!details.is_connected);
    assert_eq!(details.status_error.as_deref(), Some("\u{2717} Failed to connect"));
    assert_eq!(details.transport, "sse");
    assert_eq!(details.url.as_deref(), Some("https://example.com/sse"));
    assert!(details.command.is_none());
}

#[test]
fn scope_is_read_by_the_first_word_that_fits() {
    assert_eq!(parse_server_details("Scope: User config").scope, "user");
    assert_eq!(parse_server_details("Scope: GLOBAL").scope, "user");
    // "projects" holds "project", which is looked for before "user"
    assert_eq!(
        parse_server_details("Scope: User config (available in all your projects)").scope,
        "project"
    );
    assert_eq!(parse_server_details("Scope: project\nScope: nothing known").scope, "project");
    assert_eq!(parse_server_details("Scope: elsewhere").scope, "local");
}

#[test]
fn status_words_without_marks() {
    assert!(parse_server_details("Status: Connected").is_connected);
    let failed = parse_server_details("Status: connected\nStatus: it FAILED");
    assert!(!failed.is_connected);
    assert_eq!(failed.status_error.as_deref(), Some("it FAILED"));
    let later = parse_server_details("Status: failed\nStatus: connected");
    assert!(later.is_connected);
    assert_eq!(later.status_error.as_deref(), Some("failed"));
    let unknown = parse_server_details("Status: pending");
    assert!(!unknown.is_connected);
    assert!(unknown.status_error.is_none());
}

#[test]
fn the_label_is_taken_out_wherever_it_stands() {
    assert_eq!(parse_server_details("Type: a Type: b").transport, "a  b");
    assert_eq!(parse_server_details("Command:Command:").command.as_deref(), Some(""));
    assert_eq!(parse_server_details("Args:   ").args.len(), 0);
    assert_eq!(parse_server_details("Args: a\nArgs:").args, texts(&["a"]));
    assert_eq!(parse_server_details("  URL:x  ").url.as_deref(), Some("x"));
    assert!(parse_server_details("The URL: x").url.is_none());
}

#[test]
fn args_for_a_stdio_server() {
    let result = mcp_add_args(
        "srv",
        "stdio",
        &Some("npx".to_string()),
        &texts(&["-y", " pkg "]),
        &pairs(&[("KEY", "v 1")]),
        &None,
        "local",
        &Vec::new(),
    );
    assert_eq!(
        result.unwrap(),
        texts(&["add", "-s", "local", "-e", "KEY=v 1", "srv", "--", "npx", "-y", "pkg"])
    );
}

#[test]
fn separator_only_where_needed() {
    let plain =
        mcp_add_args("srv", "stdio", &Some(" node ".to_string()), &Vec::new(), &Vec::new(), &None, "user", &Vec::new());
    assert_eq!(plain.unwrap(), texts(&["add", "-s", "user", "srv", "node"]));
    let hyphen =
        mcp_add_args("srv", "stdio", &Some("my-cmd".to_string()), &Vec::new(), &Vec::new(), &None, "user", &Vec::new());
    assert_eq!(hyphen.unwrap(), texts(&["add", "-s", "user", "srv", "--", "my-cmd"]));
}

#[test]
fn args_for_an_sse_server() {
    let result = mcp_add_args(
        "srv",
        "sse",
        &None,
        &Vec::new(),
        &Vec::new(),
        &Some(" https://example.com/sse ".to_string()),
        "project",
        &pairs(&[("X-Key", "abc"), (" Accept ", " text/plain ")]),
    );
    assert_eq!(
        result.unwrap(),
        texts(&[
            "add",
            "-s",
            "project",
            "--transport",
            "sse",
            "--header",
            "X-Key: abc",
            "--header",
            " Accept :  text/plain ",
            "srv",
            "https://example.com/sse",
        ])
    );
}

#[test]
fn args_for_other_transports() {
    let http = mcp_add_args(
        " srv ",
        "http",
        &Some("ignored;".to_string()),
        &texts(&["ignored|"]),
        &Vec::new(),
        &Some("ftp://ignored".to_string()),
        "local",
        &pairs(&[("A", "b")]),
    );
    assert_eq!(http.unwrap(), texts(&["add", "-s", "local", "--header", "A: b", " srv "]));
    let stdio_with_headers = mcp_add_args(
        "srv",
        "stdio",
        &Some("node".to_string()),
        &Vec::new(),
        &Vec::new(),
        &None,
        "local",
        &pairs(&[("bad name", "")]),
    );
    assert_eq!(stdio_with_headers.unwrap(), texts(&["add", "-s", "local", "srv", "node"]));
}

#[test]
fn complaints_come_in_order() {
    let env = pairs(&[("OK", "1"), ("A B", "2")]);
    let headers = pairs(&[("X Y", "v")]);
    let bad_name = mcp_add_args("a/b", "sse", &None, &Vec::new(), &env, &None, "local", &headers);
    assert_eq!(
        bad_name.unwrap_err(),
        "Invalid server name: Server name contains invalid characters: non-alphanumeric characters except - and _"
    );
    let bad_env = mcp_add_args("srv", "sse", &None, &Vec::new(), &env, &None, "local", &headers);
    assert_eq!(
        bad_env.unwrap_err(),
        "Invalid environment variable name 'A B': Environment variable contains invalid characters: non-alphanumeric characters"
    );
    let bad_header =
        mcp_add_args("srv", "sse", &None, &Vec::new(), &Vec::new(), &None, "local", &headers);
    assert_eq!(
        bad_header.unwrap_err(),
        "Invalid header name 'X Y': Header name contains invalid characters: invalid characters"
    );
    let bad_value = mcp_add_args(
        "srv",
        "sse",
        &None,
        &Vec::new(),
        &Vec::new(),
        &None,
        "local",
        &pairs(&[("X", "")]),
    );
    assert_eq!(bad_value.unwrap_err(), "Invalid header value for 'X': Header value cannot be empty");
    let no_url =
        mcp_add_args("srv", "sse", &None, &Vec::new(), &Vec::new(), &None, "local", &Vec::new());
    assert_eq!(no_url.unwrap_err(), "URL is required for SSE transport");
    let bad_url = mcp_add_args(
        "srv",
        "sse",
        &None,
        &Vec::new(),
        &Vec::new(),
        &Some("ftp://x".to_string()),
        "local",
        &Vec::new(),
    );
    assert_eq!(
        bad_url.unwrap_err(),
        "Invalid URL: URL has invalid format: Only http/https URLs are allowed"
    );
}

#[test]
fn complaints_about_the_command() {
    let none =
        mcp_add_args("srv", "stdio", &None, &Vec::new(), &Vec::new(), &None, "local", &Vec::new());
    assert_eq!(none.unwrap_err(), "Command is required for stdio transport");
    let bad = mcp_add_args(
        "srv",
        "stdio",
        &Some("/opt/x".to_string()),
        &texts(&["a;b"]),
        &Vec::new(),
        &None,
        "local",
        &Vec::new(),
    );
    assert_eq!(bad.unwrap_err(), "Invalid command: Unauthorized path: /opt/x");
    let bad_arg = mcp_add_args(
        "srv",
        "stdio",
        &Some("node".to_string()),
        &texts(&["ok", "a;b", ""]),
        &Vec::new(),
        &None,
        "local",
        &Vec::new(),
    );
    assert_eq!(
        bad_arg.unwrap_err(),
        "Invalid argument 'a;b': Argument contains invalid characters: shell metacharacters"
    );
}

#[test]
fn args_for_a_definition_in_json() {
    assert_eq!(
        mcp_add_json_args("srv", "{\"command\":\"x\"}", "user"),
        texts(&["add-json", "srv", "{\"command\":\"x\"}", "-s", "user"])
    );
}

#[test]
fn results_of_adding() {
    let failed = AddServerResult::failure("no".to_string());
    assert!(!failed.success);
    assert_eq!(failed.message, "no");
    assert!(failed.server_name.is_none());
    let added = AddServerResult::added("srv".to_string(), "  Added srv\n");
    assert!(added.success);
    assert_eq!(added.message, "Added srv");
    assert_eq!(added.server_name.as_deref(), Some("srv"));
}

#[test]
fn server_entries() {
    let bare = MCPServer::without_details("srv".to_string(), "timeout");
    assert_eq!(bare.name, "srv");
    assert_eq!(bare.transport, "stdio");
    assert_eq!(bare.scope, "local");
    assert!(!bare.is_active);
    assert!(!bare.status.running);
    assert_eq!(bare.status.error.as_deref(), Some("Failed to get details: timeout"));
    assert!(bare.status.last_checked.is_none());
    assert!(bare.tools.is_none());
    assert!(bare.env.is_empty() && bare.headers.is_empty() && bare.args.is_empty());

    let details = parse_server_details("Status: connected\nType: sse\nURL: http://x\nScope: user");
    let full = MCPServer::from_details("srv".to_string(), details, texts(&["t"]), 1700000000);
    assert_eq!(full.name, "srv");
    assert_eq!(full.transport, "sse");
    assert_eq!(full.url.as_deref(), Some("http://x"));
    assert_eq!(full.scope, "user");
    assert!(full.is_active);
    assert!(full.status.running);
    assert!(full.status.error.is_none());
    assert_eq!(full.status.last_checked, Some(1700000000));
    assert_eq!(full.tools, Some(texts(&["t"])));
}
