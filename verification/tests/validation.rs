use process_registry::validation::{
    contains_dangerous_chars, validate_arg, validate_command, validate_env_var,
    validate_env_var_name, validate_env_vars, validate_header, validate_header_name,
    validate_header_value, validate_headers, validate_length, validate_server_name, validate_url,
    ValidationError,
};

fn pairs(items: &[(&str, &str)]) -> Vec<(String, String)> {
    items.iter().map(|(k, v)| (k.to_string(), v.to_string())).collect()
}

#[test]
fn messages_of_all_errors() {
    assert_eq!(
        ValidationError::EmptyField("Command".to_string()).message(),
        "Command cannot be empty"
    );
    assert_eq!(
        ValidationError::InvalidCharacters("URL".to_string(), "spaces".to_string()).message(),
        "URL contains invalid characters: spaces"
    );
    assert_eq!(
        ValidationError::InvalidLength("Argument".to_string(), 129).message(),
        "Argument length 129 exceeds maximum allowed"
    );
    assert_eq!(
        ValidationError::InvalidLength("Headers".to_string(), 0).message(),
        "Headers length 0 exceeds maximum allowed"
    );
    assert_eq!(
        ValidationError::InvalidLength("x".to_string(), 18446744073709551615).message(),
        "x length 18446744073709551615 exceeds maximum allowed"
    );
    assert_eq!(
        ValidationError::InvalidFormat("URL".to_string(), "bad".to_string()).message(),
        "URL has invalid format: bad"
    );
    assert_eq!(
        ValidationError::PathTraversal("../x".to_string()).message(),
        "Path traversal detected: ../x"
    );
    assert_eq!(
        ValidationError::UnauthorizedPath("/opt/x".to_string()).message(),
        "Unauthorized path: /opt/x"
    );
}

#[test]
fn dangerous_chars_are_found() {
    let set = [';', '&'];
    assert!(contains_dangerous_chars("a;b", &set));
    assert!(contains_dangerous_chars("&", &set));
    assert!(!contains_dangerous_chars("a|b", &set));
    assert!(!contains_dangerous_chars("", &set));
    assert!(!contains_dangerous_chars("abc", &[]));
}

#[test]
fn length_is_checked_in_bytes() {
    assert_eq!(validate_length("Field", "abc", 3).unwrap(), "abc");
    match validate_length("Field", "abcd", 3) {
        Err(ValidationError::InvalidLength(field, length)) => {
            assert_eq!(field, "Field");
            assert_eq!(length, 4);
        }
        other => panic!("unexpected {:?}", other),
    }
    match validate_length("Field", "\u{e9}\u{e9}", 3) {
        Err(ValidationError::InvalidLength(_, length)) => assert_eq!(length, 4),
        other => panic!("unexpected {:?}", other),
    }
    match validate_length("Field", "", 3) {
        Err(ValidationError::EmptyField(field)) => assert_eq!(field, "Field"),
        other => panic!("unexpected {:?}", other),
    }
    // the value is not trimmed here
    assert_eq!(validate_length("Field", " a ", 3).unwrap(), " a ");
}

#[test]
fn command_is_trimmed_and_accepted() {
    assert_eq!(validate_command("  npx  ").unwrap(), "npx");
    assert_eq!(validate_command("/usr/bin/node").unwrap(), "/usr/bin/node");
    assert_eq!(validate_command("/bin/sh").unwrap(), "/bin/sh");
    assert_eq!(validate_command("/sbin/x").unwrap(), "/sbin/x");
    assert_eq!(validate_command("/Applications/Tool").unwrap(), "/Applications/Tool");
    assert_eq!(validate_command("relative/path").unwrap(), "relative/path");
    assert_eq!(validate_command("my-tool_2.x").unwrap(), "my-tool_2.x");
}

#[test]
fn command_errors_in_order() {
    assert_eq!(validate_command("   ").unwrap_err().message(), "Command cannot be empty");
    assert_eq!(
        validate_command(&"a".repeat(129)).unwrap_err().message(),
        "Command length 129 exceeds maximum allowed"
    );
    assert_eq!(validate_command(&"a".repeat(128)).unwrap(), "a".repeat(128));
    assert_eq!(
        validate_command("ls; rm").unwrap_err().message(),
        "Command contains invalid characters: shell metacharacters"
    );
    for c in ";&|$`()<>\r*?[]{}~!#%".chars() {
        let command = format!("a{}b", c);
        assert!(
            matches!(
                validate_command(&command),
                Err(ValidationError::InvalidCharacters(_, _))
            ),
            "{:?}",
            c
        );
    }
    assert!(matches!(
        validate_command("a\nb"),
        Err(ValidationError::InvalidCharacters(_, _))
    ));
    assert_eq!(
        validate_command("../bin/x").unwrap_err().message(),
        "Path traversal detected: ../bin/x"
    );
    assert_eq!(
        validate_command("/usr/../etc").unwrap_err().message(),
        "Path traversal detected: /usr/../etc"
    );
    // the tilde is a shell metacharacter, so the home directory is never reached
    assert_eq!(
        validate_command("~/bin/x").unwrap_err().message(),
        "Command contains invalid characters: shell metacharacters"
    );
    assert_eq!(
        validate_command("/opt/tool").unwrap_err().message(),
        "Unauthorized path: /opt/tool"
    );
    assert_eq!(validate_command("/usr").unwrap_err().message(), "Unauthorized path: /usr");
}

#[test]
fn url_rules() {
    assert_eq!(validate_url(" https://example.com/x ").unwrap(), "https://example.com/x");
    assert_eq!(validate_url("http://localhost:8080").unwrap(), "http://localhost:8080");
    assert_eq!(validate_url("").unwrap_err().message(), "URL cannot be empty");
    assert_eq!(
        validate_url("ftp://example.com").unwrap_err().message(),
        "URL has invalid format: Only http/https URLs are allowed"
    );
    assert_eq!(
        validate_url("HTTP://example.com").unwrap_err().message(),
        "URL has invalid format: Only http/https URLs are allowed"
    );
    assert_eq!(
        validate_url("http://exa mple.com").unwrap_err().message(),
        "URL contains invalid characters: control characters or spaces"
    );
    assert!(validate_url("http://a/<b>").is_err());
    assert!(validate_url("http://a/\"b\"").is_err());
    assert!(validate_url("http://a/\0").is_err());
    let long = format!("http://{}", "a".repeat(250));
    assert_eq!(long.len(), 257);
    assert_eq!(
        validate_url(&long).unwrap_err().message(),
        "URL length 257 exceeds maximum allowed"
    );
    let fits = format!("http://{}", "a".repeat(249));
    assert_eq!(validate_url(&fits).unwrap(), fits);
}

#[test]
fn env_var_name_rules() {
    assert_eq!(validate_env_var_name(" API_KEY ").unwrap(), "API_KEY");
    assert_eq!(validate_env_var_name("_x1").unwrap(), "_x1");
    assert_eq!(validate_env_var_name("\u{e9}t\u{e9}").unwrap(), "\u{e9}t\u{e9}");
    assert_eq!(
        validate_env_var_name("").unwrap_err().message(),
        "Environment variable cannot be empty"
    );
    assert_eq!(
        validate_env_var_name("A-B").unwrap_err().message(),
        "Environment variable contains invalid characters: non-alphanumeric characters"
    );
    assert_eq!(
        validate_env_var_name("A B").unwrap_err().message(),
        "Environment variable contains invalid characters: non-alphanumeric characters"
    );
    assert_eq!(
        validate_env_var_name("1ABC").unwrap_err().message(),
        "Environment variable has invalid format: cannot start with a digit"
    );
    assert_eq!(
        validate_env_var_name(&"A".repeat(129)).unwrap_err().message(),
        "Environment variable length 129 exceeds maximum allowed"
    );
}

#[test]
fn header_name_rules() {
    assert_eq!(validate_header_name(" X-Api_Key ").unwrap(), "X-Api_Key");
    assert_eq!(validate_header_name("").unwrap_err().message(), "Header name cannot be empty");
    assert_eq!(
        validate_header_name("X Key").unwrap_err().message(),
        "Header name contains invalid characters: invalid characters"
    );
    // letters outside ASCII are not allowed in header names
    assert!(validate_header_name("\u{e9}").is_err());
    assert_eq!(validate_header_name(&"a".repeat(256)).unwrap(), "a".repeat(256));
    assert_eq!(
        validate_header_name(&"a".repeat(257)).unwrap_err().message(),
        "Header name length 257 exceeds maximum allowed"
    );
}

#[test]
fn header_value_rules() {
    assert_eq!(validate_header_value(" Bearer abc ").unwrap(), "Bearer abc");
    assert_eq!(
        validate_header_value("  ").unwrap_err().message(),
        "Header value cannot be empty"
    );
    assert_eq!(
        validate_header_value("a\r\nb").unwrap_err().message(),
        "Header value contains invalid characters: control characters"
    );
    assert!(validate_header_value("a\0b").is_err());
    assert_eq!(validate_header_value(&"a".repeat(1024)).unwrap(), "a".repeat(1024));
    assert_eq!(
        validate_header_value(&"a".repeat(1025)).unwrap_err().message(),
        "Header value length 1025 exceeds maximum allowed"
    );
}

#[test]
fn arg_rules() {
    assert_eq!(validate_arg(" --flag=1 ").unwrap(), "--flag=1");
    assert_eq!(validate_arg("*.rs").unwrap(), "*.rs");
    assert_eq!(validate_arg("").unwrap_err().message(), "Argument cannot be empty");
    assert_eq!(
        validate_arg("a|b").unwrap_err().message(),
        "Argument contains invalid characters: shell metacharacters"
    );
    for c in ";&|$`()<>\r".chars() {
        assert!(validate_arg(&format!("a{}b", c)).is_err(), "{:?}", c);
    }
    assert_eq!(
        validate_arg(&"a".repeat(200)).unwrap_err().message(),
        "Argument length 200 exceeds maximum allowed"
    );
}

#[test]
fn server_name_rules() {
    assert_eq!(validate_server_name(" my-server_1 ").unwrap(), "my-server_1");
    assert_eq!(validate_server_name("\u{4e2d}\u{6587}").unwrap(), "\u{4e2d}\u{6587}");
    assert_eq!(validate_server_name("").unwrap_err().message(), "Server name cannot be empty");
    assert_eq!(
        validate_server_name("a/b").unwrap_err().message(),
        "Server name contains invalid characters: non-alphanumeric characters except - and _"
    );
    assert!(validate_server_name("a b").is_err());
    assert!(validate_server_name("a.b").is_err());
    assert_eq!(
        validate_server_name(&"n".repeat(129)).unwrap_err().message(),
        "Server name length 129 exceeds maximum allowed"
    );
}

#[test]
fn env_var_pair_rules() {
    assert_eq!(
        validate_env_var(" KEY ", "  value  ").unwrap(),
        ("KEY".to_string(), "value".to_string())
    );
    assert_eq!(validate_env_var("KEY", "   ").unwrap(), ("KEY".to_string(), String::new()));
    assert_eq!(
        validate_env_var("KEY", &"v".repeat(129)).unwrap_err().message(),
        "Environment variable value for KEY length 129 exceeds maximum allowed"
    );
    assert_eq!(
        validate_env_var("1KEY", &"v".repeat(129)).unwrap_err().message(),
        "Environment variable has invalid format: cannot start with a digit"
    );
}

#[test]
fn header_pair_rules() {
    assert_eq!(
        validate_header(" Accept ", " text/plain ").unwrap(),
        ("Accept".to_string(), "text/plain".to_string())
    );
    assert_eq!(
        validate_header("Bad Name", "").unwrap_err().message(),
        "Header name contains invalid characters: invalid characters"
    );
    assert_eq!(
        validate_header("Accept", "").unwrap_err().message(),
        "Header value cannot be empty"
    );
}

#[test]
fn env_vars_are_screened_in_order() {
    let env = pairs(&[("A", " 1 "), (" B ", "2"), ("C", "")]);
    assert_eq!(
        validate_env_vars(&env).unwrap(),
        pairs(&[("A", "1"), ("B", "2"), ("C", "")])
    );
    assert_eq!(validate_env_vars(&Vec::new()).unwrap(), Vec::new());
    let bad = pairs(&[("A", "1"), ("B C", "2"), ("9", "3")]);
    assert_eq!(
        validate_env_vars(&bad).unwrap_err().message(),
        "Environment variable contains invalid characters: non-alphanumeric characters"
    );
}

#[test]
fn too_many_env_vars() {
    let mut env = Vec::new();
    for i in 0..101 {
        env.push((format!("K{}", i), String::from("v")));
    }
    assert_eq!(
        validate_env_vars(&env).unwrap_err().message(),
        "Environment variables length 101 exceeds maximum allowed"
    );
    env.pop();
    assert_eq!(validate_env_vars(&env).unwrap().len(), 100);
}

#[test]
fn headers_are_screened_in_order() {
    let headers = pairs(&[("Accept", " a "), (" X-Y ", "b")]);
    assert_eq!(validate_headers(&headers).unwrap(), pairs(&[("Accept", "a"), ("X-Y", "b")]));
    let bad = pairs(&[("Accept", "a\nb"), ("X Y", "b")]);
    assert_eq!(
        validate_headers(&bad).unwrap_err().message(),
        "Header value contains invalid characters: control characters"
    );
    let mut many = Vec::new();
    for i in 0..51 {
        many.push((format!("H{}", i), String::from("v")));
    }
    assert_eq!(
        validate_headers(&many).unwrap_err().message(),
        "Headers length 51 exceeds maximum allowed"
    );
    many.pop();
    assert_eq!(validate_headers(&many).unwrap().len(), 50);
}
