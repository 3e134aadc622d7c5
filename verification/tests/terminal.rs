use process_registry::terminal::{check_command, validate_command, CommandOutput, MAX_COMMAND_LENGTH};

#[test]
fn test_command_length_validation() {
    let long_command = "echo ".to_string() + &"x".repeat(MAX_COMMAND_LENGTH + 1);
    let validation = validate_command(&long_command, None);
    assert!(!validation.is_valid);
    assert!(validation.error_message.unwrap().contains("exceeds maximum length"));
}

#[test]
fn test_working_directory_validation() {
    let validation = validate_command("echo test", Some(&"/home/user".to_string()));
    assert!(validation.is_valid);

    let validation = validate_command("echo test", Some(&"/etc".to_string()));
    assert!(validation.is_valid);
    assert!(validation.error_message.is_none());
}

#[test]
fn command_of_exactly_the_maximum_length_is_accepted() {
    let command = "echo ".to_string() + &"x".repeat(MAX_COMMAND_LENGTH - 5);
    assert_eq!(command.len(), MAX_COMMAND_LENGTH);
    let validation = validate_command(&command, None);
    assert!(validation.is_valid);
    assert!(validation.error_message.is_none());
}

#[test]
fn too_long_message_is_exact() {
    let command = "x".repeat(MAX_COMMAND_LENGTH + 1);
    let validation = validate_command(&command, None);
    assert_eq!(
        validation.error_message.unwrap(),
        "Command exceeds maximum length of 4096 characters"
    );
}

#[test]
fn length_is_counted_in_bytes() {
    // 2049 two-byte characters: 4098 bytes
    let command = "\u{e9}".repeat(2049);
    assert!(!validate_command(&command, None).is_valid);
}

#[test]
fn every_allowed_command_is_accepted() {
    for name in ["echo", "pwd", "ls", "cat", "grep", "find", "git"] {
        let command = format!("{} argument", name);
        assert!(validate_command(&command, None).is_valid, "{}", name);
        assert!(validate_command(name, None).is_valid, "{}", name);
    }
}

#[test]
fn other_commands_are_turned_down_with_their_name() {
    let validation = validate_command("rm -rf /", None);
    assert!(!validation.is_valid);
    assert_eq!(
        validation.error_message.unwrap(),
        "Command not allowed: rm. Allowed commands: [\"echo\", \"pwd\", \"ls\", \"cat\", \"grep\", \"find\", \"git\"]"
    );
}

#[test]
fn the_whole_first_word_must_match() {
    assert!(!validate_command("echoes", None).is_valid);
    assert!(!validate_command("ech", None).is_valid);
    assert!(!validate_command("Echo hi", None).is_valid);
    assert!(!validate_command("git;ls", None).is_valid);
}

#[test]
fn leading_white_space_is_skipped() {
    assert!(validate_command("  \t\n ls -l", None).is_valid);
    assert!(validate_command("\u{a0}git status", None).is_valid);
    assert!(validate_command("git\u{3000}status", None).is_valid);
}

#[test]
fn empty_and_blank_commands_are_turned_down() {
    let validation = validate_command("", None);
    assert!(!validation.is_valid);
    assert!(validation
        .error_message
        .unwrap()
        .starts_with("Command not allowed: . Allowed commands:"));
    assert!(!validate_command("   ", None).is_valid);
}

#[test]
fn test_command_whitelist() {
    let result = check_command("echo allowed", None);
    assert!(result.is_ok(), "echo command should be allowed");

    let result = check_command("rm -rf /", None);
    assert!(result.is_err(), "rm command should not be allowed");
    assert!(result.unwrap_err().contains("Command not allowed"));
}

#[test]
fn check_gives_the_message_of_the_verdict() {
    let long = "x".repeat(MAX_COMMAND_LENGTH + 1);
    assert_eq!(
        check_command(&long, Some(&"/tmp".to_string())),
        Err("Command exceeds maximum length of 4096 characters".to_string())
    );
    assert_eq!(check_command("git log", None), Ok(()));
}

#[test]
fn missing_exit_code_becomes_minus_one() {
    let ended = CommandOutput::new("out".to_string(), "err".to_string(), Some(3));
    assert_eq!(ended.stdout, "out");
    assert_eq!(ended.stderr, "err");
    assert_eq!(ended.exit_code, 3);
    let killed = CommandOutput::new(String::new(), String::new(), None);
    assert_eq!(killed.exit_code, -1);
}
