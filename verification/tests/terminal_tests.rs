//! Tests of terminal output post-processing and the control-character and
//! command-sending state.

use iterm_mcp::applescript::MockOsascriptRunner;
use iterm_mcp::terminal::{
    CommandExecutor, ControlCharacterSender, ControlSendError, TtyReader,
};

#[test]
fn test_strip_ansi_codes() {
    let reader = TtyReader::new();

    // Test with ANSI color codes
    let input = "\x1B[31mRed Text\x1B[0m and \x1B[32mGreen Text\x1B[0m";
    assert_eq!(reader.strip_ansi_codes(input), "Red Text and Green Text");

    // Test with cursor movement codes
    let input = "Text with \x1B[1A\x1B[2Kmovement codes";
    assert_eq!(reader.strip_ansi_codes(input), "Text with movement codes");

    // Test with no ANSI codes
    let input = "Plain text without codes";
    assert_eq!(reader.strip_ansi_codes(input), input);

    // Test with empty string
    let input = "";
    assert_eq!(reader.strip_ansi_codes(input), "");
}

#[test]
fn test_extract_lines() {
    let reader = TtyReader::new();

    // Test with more lines than requested
    let input = "line1\nline2\nline3\nline4\nline5";
    assert_eq!(reader.extract_lines(input, 3), "line3\nline4\nline5");

    // Test with fewer lines than requested
    assert_eq!(reader.extract_lines(input, 10), input);

    // Test with exact number of lines
    assert_eq!(reader.extract_lines(input, 5), input);

    // Test with empty input
    assert_eq!(reader.extract_lines("", 5), "");

    // Test with zero lines requested
    assert_eq!(reader.extract_lines(input, 0), "");

    // Test with one line input
    let input = "single line";
    assert_eq!(reader.extract_lines(input, 1), input);
}

#[test]
fn test_new_with_config() {
    // Test custom buffer size and strip_ansi setting
    let reader = TtyReader::new_with_config(16384, false);
    assert_eq!(reader.buffer_size, 16384);
    assert_eq!(reader.strip_ansi, false);

    // Test defaults
    let reader = TtyReader::new();
    assert_eq!(reader.buffer_size, 8192);
    assert_eq!(reader.strip_ansi, true);
}

#[test]
fn unterminated_ansi_sequence_is_kept() {
    let reader = TtyReader::new();
    // No final letter: not a control sequence, so nothing is removed.
    assert_eq!(reader.strip_ansi_codes("\x1B[123"), "\x1B[123");
    // A later sequence inside an unterminated one is still found.
    assert_eq!(reader.strip_ansi_codes("\x1B[1\x1B[2mx"), "\x1B[1x");
}

#[test]
fn process_output_strips_then_extracts() {
    let reader = TtyReader::new();
    let input = "\x1B[31mone\x1B[0m\ntwo\nthree";
    assert_eq!(reader.process_output(input, 2), "two\nthree");
    assert_eq!(reader.process_output(input, 9), "one\ntwo\nthree");

    let raw = TtyReader::new_with_config(8192, false);
    assert_eq!(raw.process_output("\x1B[31mone\x1B[0m\ntwo", 2), "\x1B[31mone\x1B[0m\ntwo");
}

#[test]
fn extract_lines_drops_trailing_newline_and_cr() {
    let reader = TtyReader::new();
    assert_eq!(reader.extract_lines("a\r\nb\r\n", 5), "a\nb");
    assert_eq!(reader.extract_lines("a\nb\n", 2), "a\nb");
}

#[test]
fn control_character_sender_prepares_writes() {
    let mut sender = ControlCharacterSender::new();
    assert!(sender.get_tty_path().is_none());

    assert_eq!(
        sender.prepare_control_character("C"),
        Err(ControlSendError::NotInitialized)
    );

    sender.set_tty_path("/dev/ttys001".to_string());
    assert_eq!(sender.get_tty_path(), Some("/dev/ttys001"));

    assert_eq!(
        sender.prepare_control_character("C"),
        Ok(("/dev/ttys001".to_string(), 3u8))
    );
    assert_eq!(
        sender.prepare_control_character(""),
        Err(ControlSendError::EmptyLetter)
    );
    assert_eq!(
        sender.prepare_control_character("!"),
        Err(ControlSendError::InvalidLetter)
    );
}

#[test]
fn command_executor_runs_write_text_script() {
    let mock = MockOsascriptRunner::new(vec!["".to_string()]);
    let mut executor = CommandExecutor::new_with_runner(mock, 5);
    assert!(executor.execute_command("echo hi").is_ok());
    // The queue is exhausted: the runner's failure text passes through.
    let err = executor.execute_command("echo hi").unwrap_err();
    assert!(err.contains("no more responses"));
}

#[test]
fn write_text_script_embeds_escaped_command() {
    let script = iterm_mcp::terminal::write_text_script("say \"hi\"");
    assert_eq!(
        script,
        "tell application \"iTerm2\" to tell current session of current window to write text \"say \\\"hi\\\"\""
    );
}
