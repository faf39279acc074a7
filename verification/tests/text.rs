use preval::evaluator::process::{
    command_line, liveness_message, stderr_message, CommandLine, EvaluatorMessage, ExitStatus,
};
use preval::state::types::EvaluatorCommand;
use preval::text::{
    blank, bounded_text, char_is_space, has_infix, has_prefix, non_blank_text,
    parse_decimal_u64, render_i32, render_u64, split_words, str_equal, to_chars, trimmed,
    TextError,
};

#[test]
fn trimming_takes_white_space_off_both_ends() {
    assert_eq!(trimmed("  a b \t\n"), "a b");
    assert_eq!(trimmed("\u{a0}\u{2003}x\u{3000}"), "x");
    assert_eq!(trimmed("\u{200b}x"), "\u{200b}x");
    assert_eq!(trimmed(""), "");
    assert_eq!(trimmed(" \r\n "), "");
    assert_eq!(trimmed("x"), "x");
    for c in ['\u{9}', '\u{d}', ' ', '\u{85}', '\u{a0}', '\u{1680}', '\u{2000}', '\u{200a}', '\u{2028}', '\u{2029}', '\u{202f}', '\u{205f}', '\u{3000}'] {
        assert!(char_is_space(c));
    }
    for c in ['a', '\u{8}', '\u{e}', '\u{180e}', '\u{200b}', '\u{feff}', '\u{2060}'] {
        assert!(!char_is_space(c));
    }
    for c in (0..0x3100u32).filter_map(char::from_u32) {
        assert_eq!(char_is_space(c), c.is_whitespace());
    }
    assert!(blank(" \t"));
    assert!(!blank(" . "));
}

#[test]
fn texts_are_measured_in_characters() {
    assert_eq!(to_chars("a\u{1f600}b"), vec!['a', '\u{1f600}', 'b']);
    assert_eq!(bounded_text(" \u{e9}\u{e9} ", 2), Ok("\u{e9}\u{e9}".to_string()));
    assert_eq!(bounded_text(" \u{e9}\u{e9}\u{e9} ", 2), Err(TextError::TooLong));
    assert_eq!(bounded_text("  ", 2), Err(TextError::Empty));
    assert_eq!(bounded_text("", 0), Err(TextError::Empty));
    assert_eq!(non_blank_text(" x y "), Ok("x y".to_string()));
    assert_eq!(non_blank_text(""), Err(TextError::Empty));
    assert!(str_equal("abc", "abc"));
    assert!(!str_equal("abc", "abd"));
    assert!(!str_equal("abc", "ab"));
}

#[test]
fn texts_are_searched() {
    assert!(has_prefix("Compiling x", "Compiling"));
    assert!(has_prefix("x", ""));
    assert!(has_prefix("", ""));
    assert!(!has_prefix("Comp", "Compiling"));
    assert!(!has_prefix(" Compiling", "Compiling"));
    assert!(has_infix("a/target/debug/deps/b", "target/debug/deps/"));
    assert!(has_infix("abc", "c"));
    assert!(has_infix("abc", "abc"));
    assert!(has_infix("abc", ""));
    assert!(has_infix("", ""));
    assert!(!has_infix("abc", "abcd"));
    assert!(!has_infix("abc", "ca"));
    assert!(has_infix("aab", "ab"));
}

#[test]
fn decimal_numbers_are_read_and_written() {
    assert_eq!(parse_decimal_u64("0"), Some(0));
    assert_eq!(parse_decimal_u64("+0"), Some(0));
    assert_eq!(parse_decimal_u64("007"), Some(7));
    assert_eq!(parse_decimal_u64("18446744073709551615"), Some(u64::MAX));
    assert_eq!(parse_decimal_u64("18446744073709551616"), None);
    assert_eq!(parse_decimal_u64("184467440737095516150"), None);
    assert_eq!(parse_decimal_u64("99999999999999999999"), None);
    for bad in ["", "+", "-", "-0", "++1", "1+", "1 ", " 1", "1.0", "1e3", "0x10", "\u{661}", "1_000"] {
        assert_eq!(parse_decimal_u64(bad), None, "{:?}", bad);
        assert_eq!(bad.parse::<u64>().ok(), None);
    }
    for n in [0u64, 1, 9, 10, 11, 99, 100, 101, 12345, u64::MAX - 1, u64::MAX] {
        assert_eq!(render_u64(n), n.to_string());
        assert_eq!(parse_decimal_u64(&render_u64(n)), Some(n));
    }
    for n in [0i32, 1, -1, 10, -10, 255, i32::MAX, i32::MIN, i32::MIN + 1] {
        assert_eq!(render_i32(n), n.to_string());
    }
}

#[test]
fn a_command_is_split_at_white_space() {
    let words = |s: &str| split_words(s);
    assert_eq!(words("cargo run --bin mock_evaluator"), vec!["cargo", "run", "--bin", "mock_evaluator"]);
    assert_eq!(words("  a\t\tb\u{3000}c  "), vec!["a", "b", "c"]);
    assert_eq!(words("one"), vec!["one"]);
    assert_eq!(words(""), Vec::<String>::new());
    assert_eq!(words(" \n "), Vec::<String>::new());
    assert_eq!(words("say \"hello world\""), vec!["say", "\"hello", "world\""]);
    for s in ["a b", " a  b ", "x", "", "  ", "a\u{a0}b\u{2028}c d"] {
        let expected: Vec<String> = s.split_whitespace().map(|w| w.to_string()).collect();
        assert_eq!(split_words(s), expected);
    }

    let command = EvaluatorCommand::try_new(" python  eval.py --n 3 ").unwrap();
    assert_eq!(
        command_line(&command),
        CommandLine {
            program: "python".to_string(),
            args: vec!["eval.py".to_string(), "--n".to_string(), "3".to_string()],
        }
    );
    let command = EvaluatorCommand::try_new("evaluator").unwrap();
    assert_eq!(
        command_line(&command),
        CommandLine { program: "evaluator".to_string(), args: vec![] }
    );
    // No command is blank, so every command has a program.
    for text in [" a ", "\u{3000}x\u{3000}", "a\tb"] {
        let command = EvaluatorCommand::try_new(text).unwrap();
        assert!(!command_line(&command).program.is_empty());
    }
}

#[test]
fn noise_of_the_build_tool_is_dropped() {
    for noise in [
        "   Compiling preval v0.1.0",
        "    Finished dev [unoptimized] target(s) in 0.5s",
        "     Running `target/debug/mock_evaluator`",
        "warning: see target/debug/deps/x.d",
        "",
        "   \t",
    ] {
        assert_eq!(stderr_message(noise), None, "{:?}", noise);
    }
    assert_eq!(
        stderr_message("  error: it broke "),
        Some(EvaluatorMessage::Output("stderr:   error: it broke ".to_string()))
    );
    assert_eq!(
        stderr_message("not Compiling"),
        Some(EvaluatorMessage::Output("stderr: not Compiling".to_string()))
    );
    assert_eq!(
        stderr_message("compiling"),
        Some(EvaluatorMessage::Output("stderr: compiling".to_string()))
    );
}

#[test]
fn a_process_that_is_gone_has_ended_somehow() {
    assert_eq!(liveness_message(true), None);
    match liveness_message(false) {
        Some(EvaluatorMessage::Exited(status)) => {
            assert!(!status.success());
            assert_eq!(status.code(), None);
        }
        other => panic!("unexpected {:?}", other),
    }
    let status = ExitStatus::new(true, Some(0));
    assert!(status.success());
    assert_eq!(status.code(), Some(0));
}
