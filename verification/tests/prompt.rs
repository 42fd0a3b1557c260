use balancebeam::commands::{parse_address, DebuggerCommand};
use balancebeam::words::{apply_guess, collect_words, count_lines, pick_a_random_word};

#[test]
fn test_from_tokens_quit() {
    assert_eq!(
        DebuggerCommand::from_tokens(&vec!["q"]),
        Some(DebuggerCommand::Quit)
    );
    assert_eq!(
        DebuggerCommand::from_tokens(&vec!["quit"]),
        Some(DebuggerCommand::Quit)
    );
}

#[test]
fn test_from_tokens_run_collects_args() {
    let cmd = DebuggerCommand::from_tokens(&vec!["r", "one", "two"]);
    assert_eq!(
        cmd,
        Some(DebuggerCommand::Run(vec![
            String::from("one"),
            String::from("two")
        ]))
    );
    let bare = DebuggerCommand::from_tokens(&vec!["run"]);
    assert_eq!(bare, Some(DebuggerCommand::Run(vec![])));
}

#[test]
fn test_from_tokens_continue_and_backtrace() {
    assert_eq!(
        DebuggerCommand::from_tokens(&vec!["c"]),
        Some(DebuggerCommand::Continue)
    );
    assert_eq!(
        DebuggerCommand::from_tokens(&vec!["cont"]),
        Some(DebuggerCommand::Continue)
    );
    assert_eq!(
        DebuggerCommand::from_tokens(&vec!["bt"]),
        Some(DebuggerCommand::BackTrace)
    );
    assert_eq!(
        DebuggerCommand::from_tokens(&vec!["backtrace"]),
        Some(DebuggerCommand::BackTrace)
    );
}

#[test]
fn test_from_tokens_breakpoint_joins_args() {
    assert_eq!(
        DebuggerCommand::from_tokens(&vec!["b", "*0x1234"]),
        Some(DebuggerCommand::Breakpoint(String::from("*0x1234")))
    );
    assert_eq!(
        DebuggerCommand::from_tokens(&vec!["break", "ab", "cd"]),
        Some(DebuggerCommand::Breakpoint(String::from("abcd")))
    );
}

#[test]
fn test_from_tokens_unknown_word() {
    assert_eq!(DebuggerCommand::from_tokens(&vec!["step"]), None);
    assert_eq!(DebuggerCommand::from_tokens(&vec!["Q"]), None);
}

#[test]
fn test_parse_address_hex_forms() {
    assert_eq!(parse_address("0x1f"), Some(31));
    assert_eq!(parse_address("0X1F"), Some(31));
    assert_eq!(parse_address("1f"), Some(31));
    assert_eq!(parse_address("10"), Some(16));
    assert_eq!(parse_address("+10"), Some(16));
    assert_eq!(parse_address("0"), Some(0));
}

#[test]
fn test_parse_address_rejects_bad_input() {
    assert_eq!(parse_address(""), None);
    assert_eq!(parse_address("0x"), None);
    assert_eq!(parse_address("zz"), None);
    assert_eq!(parse_address("0x12g4"), None);
    assert_eq!(parse_address("-10"), None);
    // seventeen hexadecimal digits outgrow a 64-bit machine word
    assert_eq!(parse_address("0x10000000000000000"), None);
}

#[test]
fn test_collect_words_drops_empty_lines() {
    let words = collect_words("alpha\n\nbeta\ngamma\n");
    assert_eq!(
        words,
        vec![
            String::from("alpha"),
            String::from("beta"),
            String::from("gamma")
        ]
    );
    assert_eq!(collect_words(""), Vec::<String>::new());
    assert_eq!(collect_words("\n\n"), Vec::<String>::new());
    assert_eq!(collect_words("solo"), vec![String::from("solo")]);
}

#[test]
fn test_pick_a_random_word() {
    assert_eq!(pick_a_random_word("\n\n"), None);
    assert_eq!(pick_a_random_word(""), None);
    // one candidate, carriage return trimmed away
    assert_eq!(pick_a_random_word("  word \r\n\n"), Some(String::from("word")));
    let picked = pick_a_random_word("aa\nbb\ncc\n").unwrap();
    assert!(picked == "aa" || picked == "bb" || picked == "cc");
}

#[test]
fn test_count_lines() {
    assert_eq!(count_lines(""), 0);
    assert_eq!(count_lines("a"), 1);
    assert_eq!(count_lines("a\n"), 1);
    assert_eq!(count_lines("a\nb"), 2);
    assert_eq!(count_lines("a\nb\n"), 2);
    assert_eq!(count_lines("\n"), 1);
    assert_eq!(count_lines("\n\n"), 2);
}

#[test]
fn test_apply_guess_reveals_and_counts() {
    let secret: Vec<char> = "banana".chars().collect();
    let mut shown: Vec<char> = "------".chars().collect();
    let outcome = apply_guess(&secret, &mut shown, 'a');
    assert_eq!(shown, "-a-a-a".chars().collect::<Vec<char>>());
    assert_eq!(outcome.matched, 3);
    assert_eq!(outcome.hidden_left, 3);
    let missed = apply_guess(&secret, &mut shown, 'z');
    assert_eq!(missed.matched, 0);
    assert_eq!(missed.hidden_left, 3);
    apply_guess(&secret, &mut shown, 'b');
    let done = apply_guess(&secret, &mut shown, 'n');
    assert_eq!(done.hidden_left, 0);
    assert_eq!(shown, "banana".chars().collect::<Vec<char>>());
}
