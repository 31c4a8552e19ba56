use action_script::actions::{Direction, Registry, Token};
use action_script::compile::{compile, reload};
use action_script::error::{ErrorKind, SourceSyntaxError};
use action_script::keys::{Key, MouseButton};

#[test]
fn greet_scenario_compiles() {
    let reg = compile("greet:\ntype hello\nwait 100\nend").unwrap();
    let a = reg.get("greet").unwrap();
    assert_eq!(
        a.instructions,
        vec![Token::Type(String::from("hello")), Token::Wait(100), Token::End]
    );
    assert_eq!(a.name, Some(String::from("greet")));
}

#[test]
fn combo_scenario_hold_mouse_lowers() {
    let reg = compile("combo:\nhold mouse left 50\nend").unwrap();
    let a = reg.get("combo").unwrap();
    assert_eq!(
        a.instructions,
        vec![
            Token::Click { button: MouseButton::Left, release: false },
            Token::Wait(50),
            Token::Click { button: MouseButton::Left, release: true },
            Token::End,
        ]
    );
}

#[test]
fn hold_key_lowers_to_press_wait_release() {
    let reg = compile("x:\nhold ctrl 100\nend").unwrap();
    let a = reg.get("x").unwrap();
    assert_eq!(
        a.instructions,
        vec![
            Token::Key { button: Key::Control, release: false },
            Token::Wait(100),
            Token::Key { button: Key::Control, release: true },
            Token::End,
        ]
    );
}

#[test]
fn move_up_compiles() {
    let reg = compile("m:\nmove up 20\nend").unwrap();
    let a = reg.get("m").unwrap();
    assert_eq!(
        a.instructions,
        vec![Token::MouseMove { direction: Direction::Up, distance: 20 }, Token::End]
    );
}

#[test]
fn move_diagonal_is_a_syntax_error_with_line() {
    let e = compile("m:\nmove diagonal 5\nend").unwrap_err();
    assert_eq!(e, SourceSyntaxError { line: 2, kind: ErrorKind::BadDirection });
}

#[test]
fn forward_and_self_reference_resolve() {
    let reg = compile("a:\nb\nend\nb:\na\nend").unwrap();
    assert_eq!(
        reg.get("a").unwrap().instructions,
        vec![Token::Call(String::from("b")), Token::End]
    );
    assert_eq!(
        reg.get("b").unwrap().instructions,
        vec![Token::Call(String::from("a")), Token::End]
    );
}

#[test]
fn self_reference_resolves() {
    let reg = compile("again:\nagain\nend").unwrap();
    assert_eq!(
        reg.get("again").unwrap().instructions,
        vec![Token::Call(String::from("again")), Token::End]
    );
}

#[test]
fn trailing_comment_compiles_identically() {
    let with = compile("x:\npress ctrl // hold this\nend").unwrap();
    let without = compile("x:\npress ctrl\nend").unwrap();
    assert_eq!(
        with.get("x").unwrap().instructions,
        without.get("x").unwrap().instructions
    );
}

#[test]
fn comment_only_line_contributes_nothing() {
    let with = compile("x:\n   // nothing here\npress a\n\nend").unwrap();
    let without = compile("x:\npress a\nend").unwrap();
    assert_eq!(
        with.get("x").unwrap().instructions,
        without.get("x").unwrap().instructions
    );
}

#[test]
fn comment_marker_cuts_mid_token() {
    // the marker may start inside a token; the rest of the line goes
    let reg = compile("x:\npress ctrl//note more words\nend").unwrap();
    assert_eq!(
        reg.get("x").unwrap().instructions,
        vec![Token::Key { button: Key::Control, release: false }, Token::End]
    );
}

#[test]
fn crlf_line_endings_compile_the_same() {
    let unix = compile("greet:\ntype hello\nwait 100\nend").unwrap();
    let dos = compile("greet:\r\ntype hello\r\nwait 100\r\nend").unwrap();
    assert_eq!(
        unix.get("greet").unwrap().instructions,
        dos.get("greet").unwrap().instructions
    );
}

#[test]
fn type_joins_words_with_single_spaces() {
    let reg = compile("t:\ntype hello   world  now\nend").unwrap();
    assert_eq!(
        reg.get("t").unwrap().instructions,
        vec![Token::Type(String::from("hello world now")), Token::End]
    );
}

#[test]
fn type_with_nothing_gives_empty_text() {
    let reg = compile("t:\ntype\nend").unwrap();
    assert_eq!(
        reg.get("t").unwrap().instructions,
        vec![Token::Type(String::from("")), Token::End]
    );
}

#[test]
fn empty_source_gives_empty_registry() {
    let reg = compile("").unwrap();
    assert!(reg.get("anything").is_none());
    assert_eq!(reg.names(), Vec::<String>::new());
    assert!(Registry::empty().get("anything").is_none());
}

#[test]
fn lookup_miss_is_none_not_error() {
    let reg = compile("greet:\ntype hi\nend").unwrap();
    assert!(reg.get("gree").is_none());
    assert!(reg.get("greet ").is_none());
    assert!(reg.get("greet").is_some());
}

#[test]
fn wait_without_number_is_bad_integer() {
    let e = compile("x:\nwait abc\nend").unwrap_err();
    assert_eq!(e, SourceSyntaxError { line: 2, kind: ErrorKind::BadInteger });
}

#[test]
fn hold_without_duration_is_bad_integer() {
    let e = compile("x:\nhold ctrl\nend").unwrap_err();
    assert_eq!(e, SourceSyntaxError { line: 2, kind: ErrorKind::BadInteger });
    let e = compile("x:\nhold mouse left\nend").unwrap_err();
    assert_eq!(e, SourceSyntaxError { line: 2, kind: ErrorKind::BadInteger });
}

#[test]
fn press_middle_hints_at_mouse_button() {
    let e = compile("x:\npress middle\nend").unwrap_err();
    assert_eq!(e, SourceSyntaxError { line: 2, kind: ErrorKind::BadKey { button_hint: true } });
}

#[test]
fn press_unknown_key_has_no_hint() {
    let e = compile("x:\npress frobnicate\nend").unwrap_err();
    assert_eq!(e, SourceSyntaxError { line: 2, kind: ErrorKind::BadKey { button_hint: false } });
}

#[test]
fn press_unknown_mouse_button_is_bad_button() {
    let e = compile("x:\npress mouse side\nend").unwrap_err();
    assert_eq!(e, SourceSyntaxError { line: 2, kind: ErrorKind::BadButton });
}

#[test]
fn end_without_name_is_missing_name() {
    let e = compile("press a\nend").unwrap_err();
    assert_eq!(e, SourceSyntaxError { line: 2, kind: ErrorKind::MissingName });
}

#[test]
fn unknown_instruction_names_its_line() {
    let e = compile("x:\nfrobnicate the gizmo\nend").unwrap_err();
    assert_eq!(e, SourceSyntaxError { line: 2, kind: ErrorKind::UnknownInstruction });
}

#[test]
fn unterminated_macro_fails_whole_compile() {
    let e = compile("a:\npress a").unwrap_err();
    assert_eq!(e, SourceSyntaxError { line: 1, kind: ErrorKind::Unterminated });
}

#[test]
fn header_before_end_leaves_first_macro_unterminated() {
    let e = compile("a:\npress x\nb:\nend").unwrap_err();
    assert_eq!(e, SourceSyntaxError { line: 1, kind: ErrorKind::Unterminated });
}

#[test]
fn repeated_header_keeps_gathered_instructions() {
    // a second header simply (re)sets the name under construction
    let reg = compile("a:\npress x\na:\npress y\nend").unwrap();
    assert_eq!(
        reg.get("a").unwrap().instructions,
        vec![
            Token::Key { button: Key::Layout('x'), release: false },
            Token::Key { button: Key::Layout('y'), release: false },
            Token::End,
        ]
    );
}

#[test]
fn signed_distances_parse() {
    let reg = compile("m:\nmove up -20\nmove left +7\nend").unwrap();
    assert_eq!(
        reg.get("m").unwrap().instructions,
        vec![
            Token::MouseMove { direction: Direction::Up, distance: -20 },
            Token::MouseMove { direction: Direction::Left, distance: 7 },
            Token::End,
        ]
    );
}

#[test]
fn distance_range_is_exactly_i32() {
    let reg = compile("m:\nmove up 2147483647\nmove down -2147483648\nend").unwrap();
    assert_eq!(
        reg.get("m").unwrap().instructions,
        vec![
            Token::MouseMove { direction: Direction::Up, distance: 2147483647 },
            Token::MouseMove { direction: Direction::Down, distance: -2147483648 },
            Token::End,
        ]
    );
    let e = compile("m:\nmove up 2147483648\nend").unwrap_err();
    assert_eq!(e, SourceSyntaxError { line: 2, kind: ErrorKind::BadInteger });
    let e = compile("m:\nmove down -2147483649\nend").unwrap_err();
    assert_eq!(e, SourceSyntaxError { line: 2, kind: ErrorKind::BadInteger });
}

#[test]
fn duration_range_is_exactly_u64() {
    let reg = compile("w:\nwait 18446744073709551615\nend").unwrap();
    assert_eq!(
        reg.get("w").unwrap().instructions,
        vec![Token::Wait(18446744073709551615), Token::End]
    );
    let e = compile("w:\nwait 18446744073709551616\nend").unwrap_err();
    assert_eq!(e, SourceSyntaxError { line: 2, kind: ErrorKind::BadInteger });
    let e = compile("w:\nwait -5\nend").unwrap_err();
    assert_eq!(e, SourceSyntaxError { line: 2, kind: ErrorKind::BadInteger });
}

#[test]
fn lexicon_accepts_named_keys_and_characters() {
    let reg = compile(
        "k:\npress f5\npress space\npress win\nrelease enter\npress a\npress A\npress 0\npress ;\npress /\nend",
    )
    .unwrap();
    assert_eq!(
        reg.get("k").unwrap().instructions,
        vec![
            Token::Key { button: Key::F5, release: false },
            Token::Key { button: Key::Space, release: false },
            Token::Key { button: Key::Meta, release: false },
            Token::Key { button: Key::Return, release: true },
            Token::Key { button: Key::Layout('a'), release: false },
            Token::Key { button: Key::Layout('A'), release: false },
            Token::Key { button: Key::Layout('0'), release: false },
            Token::Key { button: Key::Layout(';'), release: false },
            Token::Key { button: Key::Layout('/'), release: false },
            Token::End,
        ]
    );
}

#[test]
fn press_left_is_the_arrow_key() {
    let reg = compile("k:\npress left\npress mouse left\nend").unwrap();
    assert_eq!(
        reg.get("k").unwrap().instructions,
        vec![
            Token::Key { button: Key::LeftArrow, release: false },
            Token::Click { button: MouseButton::Left, release: false },
            Token::End,
        ]
    );
}

#[test]
fn extra_tokens_after_an_instruction_are_ignored() {
    let reg = compile("x:\npress ctrl and more\nend").unwrap();
    assert_eq!(
        reg.get("x").unwrap().instructions,
        vec![Token::Key { button: Key::Control, release: false }, Token::End]
    );
}

#[test]
fn every_compiled_macro_ends_in_exactly_one_terminator() {
    let reg = compile("a:\nb\nend\nb:\nhold f1 5\nwait 1\ntype done\nend").unwrap();
    for name in ["a", "b"] {
        let insts = &reg.get(name).unwrap().instructions;
        assert_eq!(insts.last(), Some(&Token::End));
        let ends = insts.iter().filter(|t| **t == Token::End).count();
        assert_eq!(ends, 1);
    }
}

#[test]
fn failed_reload_keeps_previous_registry() {
    let mut reg = compile("greet:\ntype hi\nend").unwrap();
    let err = reload(&mut reg, "greet:\nmove diagonal 5\nend");
    assert_eq!(
        err,
        Some(SourceSyntaxError { line: 2, kind: ErrorKind::BadDirection })
    );
    // the still-valid previous registry remains active
    assert_eq!(
        reg.get("greet").unwrap().instructions,
        vec![Token::Type(String::from("hi")), Token::End]
    );
}

#[test]
fn names_lists_macros_in_finalization_order() {
    let reg = compile("a:\nb\nend\nb:\nwait 1\nend").unwrap();
    assert_eq!(reg.names(), vec![String::from("a"), String::from("b")]);
}

#[test]
fn plus_signs_and_leading_zeros_parse() {
    let reg = compile("n:\nwait +5\nmove up 0020\nend").unwrap();
    assert_eq!(
        reg.get("n").unwrap().instructions,
        vec![
            Token::Wait(5),
            Token::MouseMove { direction: Direction::Up, distance: 20 },
            Token::End,
        ]
    );
}

#[test]
fn successful_reload_replaces_wholesale() {
    let mut reg = compile("old_one:\ntype hi\nend").unwrap();
    let err = reload(&mut reg, "new_one:\nwait 5\nend");
    assert!(err.is_none());
    assert!(reg.get("old_one").is_none());
    assert_eq!(
        reg.get("new_one").unwrap().instructions,
        vec![Token::Wait(5), Token::End]
    );
}
