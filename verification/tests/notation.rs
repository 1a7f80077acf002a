use poker_lobby::action::Action;

#[test]
fn compile_action_gives_the_short_text() {
    assert_eq!(Action::Check.compile_action(), "c");
    assert_eq!(Action::Call.compile_action(), "ca");
    assert_eq!(Action::Fold.compile_action(), "f");
    assert_eq!(Action::AllIn.compile_action(), "a");
    assert_eq!(Action::Raise(0).compile_action(), "r-0");
    assert_eq!(Action::Raise(7).compile_action(), "r-7");
    assert_eq!(Action::Raise(10).compile_action(), "r-10");
    assert_eq!(Action::Raise(20).compile_action(), "r-20");
    assert_eq!(Action::Raise(1090).compile_action(), "r-1090");
    assert_eq!(Action::Raise(i32::MAX).compile_action(), "r-2147483647");
    assert_eq!(Action::Raise(-5).compile_action(), "r--5");
    assert_eq!(Action::Raise(i32::MIN).compile_action(), "r--2147483648");
}

#[test]
fn from_text_reads_the_short_text() {
    assert_eq!(Action::from_text("c"), Some(Action::Check));
    assert_eq!(Action::from_text("ca"), Some(Action::Call));
    assert_eq!(Action::from_text("f"), Some(Action::Fold));
    assert_eq!(Action::from_text("a"), Some(Action::AllIn));
    assert_eq!(Action::from_text("r-0"), Some(Action::Raise(0)));
    assert_eq!(Action::from_text("r-20"), Some(Action::Raise(20)));
    assert_eq!(Action::from_text("r-007"), Some(Action::Raise(7)));
    assert_eq!(Action::from_text("r-2147483647"), Some(Action::Raise(i32::MAX)));
    assert_eq!(Action::from_text("r-0000000000002147483647"), Some(Action::Raise(i32::MAX)));
}

#[test]
fn from_text_refuses_everything_else() {
    for text in [
        "", "x", "C", "cc", "ac", "fa", "ca ", " c", "call", "r", "r-", "r5", "rr5", "r-+5", "r--5",
        "r-5x", "r-x5", "r- 5", "r-5 ", "r-2147483648", "r-4294967296", "r-99999999999999999999",
        "r-１", "ĉ", "r-5.0", "R-5",
    ] {
        assert_eq!(Action::from_text(text), None, "{:?}", text);
    }
}

#[test]
fn short_text_round_trip() {
    let mut actions = vec![Action::Check, Action::Call, Action::Fold, Action::AllIn];
    for amount in [0, 1, 9, 10, 11, 99, 100, 101, 12345, 1_000_000_000, i32::MAX - 1, i32::MAX] {
        actions.push(Action::Raise(amount));
    }
    for action in actions {
        assert_eq!(Action::from_text(&action.compile_action()), Some(action));
    }
    assert_eq!(Action::from_text(&Action::Raise(-1).compile_action()), None);
}
