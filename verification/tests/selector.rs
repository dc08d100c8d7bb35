use mfa_session::selector::{select, Key, Reply, Selector};

fn options(names: &[&str]) -> Vec<String> {
    names.iter().map(|name| name.to_string()).collect()
}

#[test]
fn selector_needs_an_option() {
    assert!(Selector::new(Vec::new()).is_none());
    assert!(Selector::new(options(&["only"])).is_some());
}

#[test]
fn cursor_starts_on_the_first_option() {
    let selector = Selector::new(options(&["a", "b", "c"])).unwrap();
    assert_eq!(selector.cursor(), 0);
    assert_eq!(selector.len(), 3);
    assert_eq!(selector.current(), "a");
}

#[test]
fn down_from_the_last_option_leads_to_the_first() {
    let mut selector = Selector::new(options(&["a", "b", "c"])).unwrap();
    assert_eq!(selector.press(Key::Down), Reply::Redraw);
    assert_eq!(selector.cursor(), 1);
    assert_eq!(selector.press(Key::Down), Reply::Redraw);
    assert_eq!(selector.cursor(), 2);
    assert_eq!(selector.press(Key::Down), Reply::Redraw);
    assert_eq!(selector.cursor(), 0);
    assert_eq!(selector.current(), "a");
}

#[test]
fn up_from_the_first_option_leads_to_the_last() {
    let mut selector = Selector::new(options(&["a", "b", "c"])).unwrap();
    assert_eq!(selector.press(Key::Up), Reply::Redraw);
    assert_eq!(selector.cursor(), 2);
    assert_eq!(selector.current(), "c");
    assert_eq!(selector.press(Key::Up), Reply::Redraw);
    assert_eq!(selector.cursor(), 1);
}

#[test]
fn two_options_wrap_both_ways() {
    let mut selector = Selector::new(options(&["a", "b"])).unwrap();
    selector.press(Key::Down);
    assert_eq!(selector.cursor(), 1);
    selector.press(Key::Down);
    assert_eq!(selector.cursor(), 0);
    selector.press(Key::Up);
    assert_eq!(selector.cursor(), 1);
    selector.press(Key::Up);
    assert_eq!(selector.cursor(), 0);
}

#[test]
fn single_option_is_confirmed_without_navigation() {
    let mut selector = Selector::new(options(&["only"])).unwrap();
    assert_eq!(selector.press(Key::Confirm), Reply::Chosen(0));
    assert_eq!(selector.current(), "only");
    let list = options(&["only"]);
    assert_eq!(select(&list, &vec![Key::Confirm]), Some(&list[0]));
}

#[test]
fn single_option_stays_under_the_cursor() {
    let mut selector = Selector::new(options(&["only"])).unwrap();
    assert_eq!(selector.press(Key::Down), Reply::Wait);
    assert_eq!(selector.cursor(), 0);
    assert_eq!(selector.press(Key::Up), Reply::Wait);
    assert_eq!(selector.cursor(), 0);
}

#[test]
fn confirm_and_cancel_leave_the_cursor() {
    let mut selector = Selector::new(options(&["a", "b", "c"])).unwrap();
    selector.press(Key::Down);
    assert_eq!(selector.press(Key::Confirm), Reply::Chosen(1));
    assert_eq!(selector.cursor(), 1);
    assert_eq!(selector.press(Key::Cancel), Reply::Cancelled);
    assert_eq!(selector.cursor(), 1);
    assert_eq!(selector.press(Key::Other), Reply::Wait);
    assert_eq!(selector.cursor(), 1);
}

#[test]
fn lines_mark_the_option_under_the_cursor() {
    let mut selector = Selector::new(options(&["alpha", "beta", "gamma"])).unwrap();
    assert_eq!(selector.lines(), options(&["> alpha", "  beta", "  gamma"]));
    selector.press(Key::Up);
    assert_eq!(selector.lines(), options(&["  alpha", "  beta", "> gamma"]));
}

#[test]
fn select_gives_the_option_under_the_cursor_at_confirm() {
    let list = options(&["a", "b", "c"]);
    let keys = vec![Key::Down, Key::Other, Key::Down, Key::Down, Key::Down, Key::Confirm, Key::Down];
    assert_eq!(select(&list, &keys), Some(&list[1]));
    let keys = vec![Key::Up, Key::Confirm];
    assert_eq!(select(&list, &keys), Some(&list[2]));
}

#[test]
fn select_gives_a_member_of_the_list() {
    let list = options(&["x", "y", "z", "w"]);
    let moves = [Key::Up, Key::Down, Key::Other];
    for a in moves {
        for b in moves {
            for c in moves {
                let chosen = select(&list, &vec![a, b, c, Key::Confirm]).unwrap();
                assert!(list.contains(chosen));
            }
        }
    }
}

#[test]
fn select_without_confirm_gives_nothing() {
    let list = options(&["a", "b"]);
    assert_eq!(select(&list, &vec![Key::Down, Key::Cancel, Key::Confirm]), None);
    assert_eq!(select(&list, &vec![Key::Down, Key::Up]), None);
    assert_eq!(select(&list, &Vec::new()), None);
    assert_eq!(select(&Vec::new(), &vec![Key::Confirm]), None);
}
