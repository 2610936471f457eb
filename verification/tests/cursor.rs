use bufcycle::cursor::{step, Action, Key, UiEvent};

fn press(k: Key) -> UiEvent {
    UiEvent::KeyDown(k)
}

#[test]
fn left_from_zero_wraps_to_top() {
    // One Left press from 0 with five buffers lands on 4, not -1.
    let (cur, action) = step(0, 5, &press(Key::Left));
    assert_eq!(cur, 4);
    assert_eq!(action, Action::Continue);
}

#[test]
fn right_moves_and_wraps() {
    assert_eq!(step(0, 5, &press(Key::Right)).0, 1);
    assert_eq!(step(4, 5, &press(Key::Right)).0, 0);
    assert_eq!(step(0, 1, &press(Key::Right)).0, 0);
}

#[test]
fn up_and_down_move_by_ten() {
    assert_eq!(step(0, 419, &press(Key::Up)).0, 10);
    assert_eq!(step(415, 419, &press(Key::Up)).0, 6);
    assert_eq!(step(15, 419, &press(Key::Down)).0, 5);
    assert_eq!(step(0, 419, &press(Key::Down)).0, 409);
    assert_eq!(step(4, 5, &press(Key::Up)).0, 4);
    assert_eq!(step(4, 5, &press(Key::Down)).0, 4);
    assert_eq!(step(2, 3, &press(Key::Up)).0, 0);
}

#[test]
fn any_press_sequence_stays_in_range() {
    let n = 7;
    let mut cur = 0;
    let presses = [
        Key::Left,
        Key::Down,
        Key::Down,
        Key::Right,
        Key::Up,
        Key::Up,
        Key::Up,
        Key::Left,
        Key::Down,
        Key::Right,
    ];
    for k in presses {
        let (next, action) = step(cur, n, &press(k));
        assert!(next < n);
        assert_eq!(action, Action::Continue);
        cur = next;
    }
    // 0 →L 6 →D 3 →D 0 →R 1 →U 4 →U 0 →U 3 →L 2 →D 6 →R 0.
    assert_eq!(cur, 0);
}

#[test]
fn quit_events_stop_without_saving() {
    for ev in [UiEvent::Quit, press(Key::Escape), press(Key::Q)] {
        let (cur, action) = step(3, 5, &ev);
        assert_eq!(action, Action::Quit);
        assert_ne!(action, Action::SaveFrame);
        assert_eq!(cur, 3);
    }
}

#[test]
fn space_asks_for_the_current_frame() {
    let (cur, action) = step(2, 5, &press(Key::Space));
    assert_eq!(action, Action::SaveFrame);
    assert_eq!(cur, 2);
}

#[test]
fn other_events_do_nothing() {
    assert_eq!(step(2, 5, &press(Key::Other)), (2, Action::Continue));
    assert_eq!(step(2, 5, &UiEvent::Other), (2, Action::Continue));
}
