use wasm_goban::events::{on_event, Action, PointerEvent};

#[test]
fn each_event_outside_and_inside() {
    assert_eq!(on_event(false, PointerEvent::Enter), (true, Action::Nothing));
    assert_eq!(on_event(true, PointerEvent::Enter), (true, Action::Nothing));
    assert_eq!(on_event(false, PointerEvent::Move), (false, Action::Nothing));
    assert_eq!(on_event(true, PointerEvent::Move), (true, Action::ShowDummy));
    assert_eq!(on_event(false, PointerEvent::Leave), (false, Action::ClearDummy));
    assert_eq!(on_event(true, PointerEvent::Leave), (false, Action::ClearDummy));
    assert_eq!(on_event(false, PointerEvent::Down), (false, Action::Nothing));
    assert_eq!(on_event(true, PointerEvent::Down), (true, Action::PlayStone));
}

#[test]
fn nothing_is_played_after_leaving() {
    let mut entered = false;
    let mut actions = Vec::new();
    for ev in [
        PointerEvent::Enter,
        PointerEvent::Move,
        PointerEvent::Down,
        PointerEvent::Leave,
        PointerEvent::Move,
        PointerEvent::Down,
    ] {
        let (next, action) = on_event(entered, ev);
        entered = next;
        actions.push(action);
    }
    assert_eq!(
        actions,
        vec![
            Action::Nothing,
            Action::ShowDummy,
            Action::PlayStone,
            Action::ClearDummy,
            Action::Nothing,
            Action::Nothing,
        ]
    );
    assert!(!entered);
}
