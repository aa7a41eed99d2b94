//! What the pointer events on the board canvas lead to.
//!
//! The board tracks whether the pointer is over the canvas. A stone is shown
//! under the pointer, and played on a click, only while it is.

use vstd::prelude::*;

verus! {

/// A pointer event on the board canvas.
#[derive(Clone, Copy, Debug, PartialEq, Eq)]
pub enum PointerEvent {
    /// The pointer entered the canvas.
    Enter,
    /// The pointer moved over the canvas.
    Move,
    /// The pointer left the canvas.
    Leave,
    /// A button was pressed over the canvas.
    Down,
}

/// What the board does on a pointer event.
#[derive(Clone, Copy, Debug, PartialEq, Eq)]
pub enum Action {
    /// Nothing.
    Nothing,
    /// Show a translucent stone at the point under the pointer.
    ShowDummy,
    /// Remove the translucent stone.
    ClearDummy,
    /// Play a stone at the point under the pointer.
    PlayStone,
}

/// The step taken on `event` when `entered` tells whether the pointer is over
/// the canvas: whether it is over it afterwards, and the action.
pub open spec fn step(entered: bool, event: PointerEvent) -> (bool, Action) {
    match event {
        PointerEvent::Enter => (true, Action::Nothing),
        PointerEvent::Move => (entered, if entered { Action::ShowDummy } else { Action::Nothing }),
        PointerEvent::Leave => (false, Action::ClearDummy),
        PointerEvent::Down => (entered, if entered { Action::PlayStone } else { Action::Nothing }),
    }
}

/// Takes one step ([`step`]): entering marks the pointer as over the canvas;
/// a move shows the stone under it and a press plays it, while it is over
/// the canvas; leaving removes the shown stone and marks it as outside.
pub fn on_event(entered: bool, event: PointerEvent) -> (next: (bool, Action))
    ensures
        next == step(entered, event),
{
    match event {
        PointerEvent::Enter => (true, Action::Nothing),
        PointerEvent::Move => (entered, if entered { Action::ShowDummy } else { Action::Nothing }),
        PointerEvent::Leave => (false, Action::ClearDummy),
        PointerEvent::Down => (entered, if entered { Action::PlayStone } else { Action::Nothing }),
    }
}

/// The steps taken on a sequence of events, from `entered`: the last
/// `(entered, action)` pair, or `(entered, Nothing)` for no event.
pub open spec fn run(entered: bool, events: Seq<PointerEvent>) -> (bool, Action)
    decreases events.len(),
{
    if events.len() == 0 {
        (entered, Action::Nothing)
    } else {
        step(run(entered, events.drop_last()).0, events.last())
    }
}

/// After the pointer leaves the canvas, and until it enters again, moves and
/// presses neither show nor play a stone.
pub proof fn lemma_nothing_while_outside(events: Seq<PointerEvent>)
    requires
        forall|i: int| 0 <= i < events.len() ==> #[trigger] events[i] != PointerEvent::Enter,
    ensures
        !run(false, events).0,
        run(false, events).1 != Action::ShowDummy,
        run(false, events).1 != Action::PlayStone,
    decreases events.len(),
{
    if events.len() > 0 {
        let front = events.drop_last();
        assert forall|i: int| 0 <= i < front.len() implies #[trigger] front[i]
            != PointerEvent::Enter by {
            assert(front[i] == events[i]);
        }
        lemma_nothing_while_outside(front);
        assert(events.last() == events[events.len() - 1]);
    }
}

/// Entering the canvas, with no leave since, lets a press play a stone.
pub proof fn lemma_press_plays_after_enter(events: Seq<PointerEvent>, entered: bool)
    requires
        events.len() > 0,
        events[0] == PointerEvent::Enter,
        forall|i: int| 0 <= i < events.len() ==> #[trigger] events[i] != PointerEvent::Leave,
    ensures
        run(entered, events).0,
        run(entered, events.push(PointerEvent::Down)).1 == Action::PlayStone,
    decreases events.len(),
{
    if events.len() > 1 {
        let front = events.drop_last();
        assert forall|i: int| 0 <= i < front.len() implies #[trigger] front[i]
            != PointerEvent::Leave by {
            assert(front[i] == events[i]);
        }
        assert(front[0] == events[0]);
        lemma_press_plays_after_enter(front, entered);
        assert(events.last() == events[events.len() - 1]);
    } else {
        assert(events.drop_last().len() == 0);
        assert(events.last() == events[0]);
    }
    let pressed = events.push(PointerEvent::Down);
    assert(pressed.drop_last() =~= events);
    assert(pressed.last() == PointerEvent::Down);
    assert(run(entered, pressed) == step(run(entered, events).0, PointerEvent::Down));
}

} // verus!
