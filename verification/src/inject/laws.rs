//! What injection promises, said of what is down on the machine.

use vstd::prelude::*;

use crate::inject;
use crate::inject::{Call, Injector, KeyId};
use crate::protocol::{Button, InputEvent};

verus! {

/// The keys and buttons that are down on the machine.
pub struct Down {
    pub keys: Set<KeyId>,
    pub buttons: Set<Button>,
}

/// What is down after a call: a press adds to it, a release takes from it.
pub open spec fn after_call(down: Down, call: Call) -> Down {
    match call {
        Call::Key { key, down: true } => Down { keys: down.keys.insert(key), ..down },
        Call::Key { key, down: false } => Down { keys: down.keys.remove(key), ..down },
        Call::Button { button, down: true } => Down {
            buttons: down.buttons.insert(button),
            ..down
        },
        Call::Button { button, down: false } => Down {
            buttons: down.buttons.remove(button),
            ..down
        },
        _ => down,
    }
}

/// What is down after some calls, one after the other.
pub open spec fn after_calls(down: Down, calls: Seq<Call>) -> Down
    decreases calls.len(),
{
    if calls.len() == 0 {
        down
    } else {
        after_call(after_calls(down, calls.drop_last()), calls.last())
    }
}

/// What the injector believes to be down.
pub open spec fn ledger(injector: Injector) -> Down {
    Down { keys: injector.keys@.to_set(), buttons: injector.buttons@.to_set() }
}

/// With a backend every event becomes the one call that does the same: the same
/// place, the same button or key in the same direction, the same turn of the
/// wheel, the same text. Without one nothing is called.
pub proof fn events_become_calls(injector: Injector, event: InputEvent)
    ensures
        !injector.open ==> injector.calls_for(event) == Seq::<Call>::empty(),
        injector.open ==> match event {
            InputEvent::MoveAbs { x, y } => injector.calls_for(event) == seq![
                Call::MoveAbs { x, y },
            ],
            InputEvent::Button { button, down: true } => injector.calls_for(event) == seq![
                Call::Button { button, down: true },
            ],
            InputEvent::Button { button, down: false } => injector.calls_for(event) == seq![
                Call::Button { button, down: false },
            ],
            InputEvent::Wheel { dx, dy } => injector.calls_for(event) == seq![
                Call::Wheel { dx, dy },
            ],
            InputEvent::Key { vk, scan, ext, down: true } => injector.calls_for(event) == seq![
                Call::Key { key: KeyId { vk, scan, ext }, down: true },
            ],
            InputEvent::Key { vk, scan, ext, down: false } => injector.calls_for(event) == seq![
                Call::Key { key: KeyId { vk, scan, ext }, down: false },
            ],
            InputEvent::Text(text) => injector.calls_for(event) == seq![Call::Text(text)],
            InputEvent::ReleaseAll => true,
        },
{
}

/// The ledger follows the events: a key is on it after an event exactly if the
/// event pressed it, or it was there and the event did not let go of it; and the
/// same of buttons.
pub proof fn the_ledger_follows_the_events(
    injector: Injector,
    event: InputEvent,
    key: KeyId,
    button: Button,
)
    ensures
        injector.keys_after(event).contains(key) <==> match event {
            InputEvent::Key { vk, scan, ext, down } => if key == (KeyId { vk, scan, ext }) {
                down
            } else {
                injector.keys@.contains(key)
            },
            InputEvent::ReleaseAll => false,
            _ => injector.keys@.contains(key),
        },
        injector.buttons_after(event).contains(button) <==> match event {
            InputEvent::Button { button: which, down } => if button == which {
                down
            } else {
                injector.buttons@.contains(button)
            },
            InputEvent::ReleaseAll => false,
            _ => injector.buttons@.contains(button),
        },
{
    match event {
        InputEvent::Key { vk, scan, ext, down } => {
            let id = KeyId { vk, scan, ext };
            inject::release_lets_go(injector.keys@, id, key);
            press_adds(injector.keys@, id, key);
        },
        InputEvent::Button { button: which, .. } => {
            inject::release_lets_go(injector.buttons@, which, button);
            press_adds(injector.buttons@, which, button);
        },
        _ => {},
    }
}

/// Pressing something adds it to what is held and takes nothing away.
pub proof fn press_adds<T>(held: Seq<T>, it: T, other: T)
    ensures
        inject::with_held(held, it).contains(other) <==> other == it || held.contains(other),
{
    let after = held.push(it);
    if held.contains(other) {
        let i = choose|i: int| 0 <= i < held.len() && held[i] == other;
        assert(after[i] == other);
    }
    assert(after[held.len() as int] == it);
    if after.contains(other) && other != it {
        let i = choose|i: int| 0 <= i < after.len() && after[i] == other;
        assert(held[i] == other);
    }
}

proof fn after_more_calls(down: Down, a: Seq<Call>, b: Seq<Call>)
    ensures
        after_calls(down, a + b) == after_calls(after_calls(down, a), b),
    decreases b.len(),
{
    if b.len() == 0 {
        assert(a + b =~= a);
    } else {
        assert((a + b).drop_last() =~= a + b.drop_last());
        after_more_calls(down, a, b.drop_last());
    }
}

proof fn after_key_ups(down: Down, keys: Seq<KeyId>)
    ensures
        after_calls(down, inject::key_ups(keys)).buttons == down.buttons,
        forall|key: KeyId| #[trigger]
            after_calls(down, inject::key_ups(keys)).keys.contains(key) <==> down.keys.contains(key)
                && !keys.contains(key),
    decreases keys.len(),
{
    if keys.len() > 0 {
        let rest = keys.drop_last();
        let last = keys.last();
        after_key_ups(down, rest);
        assert(inject::key_ups(keys).drop_last() =~= inject::key_ups(rest));
        assert forall|key: KeyId| keys.contains(key) <==> rest.contains(key) || key == last by {
            if rest.contains(key) {
                let i = choose|i: int| 0 <= i < rest.len() && rest[i] == key;
                assert(keys[i] == key);
            }
            assert(keys[keys.len() - 1] == last);
            if keys.contains(key) && key != last {
                let i = choose|i: int| 0 <= i < keys.len() && keys[i] == key;
                assert(rest[i] == key);
            }
        }
    }
}

proof fn after_button_ups(down: Down, buttons: Seq<Button>)
    ensures
        after_calls(down, inject::button_ups(buttons)).keys == down.keys,
        forall|button: Button| #[trigger]
            after_calls(down, inject::button_ups(buttons)).buttons.contains(button)
                <==> down.buttons.contains(button) && !buttons.contains(button),
    decreases buttons.len(),
{
    if buttons.len() > 0 {
        let rest = buttons.drop_last();
        let last = buttons.last();
        after_button_ups(down, rest);
        assert(inject::button_ups(buttons).drop_last() =~= inject::button_ups(rest));
        assert forall|button: Button|
            buttons.contains(button) <==> rest.contains(button) || button == last by {
            if rest.contains(button) {
                let i = choose|i: int| 0 <= i < rest.len() && rest[i] == button;
                assert(buttons[i] == button);
            }
            assert(buttons[buttons.len() - 1] == last);
            if buttons.contains(button) && button != last {
                let i = choose|i: int| 0 <= i < buttons.len() && buttons[i] == button;
                assert(rest[i] == button);
            }
        }
    }
}

/// One event keeps the ledger true: with a backend, if what is down on the
/// machine is what the injector believes, then so it is after the calls that the
/// event makes.
pub proof fn the_ledger_stays_true(injector: Injector, event: InputEvent)
    requires
        injector.open,
    ensures
        after_calls(ledger(injector), injector.calls_for(event)) == (Down {
            keys: injector.keys_after(event).to_set(),
            buttons: injector.buttons_after(event).to_set(),
        }),
{
    let before = ledger(injector);
    let calls = injector.calls_for(event);
    let after = after_calls(before, calls);
    if event is ReleaseAll {
        let keys = inject::key_ups(injector.keys@);
        let buttons = inject::button_ups(injector.buttons@);
        after_more_calls(before, keys, buttons);
        after_key_ups(before, injector.keys@);
        after_button_ups(after_calls(before, keys), injector.buttons@);
    } else {
        assert(calls.len() == 1);
        assert(calls.drop_last() =~= Seq::<Call>::empty());
        assert(after == after_call(before, calls[0])) by {
            reveal_with_fuel(after_calls, 2);
        }
    }
    assert forall|key: KeyId| after.keys.contains(key) <==> injector.keys_after(event).contains(
        key,
    ) by {
        the_ledger_follows_the_events(injector, event, key, Button::Left);
    }
    assert forall|button: Button|
        after.buttons.contains(button) <==> injector.buttons_after(event).contains(button) by {
        the_ledger_follows_the_events(
            injector,
            event,
            KeyId { vk: 0, scan: 0, ext: false },
            button,
        );
    }
    assert(after.keys =~= injector.keys_after(event).to_set());
    assert(after.buttons =~= injector.buttons_after(event).to_set());
}

/// What is down after the first events of a run.
pub open spec fn after_run(
    down: Down,
    injectors: Seq<Injector>,
    events: Seq<InputEvent>,
    n: int,
) -> Down
    decreases n,
{
    if n <= 0 {
        down
    } else {
        after_calls(
            after_run(down, injectors, events, n - 1),
            injectors[n - 1].calls_for(events[n - 1]),
        )
    }
}

/// Nothing is ever left stuck: over any run of events, with a backend and starting
/// with nothing down, what is down on the machine is what is on the ledger, so
/// letting go of everything on the ledger leaves nothing down.
pub proof fn nothing_is_left_stuck(injectors: Seq<Injector>, events: Seq<InputEvent>, n: int)
    requires
        0 <= n <= events.len(),
        injectors.len() == events.len() + 1,
        injectors[0].keys@.len() == 0,
        injectors[0].buttons@.len() == 0,
        forall|i: int| 0 <= i < injectors.len() ==> (#[trigger] injectors[i]).open,
        forall|i: int|
            0 <= i < events.len() ==> {
                &&& injectors[i + 1].keys@ == (#[trigger] injectors[i]).keys_after(events[i])
                &&& injectors[i + 1].buttons@ == injectors[i].buttons_after(events[i])
            },
    ensures
        ({
            let nothing = Down { keys: Set::empty(), buttons: Set::empty() };
            let now = after_run(nothing, injectors, events, n);
            &&& now == ledger(injectors[n])
            &&& after_calls(now, injectors[n].let_go()) == nothing
        }),
    decreases n,
{
    let nothing = Down { keys: Set::<KeyId>::empty(), buttons: Set::<Button>::empty() };
    if n == 0 {
        assert(injectors[0].keys@.to_set() =~= Set::empty());
        assert(injectors[0].buttons@.to_set() =~= Set::empty());
    } else {
        nothing_is_left_stuck(injectors, events, n - 1);
        assert(injectors[n - 1].open);
        the_ledger_stays_true(injectors[n - 1], events[n - 1]);
    }
    assert(injectors[n].open);
    the_ledger_stays_true(injectors[n], InputEvent::ReleaseAll);
    assert(Seq::<KeyId>::empty().to_set() =~= Set::empty());
    assert(Seq::<Button>::empty().to_set() =~= Set::empty());
}

} // verus!
