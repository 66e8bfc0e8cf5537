//! From a request to the events that carry it out.

use vstd::prelude::*;

use crate::dispatch::{lemma_dispatch_aborts, lemma_dispatch_completes, Progress, Status};
use crate::event::{is_event, keys_down, moves_key, occurrences, Direction, InputEvent, Key};
use crate::request::{KeyboardCombination, MouseButton, RequestError};

verus! {

/// The events of a click: the button is pressed and released once.
pub open spec fn click_events(button: MouseButton) -> Seq<InputEvent> {
    seq![InputEvent::Button(button, Direction::Click)]
}

/// The events of typing `text`: one event that carries the whole text as it was
/// given, whatever it holds.
pub open spec fn write_events(text: String) -> Seq<InputEvent> {
    seq![InputEvent::Text(text)]
}

/// One event for `key` where `wanted` holds, none where it does not.
pub open spec fn key_if(wanted: bool, key: Key, direction: Direction) -> Seq<InputEvent> {
    if wanted {
        seq![InputEvent::Key(key, direction)]
    } else {
        Seq::<InputEvent>::empty()
    }
}

/// The presses of the held modifiers: Ctrl, then Shift, then Alt.
pub open spec fn modifier_presses(combination: KeyboardCombination) -> Seq<InputEvent> {
    key_if(combination.hold_ctrl, Key::Control, Direction::Press)
        + key_if(combination.hold_shift, Key::Shift, Direction::Press)
        + key_if(combination.hold_alt, Key::Alt, Direction::Press)
}

/// The releases of the held modifiers, last pressed first: Alt, then Shift,
/// then Ctrl.
pub open spec fn modifier_releases(combination: KeyboardCombination) -> Seq<InputEvent> {
    key_if(combination.hold_alt, Key::Alt, Direction::Release)
        + key_if(combination.hold_shift, Key::Shift, Direction::Release)
        + key_if(combination.hold_ctrl, Key::Control, Direction::Release)
}

/// The events of a key combination that presses `target`: the held modifiers go
/// down, `target` is clicked, and the modifiers come up again in the reverse
/// order.
pub open spec fn combination_events(combination: KeyboardCombination, target: Key) -> Seq<
    InputEvent,
> {
    modifier_presses(combination) + seq![InputEvent::Key(target, Direction::Click)]
        + modifier_releases(combination)
}

/// Plans a click of `button` where the pointer stands.
pub fn click(button: MouseButton) -> (events: Vec<InputEvent>)
    ensures
        events@ == click_events(button),
{
    let mut events: Vec<InputEvent> = Vec::new();
    events.push(InputEvent::Button(button, Direction::Click));
    events
}

/// Plans typing `text`: the text service gets the text once, unchanged. An
/// empty text is handed over like any other; what it means to type nothing is
/// for the service to say.
pub fn write(text: String) -> (events: Vec<InputEvent>)
    ensures
        events@ == write_events(text),
{
    let mut events: Vec<InputEvent> = Vec::new();
    events.push(InputEvent::Text(text));
    events
}

/// Plans a key combination: every held modifier is pressed, in the order Ctrl,
/// Shift, Alt; the chosen key is clicked; every held modifier is released, the
/// last pressed first.
///
/// A request that does not name its key is refused, and nothing is planned for
/// it.
pub fn press_key_combination(combination: &KeyboardCombination) -> (plan: Result<
    Vec<InputEvent>,
    RequestError,
>)
    ensures
        match combination.target() {
            Some(target) => plan is Ok && plan->Ok_0@ == combination_events(*combination, target),
            None => plan == Err::<Vec<InputEvent>, RequestError>(RequestError::MissingKeyName),
        },
{
    let target = match combination.selector() {
        Ok(key) => key,
        Err(error) => {
            return Err(error);
        },
    };
    let mut events: Vec<InputEvent> = Vec::new();
    if combination.hold_ctrl {
        events.push(InputEvent::Key(Key::Control, Direction::Press));
    }
    if combination.hold_shift {
        events.push(InputEvent::Key(Key::Shift, Direction::Press));
    }
    if combination.hold_alt {
        events.push(InputEvent::Key(Key::Alt, Direction::Press));
    }
    events.push(InputEvent::Key(target, Direction::Click));
    if combination.hold_alt {
        events.push(InputEvent::Key(Key::Alt, Direction::Release));
    }
    if combination.hold_shift {
        events.push(InputEvent::Key(Key::Shift, Direction::Release));
    }
    if combination.hold_ctrl {
        events.push(InputEvent::Key(Key::Control, Direction::Release));
    }
    Ok(events)
}

proof fn lemma_filter_key_if(
    wanted: bool,
    key: Key,
    direction: Direction,
    pred: spec_fn(InputEvent) -> bool,
)
    ensures
        key_if(wanted, key, direction).filter(pred).len() == if wanted && pred(
            InputEvent::Key(key, direction),
        ) {
            1nat
        } else {
            0nat
        },
{
    reveal_with_fuel(Seq::filter, 2);
}

proof fn lemma_filter_all(
    combination: KeyboardCombination,
    target: Key,
    pred: spec_fn(InputEvent) -> bool,
)
    ensures
        combination_events(combination, target).filter(pred).len() == (if combination.hold_ctrl
            && pred(InputEvent::Key(Key::Control, Direction::Press)) {
            1nat
        } else {
            0nat
        }) + (if combination.hold_shift && pred(InputEvent::Key(Key::Shift, Direction::Press)) {
            1nat
        } else {
            0nat
        }) + (if combination.hold_alt && pred(InputEvent::Key(Key::Alt, Direction::Press)) {
            1nat
        } else {
            0nat
        }) + (if pred(InputEvent::Key(target, Direction::Click)) {
            1nat
        } else {
            0nat
        }) + (if combination.hold_alt && pred(InputEvent::Key(Key::Alt, Direction::Release)) {
            1nat
        } else {
            0nat
        }) + (if combination.hold_shift && pred(InputEvent::Key(Key::Shift, Direction::Release)) {
            1nat
        } else {
            0nat
        }) + (if combination.hold_ctrl && pred(
            InputEvent::Key(Key::Control, Direction::Release),
        ) {
            1nat
        } else {
            0nat
        }),
{
    broadcast use Seq::filter_distributes_over_add;

    lemma_filter_key_if(combination.hold_ctrl, Key::Control, Direction::Press, pred);
    lemma_filter_key_if(combination.hold_shift, Key::Shift, Direction::Press, pred);
    lemma_filter_key_if(combination.hold_alt, Key::Alt, Direction::Press, pred);
    lemma_filter_key_if(true, target, Direction::Click, pred);
    lemma_filter_key_if(combination.hold_alt, Key::Alt, Direction::Release, pred);
    lemma_filter_key_if(combination.hold_shift, Key::Shift, Direction::Release, pred);
    lemma_filter_key_if(combination.hold_ctrl, Key::Control, Direction::Release, pred);
}

/// A key combination takes one press for each held modifier, one click of the
/// chosen key, and one release for each held modifier: twice the number of held
/// modifiers and one more events in all. A modifier that is not held is neither
/// pressed nor released.
pub proof fn lemma_combination_counts(combination: KeyboardCombination, target: Key)
    requires
        combination.target() == Some(target),
    ensures
        combination_events(combination, target).len() == 2 * combination.held_count() + 1,
        combination_events(combination, target).filter(moves_key(Direction::Press)).len()
            == combination.held_count(),
        combination_events(combination, target).filter(moves_key(Direction::Click)).len() == 1,
        combination_events(combination, target).filter(moves_key(Direction::Release)).len()
            == combination.held_count(),
        occurrences(
            combination_events(combination, target),
            InputEvent::Key(target, Direction::Click),
        ) == 1,
        forall|modifier: Key| #[trigger]
            modifier.is_modifier() ==> {
                let held: nat = if combination.holds(modifier) {
                    1
                } else {
                    0
                };
                &&& occurrences(
                    combination_events(combination, target),
                    InputEvent::Key(modifier, Direction::Press),
                ) == held
                &&& occurrences(
                    combination_events(combination, target),
                    InputEvent::Key(modifier, Direction::Release),
                ) == held
            },
{
    let events = combination_events(combination, target);
    lemma_filter_all(combination, target, moves_key(Direction::Press));
    lemma_filter_all(combination, target, moves_key(Direction::Click));
    lemma_filter_all(combination, target, moves_key(Direction::Release));
    lemma_filter_all(combination, target, is_event(InputEvent::Key(target, Direction::Click)));
    assert forall|modifier: Key| #[trigger] modifier.is_modifier() implies {
        let held: nat = if combination.holds(modifier) {
            1
        } else {
            0
        };
        &&& occurrences(events, InputEvent::Key(modifier, Direction::Press)) == held
        &&& occurrences(events, InputEvent::Key(modifier, Direction::Release)) == held
    } by {
        lemma_filter_all(combination, target, is_event(InputEvent::Key(modifier, Direction::Press)));
        lemma_filter_all(
            combination,
            target,
            is_event(InputEvent::Key(modifier, Direction::Release)),
        );
    }
}

/// The key of a combination goes one way only. Where the request chooses it by
/// its character, it is clicked as that character, and no event names a key by
/// its code; where the request chooses it by its code, it is clicked as that
/// code, and no event names a key by a character.
pub proof fn lemma_combination_key_path(combination: KeyboardCombination, target: Key)
    requires
        combination.target() == Some(target),
    ensures
        combination.use_unicode ==> (combination.key_name matches Some(name) && target
            == Key::Unicode(name)),
        !combination.use_unicode ==> target == Key::Other(combination.key_code),
        forall|i: int|
            0 <= i < combination_events(combination, target).len() ==> {
                &&& #[trigger] combination_events(combination, target)[i] matches InputEvent::Key(
                    key,
                    direction,
                )
                &&& (key is Unicode ==> combination.use_unicode)
                &&& (key is Other ==> !combination.use_unicode)
                &&& (key is Unicode || key is Other) ==> (key == target && direction
                    == Direction::Click)
            },
{
}

/// The modifiers of a combination are held around the chosen key like brackets.
/// With `n` of them held, the first `n` events press them, the event after
/// those clicks the chosen key, and the last `n` events release them in the
/// reverse order: what the event at `i` pressed, the event at `2 * n - i`
/// releases.
pub proof fn lemma_combination_stack_order(combination: KeyboardCombination, target: Key)
    requires
        combination.target() == Some(target),
    ensures
        combination_events(combination, target).len() == 2 * combination.held_count() + 1,
        combination_events(combination, target)[combination.held_count() as int]
            == InputEvent::Key(target, Direction::Click),
        forall|i: int|
            0 <= i < combination.held_count() ==> {
                &&& #[trigger] combination_events(combination, target)[i] matches InputEvent::Key(
                    key,
                    Direction::Press,
                )
                &&& combination.holds(key)
                &&& combination_events(combination, target)[2 * combination.held_count() - i]
                    == InputEvent::Key(key, Direction::Release)
            },
        forall|i: int, j: int|
            0 <= i < j < combination.held_count() ==> #[trigger] combination_events(
                combination,
                target,
            )[i] != #[trigger] combination_events(combination, target)[j],
{
}

proof fn lemma_keys_down_push(events: Seq<InputEvent>, event: InputEvent)
    ensures
        keys_down(events.push(event)) == match event {
            InputEvent::Key(key, Direction::Press) => keys_down(events).insert(key),
            InputEvent::Key(key, Direction::Release) => keys_down(events).remove(key),
            _ => keys_down(events),
        },
{
    assert(events.push(event).drop_last() =~= events);
}

proof fn lemma_keys_down_key_if(
    events: Seq<InputEvent>,
    wanted: bool,
    key: Key,
    direction: Direction,
)
    ensures
        keys_down(events + key_if(wanted, key, direction)) == if !wanted {
            keys_down(events)
        } else {
            match direction {
                Direction::Press => keys_down(events).insert(key),
                Direction::Release => keys_down(events).remove(key),
                Direction::Click => keys_down(events),
            }
        },
{
    if wanted {
        assert(events + key_if(wanted, key, direction) =~= events.push(
            InputEvent::Key(key, direction),
        ));
        lemma_keys_down_push(events, InputEvent::Key(key, direction));
    }
}

/// What a combination leaves down where it is cut short. Once the first `sent`
/// of its events have taken effect, the keys that are down are the held
/// modifiers whose press is among those events and whose release is not: with
/// `n` modifiers held, the one of rank `r` is down from event `r` until event
/// `2 * n - r`. No other key is down at any time.
pub proof fn lemma_combination_cut_short(
    combination: KeyboardCombination,
    target: Key,
    sent: int,
)
    requires
        combination.target() == Some(target),
        0 <= sent <= combination_events(combination, target).len(),
    ensures
        forall|key: Key|
            #[trigger] keys_down(combination_events(combination, target).take(sent)).contains(key)
                <==> combination.holds(key) && combination.rank(key) < sent <= 2
                * combination.held_count() - combination.rank(key),
{
    let events = combination_events(combination, target);
    let none = Seq::<InputEvent>::empty();
    let e1 = none + key_if(combination.hold_ctrl, Key::Control, Direction::Press);
    let e2 = e1 + key_if(combination.hold_shift, Key::Shift, Direction::Press);
    let e3 = e2 + key_if(combination.hold_alt, Key::Alt, Direction::Press);
    let e4 = e3 + key_if(true, target, Direction::Click);
    let e5 = e4 + key_if(combination.hold_alt, Key::Alt, Direction::Release);
    let e6 = e5 + key_if(combination.hold_shift, Key::Shift, Direction::Release);
    let e7 = e6 + key_if(combination.hold_ctrl, Key::Control, Direction::Release);
    lemma_keys_down_key_if(none, combination.hold_ctrl, Key::Control, Direction::Press);
    lemma_keys_down_key_if(e1, combination.hold_shift, Key::Shift, Direction::Press);
    lemma_keys_down_key_if(e2, combination.hold_alt, Key::Alt, Direction::Press);
    lemma_keys_down_key_if(e3, true, target, Direction::Click);
    lemma_keys_down_key_if(e4, combination.hold_alt, Key::Alt, Direction::Release);
    lemma_keys_down_key_if(e5, combination.hold_shift, Key::Shift, Direction::Release);
    lemma_keys_down_key_if(e6, combination.hold_ctrl, Key::Control, Direction::Release);
    let cut = events.take(sent);
    if sent == none.len() {
        assert(cut =~= none);
    } else if sent == e1.len() {
        assert(cut =~= e1);
    } else if sent == e2.len() {
        assert(cut =~= e2);
    } else if sent == e3.len() {
        assert(cut =~= e3);
    } else if sent == e4.len() {
        assert(cut =~= e4);
    } else if sent == e5.len() {
        assert(cut =~= e5);
    } else if sent == e6.len() {
        assert(cut =~= e6);
    } else {
        assert(cut =~= e7);
    }
}

/// A combination that is carried out to its end leaves no key down.
pub proof fn lemma_combination_releases_all(combination: KeyboardCombination, target: Key)
    requires
        combination.target() == Some(target),
    ensures
        keys_down(combination_events(combination, target)) == Set::<Key>::empty(),
{
    let events = combination_events(combination, target);
    lemma_combination_cut_short(combination, target, events.len() as int);
    assert(events.take(events.len() as int) =~= events);
}

/// A click moves the button that was asked for, once, and no other button.
pub proof fn lemma_click_counts(button: MouseButton)
    ensures
        click_events(button).len() == 1,
        occurrences(click_events(button), InputEvent::Button(button, Direction::Click)) == 1,
        forall|other: MouseButton, direction: Direction|
            other != button ==> #[trigger] occurrences(
                click_events(button),
                InputEvent::Button(other, direction),
            ) == 0,
{
    reveal_with_fuel(Seq::filter, 2);
}

/// Typing moves no key. The plan of a text is the one event that carries it,
/// so no key is pressed, released or clicked by it, and none is down after it.
pub proof fn lemma_write_moves_no_key(text: String)
    ensures
        write_events(text).len() == 1,
        occurrences(write_events(text), InputEvent::Text(text)) == 1,
        forall|i: int|
            0 <= i < write_events(text).len() ==> !(#[trigger] write_events(text)[i] is Key),
        forall|direction: Direction| #[trigger]
            write_events(text).filter(moves_key(direction)).len() == 0,
        keys_down(write_events(text)) == Set::<Key>::empty(),
{
    reveal_with_fuel(Seq::filter, 2);
    reveal_with_fuel(keys_down, 2);
    assert(write_events(text).drop_last() =~= Seq::<InputEvent>::empty());
}

/// Typing nothing. The plan of an empty text is one event whose text holds no
/// character: there is nothing in it that a keystroke could stand for, no key
/// is moved, and none is down after it.
pub proof fn lemma_write_of_nothing(text: String)
    requires
        text@.len() == 0,
    ensures
        write_events(text).len() == 1,
        write_events(text)[0] matches InputEvent::Text(carried) && carried@.len() == 0,
        forall|direction: Direction| #[trigger]
            write_events(text).filter(moves_key(direction)).len() == 0,
        keys_down(write_events(text)) == Set::<Key>::empty(),
{
    lemma_write_moves_no_key(text);
}

/// How typing ends. The text service is asked once, with the text as it was
/// given. Where it accepts, the dispatch completes; where it refuses, the
/// dispatch aborts, and it is not asked again. This holds of every text, the
/// empty one too.
pub proof fn lemma_write_dispatch(text: String, answers: Seq<bool>)
    requires
        answers.len() >= 1,
    ensures
        Progress::start(write_events(text)).after_all(answers).sent() == seq![
            InputEvent::Text(text),
        ],
        answers[0] ==> Progress::start(write_events(text)).after_all(answers).status()
            == Status::Completed,
        !answers[0] ==> Progress::start(write_events(text)).after_all(answers).status()
            == Status::Aborted,
{
    let plan = write_events(text);
    if answers[0] {
        lemma_dispatch_completes(plan, answers);
    } else {
        lemma_dispatch_aborts(plan, answers, 0);
        assert(plan.take(1) =~= plan);
    }
}

} // verus!
