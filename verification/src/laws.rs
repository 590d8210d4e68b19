//! What holds of the recogniser over whole runs of events.

use crate::dispatcher::DispatcherView;
use crate::event::{Event, RawEvent};
use crate::key_state::{held_after, holds_all, replay};
use crate::rule::{elapsed, RuleView, SequenceView, WINDOW_MS};
use vstd::prelude::*;

verus! {

/// Whether the latest event of `events` that presses or releases `code` is a
/// press.
pub open spec fn last_is_press(events: Seq<Event>, code: i32) -> bool {
    exists|i: int|
        0 <= i < events.len() && (#[trigger] events[i]) == Event::Press(code) && forall|j: int|
            i < j < events.len() ==> (#[trigger] events[j]) != Event::Release(code)
}

/// Whether no event of `events` releases `code`.
pub open spec fn never_released(events: Seq<Event>, code: i32) -> bool {
    forall|j: int| 0 <= j < events.len() ==> (#[trigger] events[j]) != Event::Release(code)
}

/// Pressing a key that is held, and releasing a key that is not, change
/// nothing: a repeated press or release is taken in once.
pub proof fn law_repeats_change_nothing(held: Set<i32>, code: i32)
    ensures
        held_after(held_after(held, Event::Press(code)), Event::Press(code)) == held_after(
            held,
            Event::Press(code),
        ),
        held_after(held_after(held, Event::Release(code)), Event::Release(code)) == held_after(
            held,
            Event::Release(code),
        ),
        held.contains(code) ==> held_after(held, Event::Press(code)) == held,
        !held.contains(code) ==> held_after(held, Event::Release(code)) == held,
{
    assert(held.insert(code).insert(code) =~= held.insert(code));
    assert(held.remove(code).remove(code) =~= held.remove(code));
    if held.contains(code) {
        assert(held.insert(code) =~= held);
    } else {
        assert(held.remove(code) =~= held);
    }
}

/// After any run of events, a key is held exactly if its latest press has
/// not been followed by a release of it, or if it was held at the start and
/// the run never released it.
pub proof fn law_held_is_last_pressed(held: Set<i32>, events: Seq<Event>, code: i32)
    ensures
        replay(held, events).contains(code) <==> last_is_press(events, code) || (held.contains(
            code,
        ) && never_released(events, code)),
    decreases events.len(),
{
    if events.len() > 0 {
        let earlier = events.drop_last();
        let last = events.last();
        let n = events.len() - 1;
        law_held_is_last_pressed(held, earlier, code);
        assert(forall|j: int| 0 <= j < n ==> earlier[j] == events[j]);
        if last == Event::Press(code) {
            assert(events[n] == Event::Press(code));
        } else if last == Event::Release(code) {
            assert(events[n] == Event::Release(code));
        } else {
            if last_is_press(earlier, code) {
                let i = choose|i: int|
                    0 <= i < earlier.len() && (#[trigger] earlier[i]) == Event::Press(code)
                        && forall|j: int|
                        i < j < earlier.len() ==> (#[trigger] earlier[j]) != Event::Release(code);
                assert(events[i] == Event::Press(code));
            }
            if last_is_press(events, code) {
                let i = choose|i: int|
                    0 <= i < events.len() && (#[trigger] events[i]) == Event::Press(code)
                        && forall|j: int|
                        i < j < events.len() ==> (#[trigger] events[j]) != Event::Release(code);
                assert(earlier[i] == Event::Press(code));
            }
        }
    }
}

/// The dispatcher once it has been handed each of `inputs` in turn, an
/// input being an event and the time at which it arrived.
pub open spec fn run(start: DispatcherView, inputs: Seq<(RawEvent, u64)>) -> DispatcherView
    decreases inputs.len(),
{
    if inputs.len() == 0 {
        start
    } else {
        run(start, inputs.drop_last()).step(inputs.last().0, inputs.last().1)
    }
}

/// The events of `inputs` whose key has a logical code, and those that
/// concern no key, in their order.
pub open spec fn mapped_events(inputs: Seq<(RawEvent, u64)>) -> Seq<Event>
    decreases inputs.len(),
{
    if inputs.len() == 0 {
        Seq::empty()
    } else {
        match inputs.last().0.resolved() {
            Ok(event) => mapped_events(inputs.drop_last()).push(event),
            Err(_) => mapped_events(inputs.drop_last()),
        }
    }
}

/// A run of events changes neither the number of the rules, nor the kind,
/// the keys or the action of any of them, nor the policy.
pub proof fn law_run_keeps_rules(start: DispatcherView, inputs: Seq<(RawEvent, u64)>)
    ensures
        run(start, inputs).policy == start.policy,
        run(start, inputs).rules.len() == start.rules.len(),
        forall|i: int|
            0 <= i < start.rules.len() ==> match start.rules[i] {
                RuleView::Simple(chord) => (#[trigger] run(start, inputs).rules[i])
                    == RuleView::Simple(chord),
                RuleView::TwoStep(sequence) => run(start, inputs).rules[i] matches RuleView::TwoStep(
                    later,
                ) && later.prefix == sequence.prefix && later.follow_up == sequence.follow_up
                    && later.focus == sequence.focus,
            },
    decreases inputs.len(),
{
    if inputs.len() > 0 {
        law_run_keeps_rules(start, inputs.drop_last());
    }
}

/// After any run of inputs, the held keys are those that the events with a
/// logical code leave held: an event whose key has none plays no part.
pub proof fn law_run_holds_replayed(start: DispatcherView, inputs: Seq<(RawEvent, u64)>)
    ensures
        run(start, inputs).held == replay(start.held, mapped_events(inputs)),
    decreases inputs.len(),
{
    if inputs.len() > 0 {
        let earlier = inputs.drop_last();
        law_run_holds_replayed(start, earlier);
        if inputs.last().0.resolved() is Ok {
            assert(mapped_events(inputs).drop_last() =~= mapped_events(earlier));
        }
    }
}

/// A dispatcher that starts with no key held holds, after any run of inputs,
/// exactly the keys whose latest press has not been followed by a release.
pub proof fn law_dispatcher_holds_last_pressed(
    start: DispatcherView,
    inputs: Seq<(RawEvent, u64)>,
    code: i32,
)
    requires
        start.held == Set::<i32>::empty(),
    ensures
        run(start, inputs).held.contains(code) <==> last_is_press(mapped_events(inputs), code),
{
    law_run_holds_replayed(start, inputs);
    law_held_is_last_pressed(start.held, mapped_events(inputs), code);
}

/// In any state that a run of inputs leads to, a chord answers an event with
/// "fired" exactly if all of its keys are held once the event has been taken
/// in. The dispatcher takes that answer as it is for each event that it shows
/// to the rules.
pub proof fn law_chord_fires_iff_all_held(
    start: DispatcherView,
    inputs: Seq<(RawEvent, u64)>,
    i: int,
    event: Event,
    now: u64,
)
    requires
        0 <= i < start.rules.len(),
        start.rules[i] is Simple,
    ensures
        ({
            let reached = run(start, inputs);
            let keys = start.rules[i]->Simple_0.keys;
            &&& reached.rules[i].fires(event, reached.held_after(event), now) <==> holds_all(
                reached.held_after(event),
                keys,
            )
            &&& reached.evaluates(event) ==> (reached.rule_fires(i, event, now) <==> holds_all(
                reached.held_after(event),
                keys,
            ))
        }),
{
    law_run_keeps_rules(start, inputs);
}

/// An event whose key has no logical code leaves the dispatcher as it was.
pub proof fn law_unmappable_changes_nothing(state: DispatcherView, raw: RawEvent, now: u64)
    requires
        raw.unmappable(),
    ensures
        state.step(raw, now) == state,
{
}

/// A run with an event whose key has no logical code ends as the run without
/// that event does, so every later event is answered as if the unmappable
/// one had never arrived.
pub proof fn law_unmappable_is_skipped(
    start: DispatcherView,
    inputs: Seq<(RawEvent, u64)>,
    k: int,
)
    requires
        0 <= k < inputs.len(),
        inputs[k].0.unmappable(),
    ensures
        run(start, inputs) == run(start, inputs.remove(k)),
    decreases inputs.len(),
{
    let n = inputs.len() - 1;
    if k == n {
        assert(inputs.remove(k) =~= inputs.drop_last());
    } else {
        law_unmappable_is_skipped(start, inputs.drop_last(), k);
        assert(inputs.remove(k).drop_last() =~= inputs.drop_last().remove(k));
        assert(inputs.remove(k).last() == inputs.last());
    }
}

/// An event is captured exactly if the list of the rules that fired on it is
/// not empty: the capture flag is the disjunction of what the rules
/// answered.
pub proof fn law_capture_is_any_fired(
    state: DispatcherView,
    fired: Seq<usize>,
    event: Event,
    now: u64,
)
    requires
        state.lists_fired(fired, event, now, state.rules.len() as int),
    ensures
        state.captures(event, now) <==> fired.len() > 0,
        state.captures(event, now) <==> exists|i: int|
            0 <= i < state.rules.len() && state.rule_fires(i, event, now),
        !state.evaluates(event) ==> !state.captures(event, now),
{
    if fired.len() > 0 {
        assert(state.rule_fires(fired[0] as int, event, now));
    }
}

/// What a rule answers and what becomes of it depend on that rule, the event
/// and the held keys alone: two dispatchers that agree on these agree on the
/// rule, whatever their other rules are.
pub proof fn law_rules_are_independent(
    one: DispatcherView,
    other: DispatcherView,
    i: int,
    j: int,
    raw: RawEvent,
    now: u64,
)
    requires
        0 <= i < one.rules.len(),
        0 <= j < other.rules.len(),
        one.rules[i] == other.rules[j],
        one.held == other.held,
        one.policy == other.policy,
    ensures
        one.step(raw, now).rules[i] == other.step(raw, now).rules[j],
        raw.resolved() matches Ok(event) ==> one.rule_fires(i, event, now) == other.rule_fires(
            j,
            event,
            now,
        ),
{
}

/// An idle sequence whose prefix is not fully held stays idle and does not
/// fire.
pub proof fn law_idle_stays_idle(rule: SequenceView, event: Event, held: Set<i32>, now: u64)
    requires
        rule.armed_at is None,
        !holds_all(held, rule.prefix),
    ensures
        !rule.fires(event, held, now),
        rule.after(event, held, now) == rule,
{
}

/// A sequence that saw its prefix fully held at time `armed` fires on a
/// later event, on which the prefix is no longer fully held and the follow-up
/// is, exactly if less than the window has passed since; neither event being
/// a foreign press.
pub proof fn law_sequence_completes_within_window(
    rule: SequenceView,
    first: Event,
    held_first: Set<i32>,
    armed: u64,
    second: Event,
    held_second: Set<i32>,
    now: u64,
)
    requires
        !rule.interrupted_by(first),
        holds_all(held_first, rule.prefix),
        !rule.interrupted_by(second),
        !holds_all(held_second, rule.prefix),
        holds_all(held_second, rule.follow_up),
    ensures
        rule.after(first, held_first, armed).armed_at == Some(armed),
        rule.after(first, held_first, armed).fires(second, held_second, now) <==> elapsed(
            armed,
            now,
        ) < WINDOW_MS,
{
}

/// While the prefix is fully held a sequence does not fire, whatever else is
/// held, and it is armed afresh unless the event is a foreign press.
pub proof fn law_held_prefix_arms_and_does_not_fire(
    rule: SequenceView,
    event: Event,
    held: Set<i32>,
    now: u64,
)
    requires
        holds_all(held, rule.prefix),
    ensures
        !rule.fires(event, held, now),
        !rule.interrupted_by(event) ==> rule.after(event, held, now).armed_at == Some(now),
{
}

/// The press of a key that belongs to neither chord disarms a sequence and
/// keeps it from firing, whatever is held.
pub proof fn law_foreign_press_disarms(rule: SequenceView, code: i32, held: Set<i32>, now: u64)
    requires
        !rule.prefix.contains(code),
        !rule.follow_up.contains(code),
    ensures
        rule.after(Event::Press(code), held, now).armed_at is None,
        !rule.fires(Event::Press(code), held, now),
{
}

/// A sequence that fires stays armed as it was, so it can fire again within
/// the same window.
pub proof fn law_firing_keeps_arming(rule: SequenceView, event: Event, held: Set<i32>, now: u64)
    requires
        rule.fires(event, held, now),
    ensures
        rule.after(event, held, now) == rule,
        rule.armed_at matches Some(at) && now - at < WINDOW_MS,
{
}

} // verus!
