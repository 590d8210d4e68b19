//! The set of keys that are currently held down.

use crate::event::Event;
use std::collections::HashSet;
use vstd::prelude::*;

verus! {

/// Whether every code of `codes` is a member of `held`.
pub open spec fn holds_all(held: Set<i32>, codes: Seq<i32>) -> bool {
    forall|i: int| 0 <= i < codes.len() ==> held.contains(#[trigger] codes[i])
}

/// The held keys once `event` has been taken in: a press adds its key, a
/// release takes its key away, anything else changes nothing.
pub open spec fn held_after(held: Set<i32>, event: Event) -> Set<i32> {
    match event {
        Event::Press(code) => held.insert(code),
        Event::Release(code) => held.remove(code),
        Event::Other => held,
    }
}

/// The held keys once the events of `events` have been taken in, one after
/// the other, starting from `held`.
pub open spec fn replay(held: Set<i32>, events: Seq<Event>) -> Set<i32>
    decreases events.len(),
{
    if events.len() == 0 {
        held
    } else {
        held_after(replay(held, events.drop_last()), events.last())
    }
}

/// The logical codes of the keys that are currently depressed.
#[derive(Debug)]
pub struct KeyState {
    held: HashSet<i32>,
}

impl View for KeyState {
    type V = Set<i32>;

    closed spec fn view(&self) -> Set<i32> {
        self.held@
    }
}

impl KeyState {
    /// A state in which no key is held.
    pub fn new() -> (state: KeyState)
        ensures
            state@ == Set::<i32>::empty(),
    {
        KeyState { held: HashSet::new() }
    }

    /// Records that `code` went down. Pressing a key that is already held
    /// changes nothing.
    pub fn mark_pressed(&mut self, code: i32)
        ensures
            final(self)@ == old(self)@.insert(code),
    {
        self.held.insert(code);
    }

    /// Records that `code` went up. Releasing a key that is not held changes
    /// nothing.
    pub fn mark_released(&mut self, code: i32)
        ensures
            final(self)@ == old(self)@.remove(code),
    {
        self.held.remove(&code);
    }

    /// Takes in one event: a press marks its key as held, a release marks it
    /// as let go, anything else changes nothing.
    pub fn record(&mut self, event: &Event)
        ensures
            final(self)@ == held_after(old(self)@, *event),
    {
        match *event {
            Event::Press(code) => self.mark_pressed(code),
            Event::Release(code) => self.mark_released(code),
            Event::Other => {},
        }
    }

    /// Whether `code` is currently held.
    pub fn contains(&self, code: i32) -> (held: bool)
        ensures
            held == self@.contains(code),
    {
        self.held.contains(&code)
    }

    /// Whether every code in `codes` is currently held. An empty list is
    /// held trivially.
    pub fn contains_all(&self, codes: &[i32]) -> (all: bool)
        ensures
            all == holds_all(self@, codes@),
    {
        let mut i: usize = 0;
        while i < codes.len()
            invariant
                i <= codes.len(),
                holds_all(self@, codes@.take(i as int)),
            decreases codes.len() - i,
        {
            if !self.held.contains(&codes[i]) {
                return false;
            }
            assert(codes@.take(i + 1) =~= codes@.take(i as int).push(codes@[i as int]));
            i = i + 1;
        }
        assert(codes@.take(i as int) =~= codes@);
        true
    }
}

} // verus!
