//! The dispatcher: it keeps the set of held keys and the rules, takes one
//! event at a time, and says which rules fired and whether the event is to
//! be kept from the rest of the system.

use crate::clock::Clock;
use crate::event::{Event, RawEvent, UnmappableKey};
use crate::key_state::{held_after, KeyState};
use crate::rule::{Rule, RuleView};
use vstd::prelude::*;

verus! {

/// On which key events the rules are shown the event.
#[derive(Clone, Copy, Debug, PartialEq, Eq)]
pub enum TriggerPolicy {
    /// On presses only. A release changes the set of held keys and nothing
    /// else.
    PressOnly,
    /// On presses and on releases.
    PressAndRelease,
}

/// What the dispatcher made of one event.
#[derive(Debug, PartialEq, Eq)]
pub struct Outcome {
    /// Whether the event is to be kept from the rest of the system: at least
    /// one rule fired on it.
    pub capture: bool,
    /// The positions of the rules that fired, in the order of the rules.
    pub fired: Vec<usize>,
}

/// What a dispatcher is: the held keys, the rules in their order, and the
/// policy.
pub struct DispatcherView {
    /// The codes of the keys that are down.
    pub held: Set<i32>,
    /// The rules, in the order in which they are shown each event.
    pub rules: Seq<RuleView>,
    /// On which events the rules are shown the event.
    pub policy: TriggerPolicy,
}

impl DispatcherView {
    /// The held keys once `event` has been taken in.
    pub open spec fn held_after(self, event: Event) -> Set<i32> {
        held_after(self.held, event)
    }

    /// Whether the rules are shown `event`.
    pub open spec fn evaluates(self, event: Event) -> bool {
        match event {
            Event::Press(_) => true,
            Event::Release(_) => self.policy == TriggerPolicy::PressAndRelease,
            Event::Other => false,
        }
    }

    /// Whether the rule at position `i` fires on `event` at time `now`. A
    /// rule is shown the keys as they are once the event has been taken in.
    pub open spec fn rule_fires(self, i: int, event: Event, now: u64) -> bool {
        self.evaluates(event) && self.rules[i].fires(event, self.held_after(event), now)
    }

    /// Whether `event` is captured: some rule fires on it.
    pub open spec fn captures(self, event: Event, now: u64) -> bool {
        exists|i: int| 0 <= i < self.rules.len() && self.rule_fires(i, event, now)
    }

    /// Whether `fired` lists, in rising order, exactly the positions below
    /// `n` of the rules that fire on `event`.
    pub open spec fn lists_fired(self, fired: Seq<usize>, event: Event, now: u64, n: int) -> bool {
        &&& forall|k: int|
            0 <= k < fired.len() ==> 0 <= #[trigger] fired[k] < n && self.rule_fires(
                fired[k] as int,
                event,
                now,
            )
        &&& forall|j: int, k: int| 0 <= j < k < fired.len() ==> fired[j] < fired[k]
        &&& forall|i: int|
            0 <= i < n && #[trigger] self.rule_fires(i, event, now) ==> fired.contains(i as usize)
    }

    /// The dispatcher once it has taken in `event` at time `now`.
    pub open spec fn after(self, event: Event, now: u64) -> DispatcherView {
        DispatcherView {
            held: self.held_after(event),
            rules: if self.evaluates(event) {
                Seq::new(
                    self.rules.len(),
                    |i: int| self.rules[i].after(event, self.held_after(event), now),
                )
            } else {
                self.rules
            },
            policy: self.policy,
        }
    }

    /// The dispatcher once it has been handed `raw` at time `now`. A key
    /// without a logical code leaves it as it was.
    pub open spec fn step(self, raw: RawEvent, now: u64) -> DispatcherView {
        match raw.resolved() {
            Ok(event) => self.after(event, now),
            Err(_) => self,
        }
    }

    /// Whether `result` is the answer to `raw` at time `now`.
    pub open spec fn answers(
        self,
        raw: RawEvent,
        now: u64,
        result: Result<Outcome, UnmappableKey>,
    ) -> bool {
        match result {
            Ok(outcome) => {
                &&& raw.resolved() matches Ok(event)
                &&& outcome.capture == self.captures(event, now)
                &&& self.lists_fired(outcome.fired@, event, now, self.rules.len() as int)
            },
            Err(e) => raw.resolved() == Err::<Event, UnmappableKey>(e),
        }
    }

    /// Whether handing over `raw` at time `now` gives `result` and leaves the
    /// dispatcher as `next`.
    pub open spec fn steps_to(
        self,
        raw: RawEvent,
        now: u64,
        result: Result<Outcome, UnmappableKey>,
        next: DispatcherView,
    ) -> bool {
        self.answers(raw, now, result) && next == self.step(raw, now)
    }
}

/// Whether the answer to an event asks for the event to be captured. An
/// event that could not be handled is never captured.
pub open spec fn captured(result: Result<Outcome, UnmappableKey>) -> bool {
    result matches Ok(outcome) && outcome.capture
}

/// What the input source gets back for `event`: nothing where the answer
/// captures the event, and the event itself, to be passed on to the rest of
/// the system, where it does not or where the event could not be handled.
pub fn pass_through<E>(event: E, result: &Result<Outcome, UnmappableKey>) -> (passed: Option<E>)
    ensures
        passed == if captured(*result) {
            None
        } else {
            Some(event)
        },
{
    match result {
        Ok(outcome) => {
            if outcome.capture {
                None
            } else {
                Some(event)
            }
        },
        Err(_) => Some(event),
    }
}

/// The owner of the held keys and of the rules.
#[derive(Debug)]
pub struct Dispatcher {
    keys: KeyState,
    rules: Vec<Rule>,
    policy: TriggerPolicy,
    clock: Clock,
}

impl View for Dispatcher {
    type V = DispatcherView;

    closed spec fn view(&self) -> DispatcherView {
        DispatcherView {
            held: self.keys@,
            rules: Seq::new(self.rules@.len(), |i: int| self.rules@[i]@),
            policy: self.policy,
        }
    }
}

impl Dispatcher {
    /// A dispatcher over `rules` that shows them presses only. No key is
    /// held.
    pub fn new(rules: Vec<Rule>) -> (dispatcher: Dispatcher)
        ensures
            dispatcher@.held == Set::<i32>::empty(),
            dispatcher@.rules == Seq::new(rules@.len(), |i: int| rules@[i]@),
            dispatcher@.policy == TriggerPolicy::PressOnly,
    {
        Dispatcher::with_policy(rules, TriggerPolicy::PressOnly)
    }

    /// A dispatcher over `rules` with the given policy. No key is held.
    pub fn with_policy(rules: Vec<Rule>, policy: TriggerPolicy) -> (dispatcher: Dispatcher)
        ensures
            dispatcher@.held == Set::<i32>::empty(),
            dispatcher@.rules == Seq::new(rules@.len(), |i: int| rules@[i]@),
            dispatcher@.policy == policy,
    {
        Dispatcher { keys: KeyState::new(), rules, policy, clock: Clock::start() }
    }

    /// Takes in the event `raw` that arrived at time `now`.
    ///
    /// A key without a logical code is an error, and nothing changes. Else
    /// the set of held keys is updated first. Then, where the policy asks for
    /// it, each rule is shown the event, in order, and the outcome lists the
    /// rules that fired; the event is captured where there is one.
    pub fn handle_at(&mut self, raw: RawEvent, now: u64) -> (result: Result<
        Outcome,
        UnmappableKey,
    >)
        ensures
            old(self)@.answers(raw, now, result),
            final(self)@ == old(self)@.step(raw, now),
    {
        let ghost before = self@;
        let event = match raw.resolve() {
            Ok(event) => event,
            Err(e) => {
                return Err(e);
            },
        };
        self.keys.record(&event);
        let evaluate = match event {
            Event::Press(_) => true,
            Event::Release(_) => match self.policy {
                TriggerPolicy::PressOnly => false,
                TriggerPolicy::PressAndRelease => true,
            },
            Event::Other => false,
        };
        let mut fired: Vec<usize> = Vec::new();
        if evaluate {
            let n = self.rules.len();
            let mut i: usize = 0;
            while i < n
                invariant
                    i <= n,
                    n == self.rules@.len(),
                    n == before.rules.len(),
                    before.evaluates(event),
                    self.keys@ == before.held_after(event),
                    self.policy == before.policy,
                    forall|j: int|
                        0 <= j < i ==> (#[trigger] self.rules@[j])@ == before.rules[j].after(
                            event,
                            before.held_after(event),
                            now,
                        ),
                    forall|j: int| i <= j < n ==> (#[trigger] self.rules@[j])@ == before.rules[j],
                    before.lists_fired(fired@, event, now, i as int),
                decreases n - i,
            {
                let ghost listed = fired@;
                if self.rules[i].change_at(&event, &self.keys, now) {
                    fired.push(i);
                    assert forall|r: int|
                        0 <= r < i + 1 && #[trigger] before.rule_fires(
                            r,
                            event,
                            now,
                        ) implies fired@.contains(r as usize) by {
                        if r < i {
                            let k = choose|k: int| 0 <= k < listed.len() && listed[k] == r as usize;
                            assert(fired@[k] == r as usize);
                        } else {
                            assert(fired@[listed.len() as int] == r as usize);
                        }
                    }
                }
                i = i + 1;
            }
            assert(self@.rules =~= before.after(event, now).rules);
        }
        let capture = fired.len() > 0;
        proof {
            if capture {
                assert(before.rule_fires(fired@[0] as int, event, now));
            }
            if !evaluate {
                assert(self@.rules =~= before.rules);
            }
        }
        Ok(Outcome { capture, fired })
    }

    /// Reads the dispatcher's clock and takes in `raw` at that time. Whatever
    /// the clock reads, the outcome is that of `handle_at` at some time; so
    /// the error and the held keys are as `handle_at` gives them at any time.
    pub fn handle(&mut self, raw: RawEvent) -> (result: Result<Outcome, UnmappableKey>)
        ensures
            exists|now: u64| #[trigger] old(self)@.steps_to(raw, now, result, final(self)@),
            match raw.resolved() {
                Ok(event) => result is Ok && final(self)@.held == old(self)@.held_after(event),
                Err(e) => result == Err::<Outcome, UnmappableKey>(e) && final(self)@ == old(self)@,
            },
    {
        let now = self.clock.now();
        let ghost before = self@;
        let result = self.handle_at(raw, now);
        assert(before.steps_to(raw, now, result, self@));
        result
    }

    /// The keys that are held.
    pub fn key_state(&self) -> (keys: &KeyState)
        ensures
            keys@ == self@.held,
    {
        &self.keys
    }

    /// The number of rules.
    pub fn rule_count(&self) -> (n: usize)
        ensures
            n == self@.rules.len(),
    {
        self.rules.len()
    }

    /// The rule at position `i`, if there is one.
    pub fn rule(&self, i: usize) -> (rule: Option<&Rule>)
        ensures
            match rule {
                Some(rule) => i < self@.rules.len() && rule@ == self@.rules[i as int],
                None => i >= self@.rules.len(),
            },
    {
        if i < self.rules.len() {
            Some(&self.rules[i])
        } else {
            None
        }
    }
}

} // verus!
