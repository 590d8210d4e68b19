//! Gesture rules: the chord, whose keys are all held at once, and the
//! two-step sequence, a chord followed within a short time by another.

use crate::clock::Clock;
use crate::event::Event;
use crate::key_state::{holds_all, KeyState};
use vstd::prelude::*;

verus! {

/// Why a list of keys cannot define a gesture.
#[derive(Clone, Copy, Debug, PartialEq, Eq)]
pub enum KeysError {
    /// The list holds no key.
    Empty,
    /// The key at this position has no logical code; every key before it
    /// has one.
    Unmappable(usize),
}

/// Whether every key of the list has a logical code.
pub open spec fn all_mapped(keys: Seq<Option<i32>>) -> bool {
    forall|i: int| 0 <= i < keys.len() ==> (#[trigger] keys[i]) is Some
}

/// The logical codes of a list of keys, in the order of the keys.
pub open spec fn codes_of(keys: Seq<Option<i32>>) -> Seq<i32> {
    Seq::new(keys.len(), |i: int| keys[i].unwrap())
}

/// Whether position `i` holds the first key of the list without a logical
/// code.
pub open spec fn first_unmapped(keys: Seq<Option<i32>>, i: int) -> bool {
    &&& 0 <= i < keys.len()
    &&& keys[i] is None
    &&& forall|j: int| 0 <= j < i ==> (#[trigger] keys[j]) is Some
}

/// The logical codes of the keys of a gesture. The list must hold at least
/// one key, and each key must have a code.
pub fn keys_to_codes(keys: &Vec<Option<i32>>) -> (codes: Result<Vec<i32>, KeysError>)
    ensures
        match codes {
            Ok(codes) => keys@.len() > 0 && all_mapped(keys@) && codes@ == codes_of(keys@),
            Err(KeysError::Empty) => keys@.len() == 0,
            Err(KeysError::Unmappable(i)) => first_unmapped(keys@, i as int),
        },
{
    if keys.len() == 0 {
        return Err(KeysError::Empty);
    }
    let mut codes: Vec<i32> = Vec::new();
    let mut i: usize = 0;
    while i < keys.len()
        invariant
            i <= keys.len(),
            codes@.len() == i,
            forall|j: int| 0 <= j < i ==> (#[trigger] keys@[j]) is Some,
            forall|j: int| 0 <= j < i ==> #[trigger] codes@[j] == keys@[j].unwrap(),
        decreases keys.len() - i,
    {
        match keys[i] {
            Some(code) => codes.push(code),
            None => {
                return Err(KeysError::Unmappable(i));
            },
        }
        i = i + 1;
    }
    assert(codes@ =~= codes_of(keys@));
    Ok(codes)
}

/// What a chord rule is: the keys to hold, and the action it stands for.
pub struct ChordView {
    /// The codes that must all be held.
    pub keys: Seq<i32>,
    /// The identifier of the action.
    pub focus: Seq<char>,
}

/// A chord: it fires while all of its keys are held.
#[derive(Debug)]
pub struct SimpleRule {
    keys: Vec<i32>,
    focus: String,
}

impl View for SimpleRule {
    type V = ChordView;

    closed spec fn view(&self) -> ChordView {
        ChordView { keys: self.keys@, focus: self.focus@ }
    }
}

impl SimpleRule {
    #[verifier::type_invariant]
    spec fn well_formed(self) -> bool {
        self.keys@.len() > 0
    }

    /// A chord over `keys` that stands for the action `focus`. Fails where
    /// the list is empty or one of its keys has no logical code.
    pub fn new(keys: Vec<Option<i32>>, focus: &str) -> (rule: Result<SimpleRule, KeysError>)
        ensures
            match rule {
                Ok(rule) => {
                    &&& keys@.len() > 0
                    &&& all_mapped(keys@)
                    &&& rule@.keys == codes_of(keys@)
                    &&& rule@.focus == focus@
                },
                Err(KeysError::Empty) => keys@.len() == 0,
                Err(KeysError::Unmappable(i)) => first_unmapped(keys@, i as int),
            },
    {
        match keys_to_codes(&keys) {
            Ok(codes) => Ok(SimpleRule { keys: codes, focus: focus.to_owned() }),
            Err(e) => Err(e),
        }
    }

    /// Whether the chord is complete: every key of the rule is held in
    /// `state`. The event plays no part, and no earlier call is remembered.
    pub fn change(&self, _event: &Event, state: &KeyState) -> (fired: bool)
        ensures
            fired == holds_all(state@, self@.keys),
    {
        state.contains_all(self.keys.as_slice())
    }

    /// The identifier of the action that this rule stands for.
    pub fn focus(&self) -> (id: &str)
        ensures
            id@ == self@.focus,
    {
        self.focus.as_str()
    }

    /// The codes of the chord: at least one.
    pub fn keys(&self) -> (keys: &[i32])
        ensures
            keys@ == self@.keys,
            keys@.len() > 0,
    {
        proof {
            use_type_invariant(self);
        }
        self.keys.as_slice()
    }
}

/// The time allowed between arming a sequence and completing it, in
/// milliseconds. A sequence that was armed this long ago, or longer, no
/// longer fires.
pub const WINDOW_MS: u64 = 750;

/// The milliseconds from `at` to `now`; none where `now` is the earlier of
/// the two.
pub open spec fn elapsed(at: u64, now: u64) -> int {
    if now >= at {
        now - at
    } else {
        0
    }
}

/// Whether `now` lies within the window that opened at `at`.
pub fn within_window(at: u64, now: u64) -> (within: bool)
    ensures
        within == (elapsed(at, now) < WINDOW_MS),
{
    if now >= at {
        now - at < WINDOW_MS
    } else {
        true
    }
}

/// Whether `code` occurs in `codes`.
pub fn contains_code(codes: &[i32], code: i32) -> (found: bool)
    ensures
        found == codes@.contains(code),
{
    let mut i: usize = 0;
    while i < codes.len()
        invariant
            i <= codes.len(),
            forall|j: int| 0 <= j < i ==> codes@[j] != code,
        decreases codes.len() - i,
    {
        if codes[i] == code {
            return true;
        }
        i = i + 1;
    }
    false
}

/// What a two-step rule is: the prefix chord, the follow-up chord, the
/// action, and the time at which the rule was last armed, if it is armed.
pub struct SequenceView {
    /// The codes of the prefix chord.
    pub prefix: Seq<i32>,
    /// The codes of the follow-up chord.
    pub follow_up: Seq<i32>,
    /// The identifier of the action.
    pub focus: Seq<char>,
    /// When the prefix was last seen fully held, in milliseconds; `None`
    /// while the rule is idle.
    pub armed_at: Option<u64>,
}

impl SequenceView {
    /// Whether `event` is the press of a key that belongs to neither chord
    /// of the rule.
    pub open spec fn interrupted_by(self, event: Event) -> bool {
        event matches Event::Press(code) && !self.prefix.contains(code)
            && !self.follow_up.contains(code)
    }

    /// The arming of the rule once it has seen `event` at time `now`, with
    /// the keys `held` down. A foreign key press disarms the rule, whatever
    /// else is held. Otherwise a fully held prefix arms it anew at `now`, and
    /// anything else leaves it as it was.
    pub open spec fn armed_after(self, event: Event, held: Set<i32>, now: u64) -> Option<u64> {
        if self.interrupted_by(event) {
            None
        } else if holds_all(held, self.prefix) {
            Some(now)
        } else {
            self.armed_at
        }
    }

    /// Whether the rule fires on `event` at time `now`, with the keys `held`
    /// down: the prefix is no longer fully held, the follow-up is, and the
    /// rule, having seen the event, is armed since less than the window.
    pub open spec fn fires(self, event: Event, held: Set<i32>, now: u64) -> bool {
        &&& !holds_all(held, self.prefix)
        &&& holds_all(held, self.follow_up)
        &&& self.armed_after(event, held, now) matches Some(at)
        &&& elapsed(at, now) < WINDOW_MS
    }

    /// The rule once it has seen `event`: only its arming changes.
    pub open spec fn after(self, event: Event, held: Set<i32>, now: u64) -> SequenceView {
        SequenceView { armed_at: self.armed_after(event, held, now), ..self }
    }

    /// Whether seeing `event` at time `now` gives the answer `fired` and
    /// leaves the rule as `next`.
    pub open spec fn steps_to(
        self,
        event: Event,
        held: Set<i32>,
        now: u64,
        fired: bool,
        next: SequenceView,
    ) -> bool {
        fired == self.fires(event, held, now) && next == self.after(event, held, now)
    }
}

/// A two-step sequence: a prefix chord is held, then let go of at least in
/// part, and within the window a follow-up chord is held.
#[derive(Debug)]
pub struct TwoStepRule {
    keys1: Vec<i32>,
    keys2: Vec<i32>,
    focus: String,
    last_match: Option<u64>,
}

/// Why a two-step rule cannot be built.
#[derive(Clone, Copy, Debug, PartialEq, Eq)]
pub enum TwoStepError {
    /// The prefix chord is at fault.
    Prefix(KeysError),
    /// The prefix chord is in order, and the follow-up chord is at fault.
    FollowUp(KeysError),
}

/// Whether `error` is what `keys_to_codes` reports of `keys`.
pub open spec fn keys_fault(keys: Seq<Option<i32>>, error: KeysError) -> bool {
    match error {
        KeysError::Empty => keys.len() == 0,
        KeysError::Unmappable(i) => first_unmapped(keys, i as int),
    }
}

/// Whether a list of keys defines a chord: it is not empty and each key has
/// a logical code.
pub open spec fn usable(keys: Seq<Option<i32>>) -> bool {
    keys.len() > 0 && all_mapped(keys)
}

impl View for TwoStepRule {
    type V = SequenceView;

    closed spec fn view(&self) -> SequenceView {
        SequenceView {
            prefix: self.keys1@,
            follow_up: self.keys2@,
            focus: self.focus@,
            armed_at: self.last_match,
        }
    }
}

impl TwoStepRule {
    #[verifier::type_invariant]
    spec fn well_formed(self) -> bool {
        self.keys1@.len() > 0 && self.keys2@.len() > 0
    }

    /// A sequence of the prefix `keys1` and the follow-up `keys2` that
    /// stands for the action `focus`. The new rule is idle. Fails where one
    /// of the lists is empty or holds a key without a logical code; the
    /// prefix is looked at first.
    pub fn new(keys1: Vec<Option<i32>>, keys2: Vec<Option<i32>>, focus: &str) -> (rule: Result<
        TwoStepRule,
        TwoStepError,
    >)
        ensures
            match rule {
                Ok(rule) => {
                    &&& usable(keys1@)
                    &&& usable(keys2@)
                    &&& rule@.prefix == codes_of(keys1@)
                    &&& rule@.follow_up == codes_of(keys2@)
                    &&& rule@.focus == focus@
                    &&& rule@.armed_at is None
                },
                Err(TwoStepError::Prefix(e)) => keys_fault(keys1@, e),
                Err(TwoStepError::FollowUp(e)) => usable(keys1@) && keys_fault(keys2@, e),
            },
    {
        let codes1 = match keys_to_codes(&keys1) {
            Ok(codes) => codes,
            Err(e) => {
                return Err(TwoStepError::Prefix(e));
            },
        };
        let codes2 = match keys_to_codes(&keys2) {
            Ok(codes) => codes,
            Err(e) => {
                return Err(TwoStepError::FollowUp(e));
            },
        };
        Ok(TwoStepRule { keys1: codes1, keys2: codes2, focus: focus.to_owned(), last_match: None })
    }

    /// Shows the rule the event that arrived at time `now`, with the keys of
    /// `state` held, and tells whether the rule fires on it. Firing does not
    /// disarm the rule.
    pub fn change_at(&mut self, event: &Event, state: &KeyState, now: u64) -> (fired: bool)
        ensures
            fired == old(self)@.fires(*event, state@, now),
            final(self)@ == old(self)@.after(*event, state@, now),
    {
        proof {
            use_type_invariant(&*self);
        }
        let match1 = state.contains_all(self.keys1.as_slice());
        let match2 = state.contains_all(self.keys2.as_slice());
        if match1 {
            self.last_match = Some(now);
        }
        if let Event::Press(code) = *event {
            if !contains_code(self.keys1.as_slice(), code) && !contains_code(
                self.keys2.as_slice(),
                code,
            ) {
                // Anything foreign that is pressed ends the readiness.
                self.last_match = None;
            }
        }
        match self.last_match {
            Some(at) => !match1 && match2 && within_window(at, now),
            None => false,
        }
    }

    /// Reads `clock` and shows the rule the event at that time. Whatever the
    /// clock reads, the outcome is that of `change_at` at some time.
    pub fn change(&mut self, event: &Event, state: &KeyState, clock: &Clock) -> (fired: bool)
        ensures
            exists|now: u64| #[trigger]
                old(self)@.steps_to(*event, state@, now, fired, final(self)@),
    {
        let now = clock.now();
        let ghost before = self@;
        let fired = self.change_at(event, state, now);
        assert(before.steps_to(*event, state@, now, fired, self@));
        fired
    }

    /// The identifier of the action that this rule stands for.
    pub fn focus(&self) -> (id: &str)
        ensures
            id@ == self@.focus,
    {
        self.focus.as_str()
    }

    /// The codes of the prefix chord: at least one.
    pub fn prefix(&self) -> (keys: &[i32])
        ensures
            keys@ == self@.prefix,
            keys@.len() > 0,
    {
        proof {
            use_type_invariant(self);
        }
        self.keys1.as_slice()
    }

    /// The codes of the follow-up chord: at least one.
    pub fn follow_up(&self) -> (keys: &[i32])
        ensures
            keys@ == self@.follow_up,
            keys@.len() > 0,
    {
        proof {
            use_type_invariant(self);
        }
        self.keys2.as_slice()
    }

    /// When the rule was last armed, in milliseconds, if it is armed.
    pub fn armed_at(&self) -> (at: Option<u64>)
        ensures
            at == self@.armed_at,
    {
        self.last_match
    }
}

/// What a rule is: one of the two kinds.
pub enum RuleView {
    /// A chord.
    Simple(ChordView),
    /// A two-step sequence.
    TwoStep(SequenceView),
}

impl RuleView {
    /// Whether the rule fires on `event` at time `now`, with the keys `held`
    /// down.
    pub open spec fn fires(self, event: Event, held: Set<i32>, now: u64) -> bool {
        match self {
            RuleView::Simple(chord) => holds_all(held, chord.keys),
            RuleView::TwoStep(sequence) => sequence.fires(event, held, now),
        }
    }

    /// The rule once it has seen `event`. A chord keeps no memory.
    pub open spec fn after(self, event: Event, held: Set<i32>, now: u64) -> RuleView {
        match self {
            RuleView::Simple(chord) => self,
            RuleView::TwoStep(sequence) => RuleView::TwoStep(sequence.after(event, held, now)),
        }
    }

    /// The identifier of the action that the rule stands for.
    pub open spec fn focus(self) -> Seq<char> {
        match self {
            RuleView::Simple(chord) => chord.focus,
            RuleView::TwoStep(sequence) => sequence.focus,
        }
    }

    /// Whether seeing `event` at time `now` gives the answer `fired` and
    /// leaves the rule as `next`.
    pub open spec fn steps_to(
        self,
        event: Event,
        held: Set<i32>,
        now: u64,
        fired: bool,
        next: RuleView,
    ) -> bool {
        fired == self.fires(event, held, now) && next == self.after(event, held, now)
    }
}

/// A gesture rule of either kind.
#[derive(Debug)]
pub enum Rule {
    /// A chord.
    Simple(SimpleRule),
    /// A two-step sequence.
    TwoStep(TwoStepRule),
}

impl View for Rule {
    type V = RuleView;

    open spec fn view(&self) -> RuleView {
        match self {
            Rule::Simple(rule) => RuleView::Simple(rule@),
            Rule::TwoStep(rule) => RuleView::TwoStep(rule@),
        }
    }
}

impl Rule {
    /// Shows the rule the event that arrived at time `now`, with the keys of
    /// `state` held, and tells whether the rule fires on it.
    pub fn change_at(&mut self, event: &Event, state: &KeyState, now: u64) -> (fired: bool)
        ensures
            fired == old(self)@.fires(*event, state@, now),
            final(self)@ == old(self)@.after(*event, state@, now),
    {
        match self {
            Rule::Simple(rule) => rule.change(event, state),
            Rule::TwoStep(rule) => rule.change_at(event, state, now),
        }
    }

    /// Reads `clock` and shows the rule the event at that time. Whatever the
    /// clock reads, the outcome is that of `change_at` at some time.
    pub fn change(&mut self, event: &Event, state: &KeyState, clock: &Clock) -> (fired: bool)
        ensures
            exists|now: u64| #[trigger]
                old(self)@.steps_to(*event, state@, now, fired, final(self)@),
    {
        let now = clock.now();
        let ghost before = self@;
        let fired = self.change_at(event, state, now);
        assert(before.steps_to(*event, state@, now, fired, self@));
        fired
    }

    /// The identifier of the action that the rule stands for.
    pub fn focus(&self) -> (id: &str)
        ensures
            id@ == self@.focus(),
    {
        match self {
            Rule::Simple(rule) => rule.focus(),
            Rule::TwoStep(rule) => rule.focus(),
        }
    }
}

} // verus!
