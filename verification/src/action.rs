//! What a fired rule asks for: which kind of action its identifier names,
//! and what the executor is to send for it.

use vstd::prelude::*;

verus! {

/// The identifier that asks for a synthetic press of the down arrow in place
/// of the chord that was held.
pub const DOWN_ARROW: &'static str = "down arrow";

/// The time to let pass between two synthetic key events, in milliseconds.
pub const KEY_DELAY_MS: u64 = 20;

/// The kind of action that an identifier names.
#[derive(Clone, Copy, Debug, PartialEq, Eq)]
pub enum Action {
    /// Put a synthetic press of the down arrow in place of the chord.
    PressDownArrow,
    /// Bring the application of that name to the foreground.
    Activate,
}

/// The kind of action that `focus` names: the one identifier `DOWN_ARROW`
/// asks for a key press, every other names an application.
pub fn action_for(focus: &str) -> (action: Action)
    ensures
        action == if focus@ == DOWN_ARROW@ {
            Action::PressDownArrow
        } else {
            Action::Activate
        },
{
    if focus.to_owned() == DOWN_ARROW.to_owned() {
        Action::PressDownArrow
    } else {
        Action::Activate
    }
}

/// The line of script that brings the application `app` to the foreground.
pub fn activation_script(app: &str) -> (script: String)
    ensures
        script@ == "tell application \""@ + app@ + "\" to activate"@,
{
    let mut script = "tell application \"".to_owned();
    script.append(app);
    script.append("\" to activate");
    script
}

/// One step of sending synthetic key events.
#[derive(Debug, PartialEq, Eq)]
pub enum Step<K> {
    /// Send the press of a key.
    Press(K),
    /// Send the release of a key.
    Release(K),
    /// Let this many milliseconds pass.
    Wait(u64),
}

/// The steps that put one stroke of `key` in place of a chord whose
/// modifiers are still held: each modifier is released first, in order, then
/// the key is pressed and released, and between any two events lies a wait
/// of `KEY_DELAY_MS`.
pub open spec fn substitution<K>(modifiers: Seq<K>, key: K) -> Seq<Step<K>> {
    Seq::new(
        2 * modifiers.len() + 3,
        |i: int|
            if i < 2 * modifiers.len() {
                if i % 2 == 0 {
                    Step::Release(modifiers[i / 2])
                } else {
                    Step::Wait(KEY_DELAY_MS)
                }
            } else if i == 2 * modifiers.len() {
                Step::Press(key)
            } else if i == 2 * modifiers.len() + 1 {
                Step::Wait(KEY_DELAY_MS)
            } else {
                Step::Release(key)
            },
    )
}

/// Plans the synthetic events for one stroke of `key` while `modifiers` are
/// held.
pub fn substitution_steps<K: Copy>(modifiers: &[K], key: K) -> (steps: Vec<Step<K>>)
    ensures
        steps@ == substitution(modifiers@, key),
{
    let mut steps: Vec<Step<K>> = Vec::new();
    let mut i: usize = 0;
    while i < modifiers.len()
        invariant
            i <= modifiers.len(),
            steps@.len() == 2 * i,
            forall|j: int|
                0 <= j < 2 * i ==> #[trigger] steps@[j] == substitution(modifiers@, key)[j],
        decreases modifiers.len() - i,
    {
        steps.push(Step::Release(modifiers[i]));
        steps.push(Step::Wait(KEY_DELAY_MS));
        i = i + 1;
    }
    steps.push(Step::Press(key));
    steps.push(Step::Wait(KEY_DELAY_MS));
    steps.push(Step::Release(key));
    assert(steps@ =~= substitution(modifiers@, key));
    steps
}

} // verus!
