use keychord::event::Event;
use keychord::key_state::KeyState;
use keychord::rule::{
    contains_code, keys_to_codes, within_window, KeysError, Rule, SimpleRule, TwoStepError,
    TwoStepRule, WINDOW_MS,
};

const A: i32 = 30;
const B: i32 = 48;
const C: i32 = 46;
const D: i32 = 32;

fn held(codes: &[i32]) -> KeyState {
    let mut state = KeyState::new();
    for code in codes {
        state.mark_pressed(*code);
    }
    state
}

fn sequence() -> TwoStepRule {
    TwoStepRule::new(vec![Some(A), Some(B)], vec![Some(C)], "Notion").unwrap()
}

#[test]
fn keys_to_codes_keeps_the_order() {
    assert_eq!(keys_to_codes(&vec![Some(3), Some(1), Some(2)]), Ok(vec![3, 1, 2]));
    assert_eq!(keys_to_codes(&vec![Some(7)]), Ok(vec![7]));
    assert_eq!(keys_to_codes(&vec![Some(7), Some(7)]), Ok(vec![7, 7]));
}

#[test]
fn keys_to_codes_refuses_an_empty_list() {
    assert_eq!(keys_to_codes(&vec![]), Err(KeysError::Empty));
}

#[test]
fn keys_to_codes_names_the_first_key_without_code() {
    assert_eq!(keys_to_codes(&vec![None]), Err(KeysError::Unmappable(0)));
    assert_eq!(keys_to_codes(&vec![Some(1), None, Some(2), None]), Err(KeysError::Unmappable(1)));
    assert_eq!(keys_to_codes(&vec![Some(1), Some(2), None]), Err(KeysError::Unmappable(2)));
}

#[test]
fn contains_code_finds_what_is_there() {
    assert!(contains_code(&[1, 2, 3], 1));
    assert!(contains_code(&[1, 2, 3], 3));
    assert!(!contains_code(&[1, 2, 3], 4));
    assert!(!contains_code(&[], 0));
}

#[test]
fn window_is_750_milliseconds() {
    assert_eq!(WINDOW_MS, 750);
    assert!(within_window(1_000, 1_000));
    assert!(within_window(1_000, 1_749));
    assert!(!within_window(1_000, 1_750));
    assert!(!within_window(1_000, 1_800));
    assert!(!within_window(0, u64::MAX));
}

#[test]
fn window_counts_an_earlier_reading_as_no_time() {
    assert!(within_window(1_000, 999));
    assert!(within_window(u64::MAX, 0));
}

#[test]
fn simple_rule_keeps_keys_and_focus() {
    let rule = SimpleRule::new(vec![Some(A), Some(B), Some(C)], "iTerm").unwrap();
    assert_eq!(rule.keys(), &[A, B, C]);
    assert_eq!(rule.focus(), "iTerm");
}

#[test]
fn simple_rule_refuses_bad_keys() {
    assert_eq!(SimpleRule::new(vec![], "x").unwrap_err(), KeysError::Empty);
    assert_eq!(SimpleRule::new(vec![Some(A), None], "x").unwrap_err(), KeysError::Unmappable(1));
}

#[test]
fn simple_rule_fires_iff_all_keys_are_held() {
    let rule = SimpleRule::new(vec![Some(A), Some(B)], "iTerm").unwrap();
    assert!(!rule.change(&Event::Press(A), &held(&[])));
    assert!(!rule.change(&Event::Press(A), &held(&[A])));
    assert!(!rule.change(&Event::Press(B), &held(&[B])));
    assert!(rule.change(&Event::Press(B), &held(&[A, B])));
    assert!(rule.change(&Event::Press(C), &held(&[A, B, C])));
    assert!(!rule.change(&Event::Press(C), &held(&[A, C])));
}

#[test]
fn simple_rule_fires_on_every_event_while_held() {
    let rule = SimpleRule::new(vec![Some(A), Some(B)], "iTerm").unwrap();
    let state = held(&[A, B, D]);
    assert!(rule.change(&Event::Press(D), &state));
    assert!(rule.change(&Event::Release(C), &state));
    assert!(rule.change(&Event::Other, &state));
    assert!(rule.change(&Event::Press(D), &state));
}

#[test]
fn two_step_rule_starts_idle() {
    let rule = sequence();
    assert_eq!(rule.prefix(), &[A, B]);
    assert_eq!(rule.follow_up(), &[C]);
    assert_eq!(rule.focus(), "Notion");
    assert_eq!(rule.armed_at(), None);
}

#[test]
fn two_step_rule_refuses_bad_keys() {
    assert_eq!(
        TwoStepRule::new(vec![], vec![Some(C)], "x").unwrap_err(),
        TwoStepError::Prefix(KeysError::Empty)
    );
    assert_eq!(
        TwoStepRule::new(vec![None, Some(A)], vec![None], "x").unwrap_err(),
        TwoStepError::Prefix(KeysError::Unmappable(0))
    );
    assert_eq!(
        TwoStepRule::new(vec![Some(A)], vec![], "x").unwrap_err(),
        TwoStepError::FollowUp(KeysError::Empty)
    );
    assert_eq!(
        TwoStepRule::new(vec![Some(A)], vec![Some(C), Some(D), None], "x").unwrap_err(),
        TwoStepError::FollowUp(KeysError::Unmappable(2))
    );
}

#[test]
fn idle_rule_does_not_fire() {
    let mut rule = sequence();
    assert!(!rule.change_at(&Event::Press(C), &held(&[C]), 100));
    assert_eq!(rule.armed_at(), None);
}

#[test]
fn held_prefix_arms_and_refreshes() {
    let mut rule = sequence();
    assert!(!rule.change_at(&Event::Press(A), &held(&[A]), 10));
    assert_eq!(rule.armed_at(), None);
    assert!(!rule.change_at(&Event::Press(B), &held(&[A, B]), 20));
    assert_eq!(rule.armed_at(), Some(20));
    assert!(!rule.change_at(&Event::Press(B), &held(&[A, B]), 500));
    assert_eq!(rule.armed_at(), Some(500));
    assert!(!rule.change_at(&Event::Other, &held(&[A, B]), 900));
    assert_eq!(rule.armed_at(), Some(900));
}

#[test]
fn follow_up_while_prefix_is_held_does_not_fire() {
    let mut rule = sequence();
    assert!(!rule.change_at(&Event::Press(B), &held(&[A, B]), 0));
    assert!(!rule.change_at(&Event::Press(C), &held(&[A, B, C]), 50));
    assert_eq!(rule.armed_at(), Some(50));
}

#[test]
fn follow_up_after_release_fires_within_the_window() {
    let mut rule = sequence();
    assert!(!rule.change_at(&Event::Press(B), &held(&[A, B]), 1_000));
    assert!(rule.change_at(&Event::Press(C), &held(&[B, C]), 1_300));
    assert_eq!(rule.armed_at(), Some(1_000));
}

#[test]
fn follow_up_fires_up_to_the_last_millisecond() {
    let mut rule = sequence();
    assert!(!rule.change_at(&Event::Press(B), &held(&[A, B]), 1_000));
    assert!(rule.change_at(&Event::Press(C), &held(&[C]), 1_749));
    assert!(!rule.change_at(&Event::Press(C), &held(&[C]), 1_750));
    assert!(!rule.change_at(&Event::Press(C), &held(&[C]), 1_800));
    assert_eq!(rule.armed_at(), Some(1_000));
}

#[test]
fn foreign_press_disarms() {
    let mut rule = sequence();
    assert!(!rule.change_at(&Event::Press(B), &held(&[A, B]), 0));
    assert!(!rule.change_at(&Event::Press(D), &held(&[A, B, D]), 10));
    assert_eq!(rule.armed_at(), None);
    assert!(!rule.change_at(&Event::Press(C), &held(&[C]), 20));
}

#[test]
fn foreign_press_keeps_the_rule_from_firing_on_it() {
    let mut rule = sequence();
    assert!(!rule.change_at(&Event::Press(B), &held(&[A, B]), 0));
    assert!(!rule.change_at(&Event::Press(D), &held(&[C, D]), 10));
    assert_eq!(rule.armed_at(), None);
}

#[test]
fn foreign_release_does_not_disarm() {
    let mut rule = sequence();
    assert!(!rule.change_at(&Event::Press(B), &held(&[A, B]), 0));
    assert!(!rule.change_at(&Event::Release(D), &held(&[A]), 10));
    assert_eq!(rule.armed_at(), Some(0));
    assert!(rule.change_at(&Event::Press(C), &held(&[A, C]), 20));
}

#[test]
fn firing_does_not_disarm() {
    let mut rule = sequence();
    assert!(!rule.change_at(&Event::Press(B), &held(&[A, B]), 0));
    assert!(rule.change_at(&Event::Press(C), &held(&[B, C]), 100));
    assert!(!rule.change_at(&Event::Release(C), &held(&[B]), 200));
    assert!(rule.change_at(&Event::Press(C), &held(&[B, C]), 300));
    assert_eq!(rule.armed_at(), Some(0));
}

#[test]
fn clock_running_backwards_counts_as_no_time() {
    let mut rule = sequence();
    assert!(!rule.change_at(&Event::Press(B), &held(&[A, B]), 5_000));
    assert!(rule.change_at(&Event::Press(C), &held(&[C]), 10));
}

#[test]
fn rule_of_either_kind_answers_as_its_kind() {
    let mut chord = Rule::Simple(SimpleRule::new(vec![Some(A), Some(B)], "iTerm").unwrap());
    let mut seq = Rule::TwoStep(sequence());
    assert_eq!(chord.focus(), "iTerm");
    assert_eq!(seq.focus(), "Notion");
    assert!(chord.change_at(&Event::Press(B), &held(&[A, B]), 0));
    assert!(!seq.change_at(&Event::Press(B), &held(&[A, B]), 0));
    assert!(!chord.change_at(&Event::Press(C), &held(&[A, C]), 10));
    assert!(seq.change_at(&Event::Press(C), &held(&[A, C]), 10));
    assert!(!seq.change_at(&Event::Press(C), &held(&[A, C]), 750));
}
