use keychord::action::{
    action_for, activation_script, substitution_steps, Action, Step, DOWN_ARROW, KEY_DELAY_MS,
};

#[test]
fn down_arrow_asks_for_a_key_press() {
    assert_eq!(DOWN_ARROW, "down arrow");
    assert_eq!(action_for("down arrow"), Action::PressDownArrow);
}

#[test]
fn every_other_identifier_names_an_application() {
    assert_eq!(action_for("iTerm"), Action::Activate);
    assert_eq!(action_for("Visual Studio Code"), Action::Activate);
    assert_eq!(action_for(""), Action::Activate);
    assert_eq!(action_for("Down Arrow"), Action::Activate);
    assert_eq!(action_for("down arrow "), Action::Activate);
}

#[test]
fn activation_script_names_the_application() {
    assert_eq!(activation_script("Firefox"), "tell application \"Firefox\" to activate");
    assert_eq!(
        activation_script("Visual Studio Code"),
        "tell application \"Visual Studio Code\" to activate"
    );
    assert_eq!(activation_script(""), "tell application \"\" to activate");
}

#[test]
fn substitution_releases_the_modifiers_first() {
    assert_eq!(KEY_DELAY_MS, 20);
    assert_eq!(
        substitution_steps(&["shift", "control"], "down"),
        vec![
            Step::Release("shift"),
            Step::Wait(20),
            Step::Release("control"),
            Step::Wait(20),
            Step::Press("down"),
            Step::Wait(20),
            Step::Release("down"),
        ]
    );
}

#[test]
fn substitution_without_modifiers_is_one_stroke() {
    let none: [u8; 0] = [];
    assert_eq!(
        substitution_steps(&none, 9u8),
        vec![Step::Press(9), Step::Wait(20), Step::Release(9)]
    );
}
