use radio::state::RadioCommand;
use radio::tasks::input::InputState;

#[test]
fn counts_that_make_no_detent_are_kept() {
    let mut i = InputState::new();
    assert_eq!(i.on_rotation(3, 0), None);
    assert_eq!(i.on_rotation(3, 1000), Some(RadioCommand::TuneRelative(1)));
    assert_eq!(i.on_rotation(3, 2000), Some(RadioCommand::TuneRelative(1)));
    assert_eq!(i.rotation.residual, 1);
    assert_eq!(i.on_rotation(-1, 3000), None);
    assert_eq!(i.on_rotation(0, 4000), None);
    assert_eq!(i.on_rotation(-4, 5000), Some(RadioCommand::TuneRelative(-1)));
}

#[test]
fn fast_rotation_tunes_in_larger_steps() {
    let cases = [(40, 5), (100, 3), (250, 2), (251, 1), (500, 1), (501, 1)];
    for (gap, factor) in cases {
        let mut i = InputState::new();
        assert_eq!(i.on_rotation(4, 0), Some(RadioCommand::TuneRelative(1)));
        assert_eq!(i.on_rotation(4, gap), Some(RadioCommand::TuneRelative(factor)));
    }
    // Several detents at once share the time.
    let mut i = InputState::new();
    i.on_rotation(4, 0);
    assert_eq!(i.on_rotation(12, 120), Some(RadioCommand::TuneRelative(15)));
}

#[test]
fn change_of_direction_ends_the_acceleration() {
    let mut i = InputState::new();
    i.on_rotation(4, 0);
    assert_eq!(i.on_rotation(-4, 10), Some(RadioCommand::TuneRelative(-1)));
    assert_eq!(i.on_rotation(-4, 20), Some(RadioCommand::TuneRelative(-5)));
}

#[test]
fn huge_rotation_saturates() {
    let mut i = InputState::new();
    assert_eq!(i.on_rotation(i32::MAX, 0), Some(RadioCommand::TuneRelative(i16::MAX)));
    assert_eq!(i.on_rotation(i32::MIN, 1), Some(RadioCommand::TuneRelative(i16::MIN)));
}

#[test]
fn short_press_goes_to_the_next_preset() {
    let mut i = InputState::new();
    assert_eq!(i.on_button(false, 0), None);
    assert_eq!(i.on_button(true, 10), None);
    assert_eq!(i.on_button(true, 809), None);
    assert_eq!(i.on_button(false, 820), Some(RadioCommand::CyclePreset));
    assert_eq!(i.on_button(false, 830), None);
}

#[test]
fn held_button_fires_each_tier_once() {
    let mut i = InputState::new();
    let mut sent = Vec::new();
    for t in 0..500u64 {
        if let Some(c) = i.on_button(true, t * 10) {
            sent.push((t * 10, c));
        }
    }
    assert_eq!(sent, vec![(800, RadioCommand::SavePreset), (2500, RadioCommand::ToggleMute)]);
    assert_eq!(i.on_button(false, 5000), None);
}

#[test]
fn long_press_alone_saves() {
    let mut i = InputState::new();
    i.on_button(true, 0);
    assert_eq!(i.on_button(true, 800), Some(RadioCommand::SavePreset));
    assert_eq!(i.on_button(true, 2499), None);
    assert_eq!(i.on_button(false, 2499), None);
}
