use dog_viewer::selection::{AnimationController, ButtonLook, ButtonState, BASELINE_BLEND_MS, SWITCH_BLEND_MS};

fn catalog() -> AnimationController<&'static str> {
    AnimationController::new(vec!["sit", "walk", "run"])
}

fn buttons(pressed: &[usize]) -> Vec<ButtonState> {
    (0..3usize).map(|slot| ButtonState { slot, pressed: pressed.contains(&slot) }).collect()
}

#[test]
fn catalog_is_indexed_by_slot() {
    let c = catalog();
    assert_eq!(c.clip_count(), 3);
    assert_eq!(c.clip(0), "sit");
    assert_eq!(c.clip(1), "walk");
    assert_eq!(c.clip(2), "run");
    assert_eq!(c.active_slot(), None);
}

#[test]
fn baseline_start_plays_slot_zero_without_blend() {
    let c = catalog();
    let r = c.start_player();
    assert_eq!(r.slot, 0);
    assert_eq!(r.clip, "sit");
    assert_eq!(r.blend_ms, 0);
    assert_eq!(BASELINE_BLEND_MS, 0);
    assert!(r.looping);
}

#[test]
fn accepted_selection_crossfades_over_250_ms() {
    let mut c = catalog();
    let change = c.handle_buttons(&buttons(&[1])).expect("selection accepted");
    assert_eq!(change.play.slot, 1);
    assert_eq!(change.play.clip, "walk");
    assert_eq!(change.play.blend_ms, 250);
    assert_eq!(SWITCH_BLEND_MS, 250);
    assert!(change.play.looping);
    assert_eq!(c.active_slot(), Some(1));
}

#[test]
fn accepted_selection_highlights_only_its_button() {
    let mut c = catalog();
    let change = c.handle_buttons(&buttons(&[2])).unwrap();
    assert_eq!(change.looks, vec![ButtonLook::Normal, ButtonLook::Normal, ButtonLook::Pressed]);
    let change = c.handle_buttons(&buttons(&[0])).unwrap();
    assert_eq!(change.looks, vec![ButtonLook::Pressed, ButtonLook::Normal, ButtonLook::Normal]);
    assert_eq!(c.button_looks(&buttons(&[])), change.looks);
}

#[test]
fn pressing_active_slot_again_is_ignored() {
    let mut c = catalog();
    assert!(c.handle_buttons(&buttons(&[1])).is_some());
    for _ in 0..5 {
        assert!(c.handle_buttons(&buttons(&[1])).is_none());
        assert_eq!(c.active_slot(), Some(1));
    }
}

#[test]
fn first_selection_of_slot_zero_is_accepted() {
    let mut c = catalog();
    let change = c.handle_buttons(&buttons(&[0])).unwrap();
    assert_eq!(change.play.slot, 0);
    assert_eq!(change.play.blend_ms, 250);
    assert!(c.handle_buttons(&buttons(&[0])).is_none());
}

#[test]
fn tick_without_press_changes_nothing() {
    let mut c = catalog();
    assert!(c.handle_buttons(&buttons(&[])).is_none());
    assert!(c.handle_buttons(&Vec::new()).is_none());
    assert_eq!(c.active_slot(), None);
}

#[test]
fn first_pressed_button_decides() {
    let mut c = catalog();
    let change = c.handle_buttons(&buttons(&[1, 2])).unwrap();
    assert_eq!(change.play.slot, 1);
    assert_eq!(c.active_slot(), Some(1));
}

#[test]
fn active_first_press_discards_the_whole_tick() {
    let mut c = catalog();
    c.handle_buttons(&buttons(&[1])).unwrap();
    assert!(c.handle_buttons(&buttons(&[1, 2])).is_none());
    assert_eq!(c.active_slot(), Some(1));
}

#[test]
fn button_order_follows_input() {
    let mut c = catalog();
    let input = vec![
        ButtonState { slot: 2, pressed: false },
        ButtonState { slot: 0, pressed: true },
        ButtonState { slot: 1, pressed: true },
    ];
    let change = c.handle_buttons(&input).unwrap();
    assert_eq!(change.play.slot, 0);
    assert_eq!(change.looks, vec![ButtonLook::Normal, ButtonLook::Pressed, ButtonLook::Normal]);
}

#[test]
fn entity_ready_after_selection_starts_on_selected_slot() {
    let mut c = catalog();
    c.handle_buttons(&buttons(&[2])).unwrap();
    let r = c.start_player();
    assert_eq!(r.slot, 2);
    assert_eq!(r.clip, "run");
    assert_eq!(r.blend_ms, 0);
    assert!(r.looping);
}
