use space_combat::dialogue::Dialogue;

#[test]
fn dialogue_starts_hidden_with_its_opening_line() {
    let dialogue = Dialogue::init();
    assert!(!dialogue.visible);
    assert_eq!(dialogue.contents, "What you've been referring to");
}

#[test]
fn show_and_dismiss_toggle_visibility_and_keep_the_text() {
    let mut dialogue = Dialogue::init();
    dialogue.show();
    assert!(dialogue.visible);
    assert_eq!(dialogue.contents, "What you've been referring to");
    dialogue.show();
    assert!(dialogue.visible);
    dialogue.dismiss();
    assert!(!dialogue.visible);
    assert_eq!(dialogue.contents, "What you've been referring to");
    dialogue.dismiss();
    assert!(!dialogue.visible);
}

#[test]
fn set_text_replaces_the_text_and_keeps_visibility() {
    let mut dialogue = Dialogue::init();
    dialogue.set_text("To shoot the laser cannons, press [SPACE].".to_string());
    assert_eq!(dialogue.contents, "To shoot the laser cannons, press [SPACE].");
    assert!(!dialogue.visible);
    dialogue.show();
    dialogue.set_text(String::new());
    assert_eq!(dialogue.contents, "");
    assert!(dialogue.visible);
}
