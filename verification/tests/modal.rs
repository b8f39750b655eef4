use cosmic_comp::modal::ModalDialogs;
use cosmic_comp::xdg_dialog::{dialog_hint_changed, DialogHint};

#[test]
fn no_dialogs() {
    assert_eq!(ModalDialogs::default().dialog_for(1), None);
}

#[test]
fn latest_dialog_of_a_parent() {
    let mut dialogs = ModalDialogs::default();
    dialogs.set(10, Some(1));
    dialogs.set(11, Some(1));
    dialogs.set(20, Some(2));
    assert_eq!(dialogs.dialog_for(1), Some(11));
    assert_eq!(dialogs.dialog_for(2), Some(20));
    assert_eq!(dialogs.dialog_for(10), None);
}

#[test]
fn registering_again_keeps_the_place() {
    let mut dialogs = ModalDialogs::default();
    dialogs.set(10, Some(1));
    dialogs.set(11, Some(1));
    dialogs.set(10, Some(1));
    assert_eq!(dialogs.dialog_for(1), Some(11));
}

#[test]
fn registering_with_another_parent_moves_the_dialog() {
    let mut dialogs = ModalDialogs::default();
    dialogs.set(10, Some(1));
    dialogs.set(11, Some(2));
    dialogs.set(10, Some(2));
    assert_eq!(dialogs.dialog_for(1), None);
    assert_eq!(dialogs.dialog_for(2), Some(11));
    dialogs.remove(11);
    assert_eq!(dialogs.dialog_for(2), Some(10));
}

#[test]
fn removing_a_dialog_reveals_the_one_before() {
    let mut dialogs = ModalDialogs::default();
    for dialog in 10..15 {
        dialogs.set(dialog, Some(1));
    }
    dialogs.remove(12);
    dialogs.remove(99);
    for dialog in [14, 13, 11, 10] {
        assert_eq!(dialogs.dialog_for(1), Some(dialog));
        dialogs.remove(dialog);
    }
    assert_eq!(dialogs.dialog_for(1), None);
}

#[test]
fn registering_without_parent_removes() {
    let mut dialogs = ModalDialogs::default();
    dialogs.set(10, Some(1));
    dialogs.set(11, Some(1));
    dialogs.set(11, None);
    assert_eq!(dialogs.dialog_for(1), Some(10));
    dialogs.set(12, None);
    assert_eq!(dialogs.dialog_for(1), Some(10));
}

#[test]
fn removing_a_parent_keeps_the_others() {
    let mut dialogs = ModalDialogs::default();
    dialogs.set(10, Some(1));
    dialogs.set(20, Some(2));
    dialogs.set(11, Some(1));
    dialogs.set(21, Some(2));
    dialogs.remove_parent(1);
    assert_eq!(dialogs.dialog_for(1), None);
    assert_eq!(dialogs.dialog_for(2), Some(21));
    dialogs.remove(21);
    assert_eq!(dialogs.dialog_for(2), Some(20));
    dialogs.remove_parent(3);
    assert_eq!(dialogs.dialog_for(2), Some(20));
}

#[test]
fn hints_register_and_remove() {
    let mut dialogs = ModalDialogs::default();
    dialog_hint_changed(&mut dialogs, 10, Some(1), DialogHint::Modal);
    assert_eq!(dialogs.dialog_for(1), Some(10));
    dialog_hint_changed(&mut dialogs, 10, Some(1), DialogHint::Dialog);
    assert_eq!(dialogs.dialog_for(1), None);
    dialog_hint_changed(&mut dialogs, 10, Some(1), DialogHint::Modal);
    dialog_hint_changed(&mut dialogs, 10, None, DialogHint::Modal);
    assert_eq!(dialogs.dialog_for(1), None);
    dialog_hint_changed(&mut dialogs, 10, Some(1), DialogHint::Modal);
    dialog_hint_changed(&mut dialogs, 10, Some(1), DialogHint::Unknown);
    assert_eq!(dialogs.dialog_for(1), None);
}

#[test]
fn removing_undoes_registering() {
    let mut dialogs = ModalDialogs::default();
    dialogs.set(10, Some(1));
    dialogs.set(20, Some(2));
    dialogs.set(11, Some(1));
    dialogs.remove(11);
    assert_eq!(dialogs.dialog_for(1), Some(10));
    assert_eq!(dialogs.dialog_for(2), Some(20));
}

#[test]
fn registered_surfaces_are_named() {
    let mut dialogs = ModalDialogs::default();
    assert!(!dialogs.names(10));
    dialogs.set(10, Some(1));
    dialogs.set(11, Some(1));
    assert!(dialogs.names(10) && dialogs.names(11) && dialogs.names(1));
    assert!(!dialogs.names(2));
    dialogs.remove(11);
    assert!(!dialogs.names(11) && dialogs.names(10) && dialogs.names(1));
    dialogs.remove_parent(1);
    assert!(!dialogs.names(10) && !dialogs.names(1));
}
