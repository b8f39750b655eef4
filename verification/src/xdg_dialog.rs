//! Reacts to what clients say about their dialogs.

use crate::modal::{
    has_dialog, latest_dialog, lemma_removed_dialog_is_gone, lemma_set_parent_has_dialog,
    lemma_without_dialog_distinct, with_dialog, without_dialog, ModalDialogs,
};
use vstd::prelude::*;

verus! {

/// What a client says a toplevel is.
#[derive(Clone, Copy, Debug, PartialEq, Eq, Structural)]
pub enum DialogHint {
    /// Nothing is known.
    Unknown,
    /// The toplevel is a dialog.
    Dialog,
    /// The toplevel is a dialog that is modal to its parent.
    Modal,
}

/// The entries once the hint of `dialog` has changed.
pub open spec fn hinted(
    entries: Seq<(u64, u64)>,
    dialog: u64,
    parent: Option<u64>,
    hint: DialogHint,
) -> Seq<(u64, u64)> {
    match (hint, parent) {
        (DialogHint::Modal, Some(parent)) => with_dialog(entries, dialog, parent),
        _ => without_dialog(entries, dialog),
    }
}

/// Keeps track of a toplevel, with the surface `dialog` and the parent
/// `parent`, whose hint has changed: while it is modal it is a modal child of
/// its parent.
pub fn dialog_hint_changed(
    modal_dialogs: &mut ModalDialogs,
    dialog: u64,
    parent: Option<u64>,
    hint: DialogHint,
)
    ensures
        final(modal_dialogs)@ == match (hint, parent) {
            (DialogHint::Modal, Some(parent)) => with_dialog(old(modal_dialogs)@, dialog, parent),
            _ => without_dialog(old(modal_dialogs)@, dialog),
        },
        final(modal_dialogs)@ == hinted(old(modal_dialogs)@, dialog, parent, hint),
        old(modal_dialogs).wf() ==> final(modal_dialogs).wf(),
{
    if hint == DialogHint::Modal {
        modal_dialogs.set(dialog, parent);
    } else {
        modal_dialogs.remove(dialog);
    }
}

/// A toplevel is registered exactly while it is modal and has a parent, and then
/// with that parent, which is left with a modal dialog. Whatever the hint, the
/// entries of other dialogs stay.
pub proof fn lemma_registered_while_modal(
    entries: Seq<(u64, u64)>,
    dialog: u64,
    parent: Option<u64>,
    hint: DialogHint,
)
    ensures
        ({
            let after = hinted(entries, dialog, parent, hint);
            let registered = exists|i: int|
                0 <= i < after.len() && (#[trigger] after[i]).0 == dialog;
            &&& registered <==> hint == DialogHint::Modal && parent is Some
            &&& forall|i: int|
                0 <= i < after.len() && (#[trigger] after[i]).0 == dialog ==> Some(after[i].1)
                    == parent
            &&& hint == DialogHint::Modal && parent is Some ==> latest_dialog(
                after,
                parent->Some_0,
            ) is Some
            &&& forall|entry: (u64, u64)|
                entry.0 != dialog ==> (#[trigger] after.contains(entry) <==> entries.contains(
                    entry,
                ))
        }),
{
    let after = hinted(entries, dialog, parent, hint);
    if hint == DialogHint::Modal && parent is Some {
        let p = parent->Some_0;
        lemma_set_parent_has_dialog(entries, dialog, p);
        if has_dialog(entries, dialog) {
            let i = choose|i: int| 0 <= i < entries.len() && (#[trigger] entries[i]).0 == dialog;
            assert(after[i].0 == dialog);
        } else {
            assert(after[entries.len() as int].0 == dialog);
        }
        assert forall|entry: (u64, u64)| entry.0 != dialog implies (#[trigger] after.contains(
            entry,
        ) <==> entries.contains(entry)) by {
            if entries.contains(entry) {
                let i = choose|i: int| 0 <= i < entries.len() && entries[i] == entry;
                assert(after[i] == entry);
            }
            if after.contains(entry) {
                let i = choose|i: int| 0 <= i < after.len() && after[i] == entry;
                assert(entries[i] == entry);
            }
        }
    } else {
        lemma_removed_dialog_is_gone(entries, dialog, dialog);
        lemma_without_dialog_distinct(entries, dialog);
        assert(!has_dialog(after, dialog));
    }
}

} // verus!
