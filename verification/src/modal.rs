//! Tracks modal dialogs and their parent toplevels.

use indexmap::IndexMap;
use vstd::prelude::*;

verus! {

/// The insertion-ordered hash map of the `indexmap` crate.
#[verifier::external_type_specification]
#[verifier::external_body]
#[verifier::reject_recursive_types(K)]
#[verifier::reject_recursive_types(V)]
#[verifier::reject_recursive_types(S)]
pub struct ExIndexMap<K, V, S>(IndexMap<K, V, S>);

/// The entries of `map`, each a key and its value, in the order of the map.
pub uninterp spec fn map_entries(map: IndexMap<u64, u64>) -> Seq<(u64, u64)>;

/// `dialog` is registered.
pub open spec fn has_dialog(entries: Seq<(u64, u64)>, dialog: u64) -> bool {
    exists|i: int| 0 <= i < entries.len() && (#[trigger] entries[i]).0 == dialog
}

/// No dialog is registered twice.
pub open spec fn dialogs_distinct(entries: Seq<(u64, u64)>) -> bool {
    forall|i: int, j: int|
        0 <= i < j < entries.len() ==> (#[trigger] entries[i]).0 != (#[trigger] entries[j]).0
}

/// The entries, in that of `dialog` with another parent.
pub open spec fn with_parent(entries: Seq<(u64, u64)>, dialog: u64, parent: u64) -> Seq<
    (u64, u64),
> {
    Seq::new(
        entries.len(),
        |i: int|
            if entries[i].0 == dialog {
                (dialog, parent)
            } else {
                entries[i]
            },
    )
}

/// The entries once `dialog` belongs to `parent`. A dialog that is already
/// registered keeps its place, any other comes last.
pub open spec fn with_dialog(entries: Seq<(u64, u64)>, dialog: u64, parent: u64) -> Seq<
    (u64, u64),
> {
    if has_dialog(entries, dialog) {
        with_parent(entries, dialog, parent)
    } else {
        entries.push((dialog, parent))
    }
}

/// Holds of the entries of other dialogs.
pub open spec fn of_other_dialog(dialog: u64) -> spec_fn((u64, u64)) -> bool {
    |entry: (u64, u64)| entry.0 != dialog
}

/// Holds of the entries of other parents.
pub open spec fn of_other_parent(parent: u64) -> spec_fn((u64, u64)) -> bool {
    |entry: (u64, u64)| entry.1 != parent
}

/// The entries but that of `dialog`, in their order.
pub open spec fn without_dialog(entries: Seq<(u64, u64)>, dialog: u64) -> Seq<(u64, u64)> {
    entries.filter(of_other_dialog(dialog))
}

/// The entries but those of `parent`, in their order.
pub open spec fn without_parent(entries: Seq<(u64, u64)>, parent: u64) -> Seq<(u64, u64)> {
    entries.filter(of_other_parent(parent))
}

/// An entry names `surface`, as its dialog or as its parent.
pub open spec fn names_surface(entries: Seq<(u64, u64)>, surface: u64) -> bool {
    exists|i: int|
        0 <= i < entries.len() && ((#[trigger] entries[i]).0 == surface || entries[i].1 == surface)
}

/// The last dialog of `parent`.
pub open spec fn latest_dialog(entries: Seq<(u64, u64)>, parent: u64) -> Option<u64>
    decreases entries.len(),
{
    if entries.len() == 0 {
        None
    } else if entries.last().1 == parent {
        Some(entries.last().0)
    } else {
        latest_dialog(entries.drop_last(), parent)
    }
}

/// `IndexMap::default`: the map has no entries.
#[verifier::external_body]
fn map_default() -> (map: IndexMap<u64, u64>)
    ensures
        map_entries(map) == Seq::<(u64, u64)>::empty(),
{
    IndexMap::default()
}

/// `IndexMap::insert`: the value of a key that is in the map is replaced, and
/// the key keeps its place; any other key comes last. The value that was
/// replaced is returned.
#[verifier::external_body]
fn map_insert(map: &mut IndexMap<u64, u64>, key: u64, value: u64) -> (replaced: Option<u64>)
    ensures
        map_entries(*final(map)) == with_dialog(map_entries(*old(map)), key, value),
        match replaced {
            Some(previous) => map_entries(*old(map)).contains((key, previous)),
            None => !has_dialog(map_entries(*old(map)), key),
        },
{
    map.insert(key, value)
}

/// `IndexMap::shift_remove`: the entry of the key, if there is one, is
/// removed, and the others keep their order. The value that was removed is
/// returned.
#[verifier::external_body]
fn map_shift_remove(map: &mut IndexMap<u64, u64>, key: u64) -> (removed: Option<u64>)
    ensures
        map_entries(*final(map)) == without_dialog(map_entries(*old(map)), key),
        match removed {
            Some(previous) => map_entries(*old(map)).contains((key, previous)),
            None => !has_dialog(map_entries(*old(map)), key),
        },
{
    map.shift_remove(&key)
}

/// `IndexMap::retain`, with `is_other_parent` to decide: the entries of which
/// it holds are kept, in their order.
#[verifier::external_body]
fn map_retain_other_parents(map: &mut IndexMap<u64, u64>, parent: u64)
    ensures
        map_entries(*final(map)) == without_parent(map_entries(*old(map)), parent),
{
    map.retain(|_, dialog_parent| is_other_parent(*dialog_parent, parent));
}

/// `IndexMap::iter`, from its end: the entries, last to first.
#[verifier::external_body]
fn map_entries_reversed(map: &IndexMap<u64, u64>) -> (entries: Vec<(u64, u64)>)
    ensures
        entries@ == map_entries(*map).reverse(),
{
    map.iter().rev().map(|(dialog, parent)| (*dialog, *parent)).collect()
}

/// Whether a dialog with the parent `dialog_parent` stays when those of
/// `parent` are removed.
fn is_other_parent(dialog_parent: u64, parent: u64) -> (r: bool)
    ensures
        r == (dialog_parent != parent),
{
    dialog_parent != parent
}

/// Modal dialog relationships requested by clients.
/// A parent stays unfocused while its modal child is open.
///
/// Surfaces are known by their numbers.
#[derive(Debug)]
pub struct ModalDialogs {
    /// dialog surface -> parent surface
    dialogs: IndexMap<u64, u64>,
}

impl View for ModalDialogs {
    type V = Seq<(u64, u64)>;

    /// The dialogs with their parents, in the order in which they were
    /// registered.
    closed spec fn view(&self) -> Seq<(u64, u64)> {
        map_entries(self.dialogs)
    }
}

impl Default for ModalDialogs {
    fn default() -> (dialogs: ModalDialogs)
        ensures
            dialogs@ == Seq::<(u64, u64)>::empty(),
            dialogs.wf(),
    {
        ModalDialogs { dialogs: map_default() }
    }
}

impl ModalDialogs {
    /// No dialog is registered twice.
    pub open spec fn wf(self) -> bool {
        dialogs_distinct(self@)
    }

    /// Register `dialog` as a modal child of `parent`.
    /// Clears any prior relation when the dialog is no longer modal.
    pub fn set(&mut self, dialog: u64, parent: Option<u64>)
        ensures
            final(self)@ == match parent {
                Some(parent) => with_dialog(old(self)@, dialog, parent),
                None => without_dialog(old(self)@, dialog),
            },
            old(self).wf() ==> final(self).wf(),
    {
        match parent {
            Some(parent) => {
                proof {
                    lemma_with_dialog_distinct(self@, dialog, parent);
                }
                map_insert(&mut self.dialogs, dialog, parent);
            },
            None => {
                proof {
                    lemma_without_dialog_distinct(self@, dialog);
                }
                map_shift_remove(&mut self.dialogs, dialog);
            },
        }
    }

    /// Remove the modal state of `dialog`.
    pub fn remove(&mut self, dialog: u64)
        ensures
            final(self)@ == without_dialog(old(self)@, dialog),
            old(self).wf() ==> final(self).wf(),
    {
        proof {
            lemma_without_dialog_distinct(self@, dialog);
        }
        map_shift_remove(&mut self.dialogs, dialog);
    }

    /// Remove all dialogs attached to `parent`.
    pub fn remove_parent(&mut self, parent: u64)
        ensures
            final(self)@ == without_parent(old(self)@, parent),
            old(self).wf() ==> final(self).wf(),
    {
        proof {
            lemma_without_parent_distinct(self@, parent);
        }
        map_retain_other_parents(&mut self.dialogs, parent);
    }

    /// Return the most recent modal dialog for `parent`, if any.
    pub fn dialog_for(&self, parent: u64) -> (r: Option<u64>)
        ensures
            r == latest_dialog(self@, parent),
    {
        let entries: Vec<(u64, u64)> = map_entries_reversed(&self.dialogs);
        let mut i: usize = 0;
        assert(self@.take(self@.len() as int) =~= self@);
        while i < entries.len()
            invariant
                i <= entries.len(),
                entries@ == self@.reverse(),
                latest_dialog(self@, parent) == latest_dialog(self@.take(self@.len() - i), parent),
            decreases entries.len() - i,
        {
            let (dialog, dialog_parent) = entries[i];
            assert(self@.take(self@.len() - i).drop_last() =~= self@.take(self@.len() - i - 1));
            if dialog_parent == parent {
                return Some(dialog);
            }
            i = i + 1;
        }
        None
    }

    /// Whether `surface` is registered, as a dialog or as the parent of one.
    /// The number of a surface that is not can be given to another one.
    pub fn names(&self, surface: u64) -> (r: bool)
        ensures
            r == names_surface(self@, surface),
    {
        let entries: Vec<(u64, u64)> = map_entries_reversed(&self.dialogs);
        let mut i: usize = 0;
        while i < entries.len()
            invariant
                i <= entries.len(),
                entries@ == self@.reverse(),
                forall|k: int|
                    self@.len() - i <= k < self@.len() ==> (#[trigger] self@[k]).0 != surface
                        && self@[k].1 != surface,
            decreases entries.len() - i,
        {
            let (dialog, parent) = entries[i];
            assert((dialog, parent) == self@[self@.len() - 1 - i]);
            if dialog == surface || parent == surface {
                return true;
            }
            i = i + 1;
        }
        false
    }
}

/// Registering a dialog keeps the dialogs distinct.
pub proof fn lemma_with_dialog_distinct(entries: Seq<(u64, u64)>, dialog: u64, parent: u64)
    ensures
        dialogs_distinct(entries) ==> dialogs_distinct(with_dialog(entries, dialog, parent)),
{
}

/// How the last entry takes part in keeping some of the entries.
proof fn lemma_kept_unfold(entries: Seq<(u64, u64)>, keep: spec_fn((u64, u64)) -> bool)
    ensures
        entries.len() == 0 ==> entries.filter(keep) == entries,
        entries.len() > 0 ==> entries.filter(keep) == if keep(entries.last()) {
            entries.drop_last().filter(keep).push(entries.last())
        } else {
            entries.drop_last().filter(keep)
        },
{
    reveal(Seq::filter);
}

/// Keeping some of the entries keeps just those, and they stay distinct.
proof fn lemma_kept_distinct(entries: Seq<(u64, u64)>, keep: spec_fn((u64, u64)) -> bool)
    ensures
        forall|entry: (u64, u64)| #[trigger]
            entries.filter(keep).contains(entry) <==> entries.contains(entry) && keep(entry),
        dialogs_distinct(entries) ==> dialogs_distinct(entries.filter(keep)),
    decreases entries.len(),
{
    lemma_kept_unfold(entries, keep);
    if entries.len() > 0 {
        let before = entries.drop_last();
        lemma_kept_distinct(before, keep);
        lemma_push_contains(before, entries.last());
        lemma_push_contains(before.filter(keep), entries.last());
        assert(entries =~= before.push(entries.last()));
        if dialogs_distinct(entries) {
            lemma_push_distinct(before, before.filter(keep), entries.last());
        }
    }
}

/// Removing a dialog keeps the others, which stay distinct.
pub proof fn lemma_without_dialog_distinct(entries: Seq<(u64, u64)>, dialog: u64)
    ensures
        forall|entry: (u64, u64)| #[trigger]
            without_dialog(entries, dialog).contains(entry) <==> entries.contains(entry) && entry.0
                != dialog,
        dialogs_distinct(entries) ==> dialogs_distinct(without_dialog(entries, dialog)),
{
    lemma_kept_distinct(entries, of_other_dialog(dialog));
}

/// Removing the dialogs of a parent keeps the others, which stay distinct.
pub proof fn lemma_without_parent_distinct(entries: Seq<(u64, u64)>, parent: u64)
    ensures
        forall|entry: (u64, u64)| #[trigger]
            without_parent(entries, parent).contains(entry) <==> entries.contains(entry) && entry.1
                != parent,
        dialogs_distinct(entries) ==> dialogs_distinct(without_parent(entries, parent)),
{
    lemma_kept_distinct(entries, of_other_parent(parent));
}

proof fn lemma_push_contains(entries: Seq<(u64, u64)>, last: (u64, u64))
    ensures
        forall|entry: (u64, u64)|
            #[trigger] entries.push(last).contains(entry) <==> entries.contains(entry) || entry
                == last,
{
    let pushed = entries.push(last);
    assert forall|entry: (u64, u64)| #[trigger] pushed.contains(entry) <==> entries.contains(entry)
        || entry == last by {
        if entries.contains(entry) {
            let i = choose|i: int| 0 <= i < entries.len() && entries[i] == entry;
            assert(pushed[i] == entry);
        }
        assert(pushed[entries.len() as int] == last);
        if pushed.contains(entry) {
            let i = choose|i: int| 0 <= i < pushed.len() && pushed[i] == entry;
            if i < entries.len() {
                assert(entries[i] == entry);
            }
        }
    }
}

/// An entry that is distinct from all of `entries` is so from some of them.
proof fn lemma_push_distinct(
    entries: Seq<(u64, u64)>,
    kept: Seq<(u64, u64)>,
    last: (u64, u64),
)
    requires
        dialogs_distinct(entries.push(last)),
        dialogs_distinct(kept),
        forall|entry: (u64, u64)| kept.contains(entry) ==> entries.contains(entry),
    ensures
        dialogs_distinct(kept.push(last)),
{
    let pushed = kept.push(last);
    assert forall|i: int, j: int| 0 <= i < j < pushed.len() implies (#[trigger] pushed[i]).0 != (
    #[trigger] pushed[j]).0 by {
        if j == kept.len() {
            assert(kept.contains(kept[i]));
            let k = choose|k: int| 0 <= k < entries.len() && entries[k] == kept[i];
            assert(entries.push(last)[k].0 != entries.push(last)[entries.len() as int].0);
        }
    }
}

/// The latest dialog of a parent is registered with it, and no later one is.
/// There is none only if no dialog is registered with the parent.
pub proof fn lemma_latest_dialog_found(entries: Seq<(u64, u64)>, parent: u64)
    ensures
        match latest_dialog(entries, parent) {
            Some(dialog) => exists|i: int|
                0 <= i < entries.len() && #[trigger] entries[i] == (dialog, parent) && (forall|
                    j: int,
                |
                    i < j < entries.len() ==> (#[trigger] entries[j]).1 != parent),
            None => forall|i: int| 0 <= i < entries.len() ==> (#[trigger] entries[i]).1 != parent,
        },
    decreases entries.len(),
{
    if entries.len() > 0 {
        let before = entries.drop_last();
        let last = entries.len() - 1;
        if entries.last().1 == parent {
            assert(entries[last] == (entries.last().0, parent));
        } else {
            lemma_latest_dialog_found(before, parent);
            match latest_dialog(before, parent) {
                Some(dialog) => {
                    let i = choose|i: int|
                        0 <= i < before.len() && #[trigger] before[i] == (dialog, parent) && (
                        forall|j: int|
                            i < j < before.len() ==> (#[trigger] before[j]).1 != parent);
                    assert(entries[i] == (dialog, parent));
                    assert forall|j: int| i < j < entries.len() implies (
                    #[trigger] entries[j]).1 != parent by {
                        if j < last {
                            assert(before[j] == entries[j]);
                        }
                    }
                },
                None => {
                    assert forall|i: int| 0 <= i < entries.len() implies (
                    #[trigger] entries[i]).1 != parent by {
                        if i < last {
                            assert(before[i] == entries[i]);
                        }
                    }
                },
            }
        }
    }
}

/// A dialog that is newly registered with a parent is its latest one.
pub proof fn lemma_new_dialog_is_latest(entries: Seq<(u64, u64)>, dialog: u64, parent: u64)
    requires
        !has_dialog(entries, dialog),
    ensures
        latest_dialog(with_dialog(entries, dialog, parent), parent) == Some(dialog),
{
}

/// A dialog that is registered with a parent, whether or not it was before,
/// leaves that parent with a dialog.
pub proof fn lemma_set_parent_has_dialog(entries: Seq<(u64, u64)>, dialog: u64, parent: u64)
    ensures
        latest_dialog(with_dialog(entries, dialog, parent), parent) is Some,
{
    let after = with_dialog(entries, dialog, parent);
    lemma_latest_dialog_found(after, parent);
    if has_dialog(entries, dialog) {
        let i = choose|i: int| 0 <= i < entries.len() && (#[trigger] entries[i]).0 == dialog;
        assert(after[i].1 == parent);
    }
}

/// A dialog has one parent: once it is registered with one, it is no dialog of
/// any other.
pub proof fn lemma_dialog_has_one_parent(
    entries: Seq<(u64, u64)>,
    dialog: u64,
    parent: u64,
    other: u64,
)
    requires
        other != parent,
    ensures
        !with_dialog(entries, dialog, parent).contains((dialog, other)),
        latest_dialog(with_dialog(entries, dialog, parent), other) != Some(dialog),
{
    let after = with_dialog(entries, dialog, parent);
    assert forall|i: int| 0 <= i < after.len() implies (#[trigger] after[i]) != (dialog, other) by {
        if !has_dialog(entries, dialog) && i < entries.len() {
            assert(entries[i].0 != dialog);
        }
    }
    lemma_latest_dialog_found(after, other);
}

/// Registering a dialog with a parent changes nothing for a parent that the
/// dialog was not and is not registered with.
pub proof fn lemma_set_keeps_other_parents(
    entries: Seq<(u64, u64)>,
    dialog: u64,
    parent: u64,
    other: u64,
)
    requires
        other != parent,
        !entries.contains((dialog, other)),
    ensures
        latest_dialog(with_dialog(entries, dialog, parent), other) == latest_dialog(entries, other),
{
    let after = with_dialog(entries, dialog, parent);
    if has_dialog(entries, dialog) {
        lemma_replaced_parent(entries, dialog, parent, other);
    } else {
        assert(after.drop_last() =~= entries);
    }
}

proof fn lemma_replaced_parent(
    entries: Seq<(u64, u64)>,
    dialog: u64,
    parent: u64,
    other: u64,
)
    requires
        other != parent,
        !entries.contains((dialog, other)),
    ensures
        latest_dialog(with_parent(entries, dialog, parent), other) == latest_dialog(entries, other),
    decreases entries.len(),
{
    if entries.len() > 0 {
        let before = entries.drop_last();
        assert forall|i: int| 0 <= i < before.len() implies before[i] != (dialog, other) by {
            assert(entries[i] == before[i]);
            assert(entries.contains(entries[i]));
        }
        assert(entries.contains(entries.last()));
        lemma_replaced_parent(before, dialog, parent, other);
        assert(with_parent(entries, dialog, parent).drop_last() =~= with_parent(
            before,
            dialog,
            parent,
        ));
    }
}

/// A dialog whose modal state is removed is no parent's latest one any more,
/// and a parent with another latest dialog keeps it.
pub proof fn lemma_removed_dialog_is_gone(entries: Seq<(u64, u64)>, dialog: u64, parent: u64)
    ensures
        !has_dialog(without_dialog(entries, dialog), dialog),
        latest_dialog(without_dialog(entries, dialog), parent) != Some(dialog),
        latest_dialog(entries, parent) != Some(dialog) ==> latest_dialog(
            without_dialog(entries, dialog),
            parent,
        ) == latest_dialog(entries, parent),
    decreases entries.len(),
{
    let after = without_dialog(entries, dialog);
    lemma_without_dialog_distinct(entries, dialog);
    assert(!has_dialog(after, dialog)) by {
        if has_dialog(after, dialog) {
            let i = choose|i: int| 0 <= i < after.len() && (#[trigger] after[i]).0 == dialog;
            assert(after.contains(after[i]));
        }
    }
    lemma_kept_unfold(entries, of_other_dialog(dialog));
    if entries.len() > 0 {
        let before = entries.drop_last();
        lemma_removed_dialog_is_gone(before, dialog, parent);
        if entries.last().0 != dialog {
            assert(after.drop_last() =~= without_dialog(before, dialog));
        }
    }
}

/// Removing a dialog undoes registering it anew.
pub proof fn lemma_remove_undoes_set(entries: Seq<(u64, u64)>, dialog: u64, parent: u64)
    requires
        !has_dialog(entries, dialog),
    ensures
        without_dialog(with_dialog(entries, dialog, parent), dialog) == entries,
{
    let after = with_dialog(entries, dialog, parent);
    lemma_kept_unfold(after, of_other_dialog(dialog));
    assert(after.drop_last() =~= entries);
    lemma_without_dialog_absent(entries, dialog);
}

/// Keeping all of the entries changes nothing.
proof fn lemma_all_kept(entries: Seq<(u64, u64)>, keep: spec_fn((u64, u64)) -> bool)
    requires
        forall|i: int| 0 <= i < entries.len() ==> keep(#[trigger] entries[i]),
    ensures
        entries.filter(keep) == entries,
    decreases entries.len(),
{
    lemma_kept_unfold(entries, keep);
    if entries.len() > 0 {
        let before = entries.drop_last();
        assert forall|i: int| 0 <= i < before.len() implies keep(#[trigger] before[i]) by {
            assert(entries[i] == before[i]);
        }
        lemma_all_kept(before, keep);
        assert(keep(entries[entries.len() - 1]));
        assert(before.push(entries.last()) =~= entries);
    }
}

/// Removing a dialog that is not registered changes nothing.
pub proof fn lemma_without_dialog_absent(entries: Seq<(u64, u64)>, dialog: u64)
    requires
        !has_dialog(entries, dialog),
    ensures
        without_dialog(entries, dialog) == entries,
{
    lemma_all_kept(entries, of_other_dialog(dialog));
}

/// A parent whose dialogs are removed has none, and the other parents keep
/// theirs.
pub proof fn lemma_removed_parent_has_no_dialog(
    entries: Seq<(u64, u64)>,
    parent: u64,
    other: u64,
)
    ensures
        latest_dialog(without_parent(entries, parent), parent) is None,
        other != parent ==> latest_dialog(without_parent(entries, parent), other) == latest_dialog(
            entries,
            other,
        ),
    decreases entries.len(),
{
    lemma_kept_unfold(entries, of_other_parent(parent));
    if entries.len() > 0 {
        let before = entries.drop_last();
        lemma_removed_parent_has_no_dialog(before, parent, other);
        if entries.last().1 != parent {
            assert(without_parent(entries, parent).drop_last() =~= without_parent(before, parent));
        }
    }
}

/// A surface that is neither registered nor the parent of a dialog has no
/// dialog and is no dialog of any parent.
pub proof fn lemma_unnamed_surface_has_no_part(
    entries: Seq<(u64, u64)>,
    surface: u64,
    parent: u64,
)
    requires
        !names_surface(entries, surface),
    ensures
        latest_dialog(entries, surface) is None,
        latest_dialog(entries, parent) != Some(surface),
        without_dialog(entries, surface) == entries,
        without_parent(entries, surface) == entries,
{
    lemma_latest_dialog_found(entries, surface);
    lemma_latest_dialog_found(entries, parent);
    lemma_all_kept(entries, of_other_dialog(surface));
    lemma_all_kept(entries, of_other_parent(surface));
}

/// Registering a dialog leaves all other entries at their places. A dialog that
/// is registered already keeps its own, and no entry is added. Any other is
/// added at the end.
pub proof fn lemma_set_keeps_places(entries: Seq<(u64, u64)>, dialog: u64, parent: u64, i: int)
    requires
        0 <= i < entries.len(),
    ensures
        ({
            let after = with_dialog(entries, dialog, parent);
            let known = exists|k: int| 0 <= k < entries.len() && (#[trigger] entries[k]).0 == dialog;
            &&& entries[i].0 != dialog ==> after[i] == entries[i]
            &&& entries[i].0 == dialog ==> after[i].0 == dialog && after[i].1 == parent
            &&& known ==> after.len() == entries.len()
            &&& !known ==> after.len() == entries.len() + 1 && after.last().0 == dialog
                && after.last().1 == parent
        }),
{
}

/// The first dialog that is registered is the only entry.
pub proof fn lemma_first_dialog(dialog: u64, parent: u64)
    ensures
        with_dialog(Seq::empty(), dialog, parent).len() == 1,
        with_dialog(Seq::empty(), dialog, parent)[0] == (dialog, parent),
{
}

proof fn lemma_kept_concat(
    first: Seq<(u64, u64)>,
    second: Seq<(u64, u64)>,
    keep: spec_fn((u64, u64)) -> bool,
)
    ensures
        (first + second).filter(keep) == first.filter(keep) + second.filter(keep),
    decreases second.len(),
{
    lemma_kept_unfold(second, keep);
    if second.len() == 0 {
        assert(first + second =~= first);
        assert(first.filter(keep) + second.filter(keep) =~= first.filter(keep));
    } else {
        lemma_kept_unfold(first + second, keep);
        lemma_kept_concat(first, second.drop_last(), keep);
        assert((first + second).drop_last() =~= first + second.drop_last());
        assert((first + second).last() == second.last());
    }
}

/// Removing keeps the order: what is left of two lists of entries is what is
/// left of the first, and then what is left of the second. Of a single entry
/// nothing is left if it is that of the dialog, or of the parent.
pub proof fn lemma_removing_keeps_order(
    first: Seq<(u64, u64)>,
    second: Seq<(u64, u64)>,
    entry: (u64, u64),
    surface: u64,
)
    ensures
        without_dialog(first + second, surface) == without_dialog(first, surface) + without_dialog(
            second,
            surface,
        ),
        without_parent(first + second, surface) == without_parent(first, surface) + without_parent(
            second,
            surface,
        ),
        entry.0 == surface ==> without_dialog(seq![entry], surface).len() == 0,
        entry.0 != surface ==> without_dialog(seq![entry], surface) == seq![entry],
        entry.1 == surface ==> without_parent(seq![entry], surface).len() == 0,
        entry.1 != surface ==> without_parent(seq![entry], surface) == seq![entry],
{
    lemma_kept_concat(first, second, of_other_dialog(surface));
    lemma_kept_concat(first, second, of_other_parent(surface));
    let single = seq![entry];
    assert(single.drop_last() =~= Seq::<(u64, u64)>::empty());
    lemma_kept_unfold(single, of_other_dialog(surface));
    lemma_kept_unfold(single, of_other_parent(surface));
    lemma_kept_unfold(single.drop_last(), of_other_dialog(surface));
    lemma_kept_unfold(single.drop_last(), of_other_parent(surface));
}

/// Later entries come first: the latest dialog of a parent in two lists is that
/// in the second, and that in the first if there is none.
pub proof fn lemma_later_dialogs_first(
    first: Seq<(u64, u64)>,
    second: Seq<(u64, u64)>,
    parent: u64,
)
    ensures
        latest_dialog(first + second, parent) == match latest_dialog(second, parent) {
            Some(dialog) => Some(dialog),
            None => latest_dialog(first, parent),
        },
    decreases second.len(),
{
    if second.len() == 0 {
        assert(first + second =~= first);
    } else {
        assert((first + second).drop_last() =~= first + second.drop_last());
        lemma_later_dialogs_first(first, second.drop_last(), parent);
    }
}

/// A surface is named exactly if it is registered, or if a dialog is registered
/// with it.
pub proof fn lemma_named_surfaces(entries: Seq<(u64, u64)>, surface: u64)
    ensures
        names_surface(entries, surface) <==> has_dialog(entries, surface) || latest_dialog(
            entries,
            surface,
        ) is Some,
{
    lemma_latest_dialog_found(entries, surface);
    if has_dialog(entries, surface) {
        let i = choose|i: int| 0 <= i < entries.len() && (#[trigger] entries[i]).0 == surface;
        assert(entries[i].0 == surface);
    }
}

} // verus!
