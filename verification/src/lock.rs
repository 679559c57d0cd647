//! The app lock: which windows are hidden behind the lock screen, and which come
//! back when it is unlocked.

use vstd::prelude::*;
use vstd::string::*;

use crate::accounts;
use crate::text;
use crate::text::{has_prefix, same_text};

verus! {

/// Runtime lock state. `unlocked == false` means that the app is locked.
#[derive(Debug)]
pub struct LockState {
    pub unlocked: bool,
    /// Labels of the windows hidden by `lock_now`, to show again on `unlock`.
    pub hidden: Vec<String>,
}

/// The view of a `LockState`.
pub struct LockModel {
    pub unlocked: bool,
    pub hidden: Seq<Seq<char>>,
}

impl View for LockState {
    type V = LockModel;

    open spec fn view(&self) -> LockModel {
        LockModel { unlocked: self.unlocked, hidden: text::views(self.hidden@) }
    }
}

impl LockState {
    /// The state at launch, with no window hidden.
    pub fn new(unlocked: bool) -> (state: Self)
        ensures
            state@ == (LockModel { unlocked, hidden: Seq::empty() }),
    {
        let hidden: Vec<String> = Vec::new();
        assert(text::views(hidden@) == Seq::<Seq<char>>::empty());
        LockState { unlocked, hidden }
    }
}

/// Whether a window is hidden behind the lock screen: every user-facing one,
/// never the lock window itself.
pub open spec fn spec_should_hide(label: Seq<char>) -> bool {
    label != "lock"@ && ("wa-"@.is_prefix_of(label) || label == "settings"@)
}

/// Whether a window is hidden behind the lock screen. The lock window itself
/// never is; everything user-facing, the account windows and the settings, is.
pub fn should_hide(label: &str) -> (hide: bool)
    ensures
        hide == spec_should_hide(label@),
{
    !same_text(label, "lock") && (has_prefix(label, "wa-") || same_text(label, "settings"))
}

/// Whether this is the label of the lock window.
pub fn is_lock_label(label: &str) -> (lock: bool)
    ensures
        lock == (label@ == "lock"@),
{
    same_text(label, "lock")
}

/// Whether the app is unlocked. Before setup there is no state, and nothing is
/// gated.
pub fn is_unlocked(state: Option<&LockState>) -> (unlocked: bool)
    ensures
        unlocked == match state {
            Some(s) => s@.unlocked,
            None => true,
        },
{
    match state {
        Some(s) => s.unlocked,
        None => true,
    }
}

/// The guard of sensitive commands.
pub fn require_unlocked(unlocked: bool) -> (pass: Result<(), String>)
    ensures
        match pass {
            Ok(_) => unlocked,
            Err(e) => !unlocked && e@ == "locked"@,
        },
{
    if unlocked {
        Ok(())
    } else {
        Err("locked".to_owned())
    }
}

// ---------------------------------------------------------------------------
// Locking and unlocking.
// ---------------------------------------------------------------------------

/// An open window.
#[derive(Debug)]
pub struct OpenWindow {
    pub label: String,
    pub visible: bool,
}

/// The labels and the visibility of a list of windows.
pub open spec fn window_views(windows: Seq<OpenWindow>) -> Seq<(Seq<char>, bool)> {
    windows.map_values(|w: OpenWindow| (w.label@, w.visible))
}

/// The labels of the visible windows that belong behind the lock screen, in
/// order.
pub open spec fn labels_to_hide(windows: Seq<(Seq<char>, bool)>) -> Seq<Seq<char>>
    decreases windows.len(),
{
    if windows.len() == 0 {
        Seq::empty()
    } else if spec_should_hide(windows.last().0) && windows.last().1 {
        labels_to_hide(windows.drop_last()).push(windows.last().0)
    } else {
        labels_to_hide(windows.drop_last())
    }
}

/// What locking does: the state after it and the labels of the windows to hide.
/// An app that is locked stays as it is.
pub open spec fn spec_lock(s: LockModel, windows: Seq<(Seq<char>, bool)>) -> (
    LockModel,
    Seq<Seq<char>>,
) {
    if s.unlocked {
        let labels = labels_to_hide(windows);
        (LockModel { unlocked: false, hidden: labels }, labels)
    } else {
        (s, Seq::empty())
    }
}

/// The labels of the visible windows that belong behind the lock screen.
fn hidden_labels(windows: &Vec<OpenWindow>) -> (labels: Vec<String>)
    ensures
        text::views(labels@) == labels_to_hide(window_views(windows@)),
{
    let ghost all = window_views(windows@);
    let mut labels: Vec<String> = Vec::new();
    let mut i: usize = 0;
    assert(text::views(labels@) == labels_to_hide(all.take(0)));
    while i < windows.len()
        invariant
            i <= windows@.len(),
            all == window_views(windows@),
            text::views(labels@) == labels_to_hide(all.take(i as int)),
        decreases windows@.len() - i,
    {
        assert(all.take(i + 1).drop_last() == all.take(i as int));
        assert(all.take(i + 1).last() == (windows@[i as int].label@, windows@[i as int].visible));
        if should_hide(&windows[i].label) && windows[i].visible {
            let ghost before = labels@;
            let label: String = windows[i].label.clone();
            labels.push(label);
            assert(text::views(labels@) == text::views(before).push(label@));
        }
        i += 1;
    }
    assert(all.take(i as int) == all);
    labels
}

/// Copies of a list of strings.
fn copies(strings: &Vec<String>) -> (c: Vec<String>)
    ensures
        text::views(c@) == text::views(strings@),
{
    let mut c: Vec<String> = Vec::new();
    let mut i: usize = 0;
    while i < strings.len()
        invariant
            i <= strings@.len(),
            c@.len() == i,
            forall|j: int| 0 <= j < i ==> (#[trigger] c@[j])@ == strings@[j]@,
        decreases strings@.len() - i,
    {
        c.push(strings[i].clone());
        i += 1;
    }
    assert(text::views(c@) == text::views(strings@));
    c
}

/// Marks the app as locked, and says whether it was unlocked before. Only then are
/// windows to be hidden.
pub fn mark_locked(state: &mut LockState) -> (was_unlocked: bool)
    ensures
        was_unlocked == old(state)@.unlocked,
        final(state)@ == (LockModel { unlocked: false, ..old(state)@ }),
{
    let was_unlocked: bool = state.unlocked;
    state.unlocked = false;
    was_unlocked
}

/// Records the visible user-facing windows as hidden and returns their labels.
pub fn record_hidden(state: &mut LockState, windows: &Vec<OpenWindow>) -> (labels: Vec<String>)
    ensures
        text::views(labels@) == labels_to_hide(window_views(windows@)),
        final(state)@ == (LockModel { hidden: text::views(labels@), ..old(state)@ }),
{
    let labels: Vec<String> = hidden_labels(windows);
    state.hidden = copies(&labels);
    labels
}

/// Locks the app and returns the labels of the windows to hide: those of the
/// visible user-facing ones, which are recorded too. An app that is locked
/// already keeps its record, and nothing more is hidden.
pub fn lock_now(state: &mut LockState, windows: &Vec<OpenWindow>) -> (labels: Vec<String>)
    ensures
        (final(state)@, text::views(labels@)) == spec_lock(old(state)@, window_views(windows@)),
{
    if mark_locked(state) {
        record_hidden(state, windows)
    } else {
        let labels: Vec<String> = Vec::new();
        assert(text::views(labels@) == Seq::<Seq<char>>::empty());
        labels
    }
}

/// The windows to show after unlocking.
#[derive(Debug, PartialEq, Eq)]
pub enum Restore {
    /// Nothing was hidden: the active account.
    ActiveAccount,
    /// The windows that were visible when the app was locked.
    Windows(Vec<String>),
}

/// The view of a `Restore`.
pub enum RestoreModel {
    ActiveAccount,
    Windows(Seq<Seq<char>>),
}

impl View for Restore {
    type V = RestoreModel;

    open spec fn view(&self) -> RestoreModel {
        match *self {
            Restore::ActiveAccount => RestoreModel::ActiveAccount,
            Restore::Windows(labels) => RestoreModel::Windows(text::views(labels@)),
        }
    }
}

/// What unlocking does: the state after it and the windows to show.
pub open spec fn spec_unlock(s: LockModel) -> (LockModel, RestoreModel) {
    (
        LockModel { unlocked: true, hidden: Seq::empty() },
        if s.hidden.len() == 0 {
            RestoreModel::ActiveAccount
        } else {
            RestoreModel::Windows(s.hidden)
        },
    )
}

/// Unlocks the app and returns the windows to show: those that were visible when
/// it was locked, or the active account where there are none.
pub fn unlock(state: &mut LockState) -> (restore: Restore)
    ensures
        (final(state)@, restore@) == spec_unlock(old(state)@),
{
    state.unlocked = true;
    let mut hidden: Vec<String> = Vec::new();
    std::mem::swap(&mut hidden, &mut state.hidden);
    assert(text::views(state.hidden@) == Seq::<Seq<char>>::empty());
    if hidden.len() == 0 {
        Restore::ActiveAccount
    } else {
        Restore::Windows(hidden)
    }
}

// ---------------------------------------------------------------------------
// The lock window.
// ---------------------------------------------------------------------------

/// What to do about the lock window.
#[derive(Debug, Clone, Copy, PartialEq, Eq, Structural)]
pub enum LockWindowStep {
    /// The app is unlocked: nothing.
    Leave,
    /// The window is there: show and focus it.
    Show,
    /// Build the window.
    Build,
}

/// What to do about the lock window when it is to be shown.
pub fn show_lock_window(unlocked: bool, is_open: bool) -> (step: LockWindowStep)
    ensures
        step == if unlocked {
            LockWindowStep::Leave
        } else if is_open {
            LockWindowStep::Show
        } else {
            LockWindowStep::Build
        },
{
    if unlocked {
        LockWindowStep::Leave
    } else if is_open {
        LockWindowStep::Show
    } else {
        LockWindowStep::Build
    }
}

/// What to do with a lock window that was just built.
#[derive(Debug, Clone, Copy, PartialEq, Eq, Structural)]
pub enum BuiltStep {
    /// It could not be built: nothing.
    Leave,
    /// The app was unlocked meanwhile: destroy the stale window.
    Destroy,
    /// Keep it, and refuse to close it while the app is locked.
    Guard,
}

/// What to do after the lock window was built, or could not be.
pub fn lock_window_built(built: bool, unlocked: bool) -> (step: BuiltStep)
    ensures
        step == if !built {
            BuiltStep::Leave
        } else if unlocked {
            BuiltStep::Destroy
        } else {
            BuiltStep::Guard
        },
{
    if !built {
        BuiltStep::Leave
    } else if unlocked {
        BuiltStep::Destroy
    } else {
        BuiltStep::Guard
    }
}

/// Whether a request to close the lock window is refused.
pub fn refuses_close(unlocked: bool) -> (refuse: bool)
    ensures
        refuse == !unlocked,
{
    !unlocked
}

// ---------------------------------------------------------------------------
// Laws.
// ---------------------------------------------------------------------------

/// Whether this is the label of a visible window that belongs behind the lock
/// screen.
pub open spec fn is_to_hide(windows: Seq<(Seq<char>, bool)>, label: Seq<char>) -> bool {
    spec_should_hide(label) && windows.contains((label, true))
}

/// The labels of a list of windows.
pub open spec fn labels_of(windows: Seq<(Seq<char>, bool)>) -> Seq<Seq<char>> {
    windows.map_values(|w: (Seq<char>, bool)| w.0)
}

proof fn lemma_labels_to_hide(windows: Seq<(Seq<char>, bool)>)
    ensures
        forall|label: Seq<char>| #[trigger]
            labels_to_hide(windows).contains(label) <==> is_to_hide(windows, label),
        labels_of(windows).no_duplicates() ==> labels_to_hide(windows).no_duplicates(),
    decreases windows.len(),
{
    if windows.len() > 0 {
        let init = windows.drop_last();
        let last = windows.last();
        let before = labels_to_hide(init);
        let labels = labels_to_hide(windows);
        lemma_labels_to_hide(init);
        assert(windows == init.push(last));
        assert forall|label: Seq<char>| #[trigger] labels.contains(label) <==> is_to_hide(
            windows,
            label,
        ) by {
            if labels.contains(label) {
                let k = choose|k: int| 0 <= k < labels.len() && labels[k] == label;
                if k < before.len() {
                    assert(before[k] == label);
                    assert(before.contains(label));
                    let i = choose|i: int| 0 <= i < init.len() && init[i] == (label, true);
                    assert(windows[i] == (label, true));
                } else {
                    assert(windows[windows.len() - 1] == (label, true));
                }
            }
            if is_to_hide(windows, label) {
                let i = choose|i: int| 0 <= i < windows.len() && windows[i] == (label, true);
                if i < init.len() {
                    assert(init[i] == (label, true));
                    assert(before.contains(label));
                    let k = choose|k: int| 0 <= k < before.len() && before[k] == label;
                    assert(labels[k] == label);
                } else {
                    assert(labels[labels.len() - 1] == label);
                }
            }
        }
        if labels_of(windows).no_duplicates() {
            let names = labels_of(windows);
            assert(labels_of(init) == names.drop_last());
            if before.contains(last.0) {
                let i = choose|i: int| 0 <= i < init.len() && init[i] == (last.0, true);
                assert(names[i] == names[windows.len() - 1]);
            }
        }
    }
}

/// Locking hides exactly the visible user-facing windows, each once where no label
/// occurs twice, and never the lock window.
pub proof fn law_lock_hides_user_windows(s: LockModel, windows: Seq<(Seq<char>, bool)>)
    requires
        s.unlocked,
    ensures
        !spec_lock(s, windows).0.unlocked,
        forall|label: Seq<char>| #[trigger]
            spec_lock(s, windows).1.contains(label) <==> is_to_hide(windows, label),
        labels_of(windows).no_duplicates() ==> spec_lock(s, windows).1.no_duplicates(),
        !spec_lock(s, windows).1.contains("lock"@),
{
    lemma_labels_to_hide(windows);
}

/// Locking twice is locking once: the second time hides nothing and keeps the
/// record of the first.
pub proof fn law_lock_is_idempotent(
    s: LockModel,
    windows: Seq<(Seq<char>, bool)>,
    later: Seq<(Seq<char>, bool)>,
)
    ensures
        spec_lock(spec_lock(s, windows).0, later) == (
            spec_lock(s, windows).0,
            Seq::<Seq<char>>::empty(),
        ),
{
}

/// Unlocking shows exactly the windows that locking hid, or the active account
/// where it hid none, and leaves no record.
pub proof fn law_unlock_restores_what_lock_hid(s: LockModel, windows: Seq<(Seq<char>, bool)>)
    requires
        s.unlocked,
    ensures
        spec_unlock(spec_lock(s, windows).0) == (
            LockModel { unlocked: true, hidden: Seq::empty() },
            if spec_lock(s, windows).1.len() == 0 {
                RestoreModel::ActiveAccount
            } else {
                RestoreModel::Windows(spec_lock(s, windows).1)
            },
        ),
{
}

/// Every account window is hidden behind the lock screen.
pub proof fn law_account_windows_are_hidden(id: Seq<char>)
    ensures
        spec_should_hide(accounts::spec_window_label(id)),
{
    let label = accounts::spec_window_label(id);
    assert("wa-"@.is_prefix_of(label));
    reveal_strlit("wa-");
    reveal_strlit("lock");
    assert(label[0] == 'w');
    assert("lock"@[0] == 'l');
}

/// Behind the lock screen belong the windows whose label starts with `wa-`, and the
/// one labelled `settings`; no other.
pub proof fn law_windows_behind_the_lock_screen(label: Seq<char>)
    ensures
        spec_should_hide(label) <==> (label.len() >= 3 && label[0] == 'w' && label[1] == 'a'
            && label[2] == '-') || label == "settings"@,
{
    reveal_strlit("wa-");
    reveal_strlit("lock");
    reveal_strlit("settings");
    assert("lock"@[0] == 'l' && "settings"@[0] == 's');
    if label.len() >= 3 && label[0] == 'w' && label[1] == 'a' && label[2] == '-' {
        assert("wa-"@.is_prefix_of(label));
    } else if "wa-"@.is_prefix_of(label) {
        assert(label[0] == "wa-"@[0] && label[1] == "wa-"@[1] && label[2] == "wa-"@[2]);
    }
}

/// One more window adds its label to those that are hidden, at the end, where it is
/// visible and is an account window or the settings window; otherwise it changes
/// nothing. No windows, no labels.
pub proof fn law_hidden_labels_follow_the_windows(
    windows: Seq<(Seq<char>, bool)>,
    label: Seq<char>,
    visible: bool,
)
    ensures
        labels_to_hide(Seq::empty()).len() == 0,
        visible && ((label.len() >= 3 && label[0] == 'w' && label[1] == 'a' && label[2] == '-')
            || label == "settings"@) ==> labels_to_hide(windows.push((label, visible)))
            == labels_to_hide(windows).push(label),
        !(visible && ((label.len() >= 3 && label[0] == 'w' && label[1] == 'a' && label[2] == '-')
            || label == "settings"@)) ==> labels_to_hide(windows.push((label, visible)))
            == labels_to_hide(windows),
{
    law_windows_behind_the_lock_screen(label);
    assert(windows.push((label, visible)).drop_last() == windows);
    assert(windows.push((label, visible)).last() == (label, visible));
}

/// What locking hides is what it records. An app that is locked stays as it is, and
/// nothing is hidden.
pub proof fn law_locking_records_what_it_hides(s: LockModel, windows: Seq<(Seq<char>, bool)>)
    ensures
        ({
            let (after, labels) = spec_lock(s, windows);
            &&& !after.unlocked
            &&& s.unlocked ==> after.hidden == labels && labels == labels_to_hide(windows)
            &&& !s.unlocked ==> after.hidden == s.hidden && labels.len() == 0
        }),
{
}

/// Unlocking opens the app and empties the record, whatever state it was in. It
/// shows the recorded windows, all and in order, or the active account where none
/// is recorded.
pub proof fn law_unlocking(s: LockModel)
    ensures
        ({
            let (after, restore) = spec_unlock(s);
            &&& after.unlocked
            &&& after.hidden.len() == 0
            &&& s.hidden.len() > 0 ==> restore == RestoreModel::Windows(s.hidden)
            &&& s.hidden.len() == 0 ==> restore is ActiveAccount
        }),
{
}

} // verus!
