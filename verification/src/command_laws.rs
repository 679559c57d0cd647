//! What holds of the commands together: who is refused, what a refusal changes,
//! and what an answer rests on.

use vstd::prelude::*;

use crate::account_laws;
use crate::accounts;
use crate::accounts::{AccountModel, FileModel};
use crate::commands;
use crate::commands::{
    ConfigModel, ConfigStepModel, ListedModel, StatusModel, UnlockStepModel,
};
use crate::lock;
use crate::notify;
use crate::notify::LogModel;
use crate::text;
use crate::text_laws;

verus! {

// ---------------------------------------------------------------------------
// Windows.
// ---------------------------------------------------------------------------

/// The remote windows are the account windows: those whose label gives an
/// account id.
pub proof fn law_remote_windows_are_account_windows(label: Seq<char>, id: Seq<char>)
    ensures
        commands::spec_is_remote(label) <==> accounts::spec_id_from_label(label) is Some,
        commands::spec_is_remote(accounts::spec_window_label(id)),
{
    account_laws::law_label_gives_back_id(id);
}

/// Neither the lock window nor the settings window is remote.
pub proof fn law_local_windows_are_not_remote()
    ensures
        !commands::spec_is_remote("lock"@),
        !commands::spec_is_remote("settings"@),
{
    reveal_strlit("wa-");
    reveal_strlit("lock");
    reveal_strlit("settings");
    assert("wa-"@[0] == 'w');
    assert("lock"@[0] == 'l');
    assert("settings"@[0] == 's');
}

/// A remote window is forbidden every command on the accounts and on the
/// app-lock configuration, and every way to unlock, whatever else it says.
pub proof fn law_remote_windows_are_forbidden(
    label: Seq<char>,
    unlocked: bool,
    isolation: Option<Seq<char>>,
    f: FileModel,
    id: Seq<char>,
    name: Seq<char>,
    new: Seq<char>,
    confirm: Seq<char>,
    c: ConfigModel,
    defaults: ConfigModel,
    active: bool,
    available: bool,
    verified: Option<bool>,
    hashed: Option<Result<Seq<char>, Seq<char>>>,
    tested: Option<Result<bool, Seq<char>>>,
    on_launch: bool,
    on_hide: bool,
    enabled: bool,
    idle_secs: u32,
)
    requires
        commands::spec_is_remote(label),
    ensures
        commands::refusal(label, unlocked) == Some("forbidden"@),
        commands::add_refusal(label, unlocked, isolation, name) == Some("forbidden"@),
        commands::spec_remove_account(label, unlocked, f, id) == Err::<
            (FileModel, AccountModel),
            _,
        >("forbidden"@),
        commands::spec_rename_account(label, unlocked, f, id, name) == Err::<FileModel, _>(
            "forbidden"@,
        ),
        commands::spec_set_password(label, unlocked, c, active, new, confirm, hashed)
            == ConfigStepModel::Reject("forbidden"@),
        commands::spec_change_password(label, unlocked, c, verified, new, confirm, hashed)
            == ConfigStepModel::Reject("forbidden"@),
        commands::spec_disable(label, unlocked, c, verified, defaults) == ConfigStepModel::Reject(
            "forbidden"@,
        ),
        commands::spec_set_options(label, unlocked, c, on_launch, on_hide, idle_secs)
            == ConfigStepModel::Reject("forbidden"@),
        commands::spec_set_biometric(label, unlocked, c, active, available, enabled, tested)
            == ConfigStepModel::Reject("forbidden"@),
        commands::spec_unlock_password(label, c.password_phc, verified) == UnlockStepModel::Reject(
            "forbidden"@,
        ),
        commands::spec_unlock_biometric(label, c.biometric_enabled, tested)
            == UnlockStepModel::Reject("forbidden"@),
{
    law_local_windows_are_not_remote();
}

/// While the app is locked, a local window is refused every command on the
/// accounts and on the app-lock configuration.
pub proof fn law_locked_app_refuses(
    label: Seq<char>,
    isolation: Option<Seq<char>>,
    f: FileModel,
    id: Seq<char>,
    name: Seq<char>,
    new: Seq<char>,
    confirm: Seq<char>,
    c: ConfigModel,
    defaults: ConfigModel,
    active: bool,
    available: bool,
    verified: Option<bool>,
    hashed: Option<Result<Seq<char>, Seq<char>>>,
    tested: Option<Result<bool, Seq<char>>>,
    on_launch: bool,
    on_hide: bool,
    enabled: bool,
    idle_secs: u32,
)
    requires
        !commands::spec_is_remote(label),
    ensures
        commands::refusal(label, false) == Some("locked"@),
        commands::add_refusal(label, false, isolation, name) == Some("locked"@),
        commands::spec_remove_account(label, false, f, id) == Err::<(FileModel, AccountModel), _>(
            "locked"@,
        ),
        commands::spec_rename_account(label, false, f, id, name) == Err::<FileModel, _>("locked"@),
        commands::spec_set_password(label, false, c, active, new, confirm, hashed)
            == ConfigStepModel::Reject("locked"@),
        commands::spec_change_password(label, false, c, verified, new, confirm, hashed)
            == ConfigStepModel::Reject("locked"@),
        commands::spec_disable(label, false, c, verified, defaults) == ConfigStepModel::Reject(
            "locked"@,
        ),
        commands::spec_set_options(label, false, c, on_launch, on_hide, idle_secs)
            == ConfigStepModel::Reject("locked"@),
        commands::spec_set_biometric(label, false, c, active, available, enabled, tested)
            == ConfigStepModel::Reject("locked"@),
{
}

// ---------------------------------------------------------------------------
// Unread counts.
// ---------------------------------------------------------------------------

/// A toast is considered exactly when the count rises; otherwise the toast log
/// stays as it was.
pub proof fn law_toast_only_on_a_rise(
    m: Map<Seq<char>, u32>,
    log: LogModel,
    f: FileModel,
    label: Seq<char>,
    id: Seq<char>,
    count: u32,
    now: u64,
    unlocked: bool,
    notifications: bool,
    watched: bool,
)
    ensures
        ({
            let (after, update) = commands::spec_set_unread(
                m,
                log,
                f,
                label,
                id,
                count,
                now,
                unlocked,
                notifications,
                watched,
            );
            &&& update.toast is Some <==> count > commands::unread_of(m, id)
            &&& update.toast is None ==> after == log
        }),
{
}

/// A count that is reported twice in a row leads to no second toast.
pub proof fn law_repeated_count_is_silent(
    m: Map<Seq<char>, u32>,
    log: LogModel,
    f: FileModel,
    label: Seq<char>,
    id: Seq<char>,
    count: u32,
    now: u64,
    unlocked: bool,
    notifications: bool,
    watched: bool,
)
    ensures
        commands::spec_set_unread(
            m.insert(id, count),
            log,
            f,
            label,
            id,
            count,
            now,
            unlocked,
            notifications,
            watched,
        ).1.toast is None,
{
}

/// Dropping the count of a removed account takes it, and nothing else, out of the
/// sum.
pub proof fn law_forgotten_count_leaves_the_sum(m: Map<Seq<char>, u32>, id: Seq<char>)
    requires
        m.dom().finite(),
    ensures
        accounts::map_total(m.remove(id)) + commands::unread_of(m, id) == accounts::map_total(m),
        forall|k: Seq<char>|
            k != id ==> #[trigger] commands::unread_of(m.remove(id), k) == commands::unread_of(m, k),
        commands::unread_of(m.remove(id), id) == 0,
{
    if m.contains_key(id) {
        accounts::lemma_map_total_remove(m, id);
    } else {
        assert(m.remove(id) =~= m);
    }
}

// ---------------------------------------------------------------------------
// The list of accounts.
// ---------------------------------------------------------------------------

/// Whether a list is in order.
pub open spec fn in_order(views: Seq<ListedModel>) -> bool {
    forall|i: int, j: int| 0 <= i <= j < views.len() ==> views[i].order <= views[j].order
}

/// The members of a list that have one order.
pub open spec fn of_order(views: Seq<ListedModel>, order: nat) -> Seq<ListedModel> {
    views.filter(|v: ListedModel| v.order == order)
}

/// The accounts as they are listed, in the sequence of the file.
pub open spec fn listed_in_file_order(
    accts: Seq<AccountModel>,
    unread: Map<Seq<char>, u32>,
    open: Seq<Seq<char>>,
) -> Seq<ListedModel> {
    accts.map_values(|a: AccountModel| commands::listed(a, unread, open))
}

proof fn lemma_placed(views: Seq<ListedModel>, v: ListedModel, order: nat)
    requires
        in_order(views),
    ensures
        in_order(commands::placed(views, v)),
        commands::placed(views, v).len() == views.len() + 1,
        commands::placed(views, v).to_multiset() == views.to_multiset().insert(v),
        of_order(commands::placed(views, v), order) == of_order(views.push(v), order),
        forall|i: int|
            0 <= i < commands::placed(views, v).len() ==> (#[trigger] commands::placed(
                views,
                v,
            )[i]).order <= v.order || (views.len() > 0 && commands::placed(views, v)[i].order
                <= views.last().order),
    decreases views.len(),
{
    let p = |x: ListedModel| x.order == order;
    broadcast use vstd::seq_lib::group_to_multiset_ensures;

    reveal(Seq::filter);
    if views.len() == 0 || views.last().order <= v.order {
        let w = views.push(v);
        assert forall|i: int, j: int| 0 <= i <= j < w.len() implies w[i].order <= w[j].order by {
            if j == views.len() && i < j {
                assert(views[i].order <= views[views.len() - 1].order);
            }
        }
    } else {
        let init = views.drop_last();
        let last = views.last();
        lemma_placed(init, v, order);
        let q = commands::placed(init, v);
        let w = q.push(last);
        assert forall|i: int, j: int| 0 <= i <= j < w.len() implies w[i].order <= w[j].order by {
            if j == q.len() && i < j {
                if init.len() > 0 {
                    assert(views[views.len() - 2].order <= views[views.len() - 1].order);
                }
                assert(w[i] == q[i]);
            }
        }
        assert(init.push(last) == views);
        assert(w.drop_last() == q);
        assert(views.push(v).drop_last() == views);
        assert(init.push(v).drop_last() == init);
        assert(of_order(w, order) == if p(last) {
            of_order(q, order).push(last)
        } else {
            of_order(q, order)
        });
        assert(of_order(views, order) == if p(last) {
            of_order(init, order).push(last)
        } else {
            of_order(init, order)
        });
    }
}

/// The accounts are listed in order. Each is listed once, and those of one order
/// stand as in the file.
pub proof fn law_accounts_are_listed_in_order(
    accts: Seq<AccountModel>,
    unread: Map<Seq<char>, u32>,
    open: Seq<Seq<char>>,
    order: nat,
)
    ensures
        ({
            let views = commands::spec_account_views(accts, unread, open);
            let file = listed_in_file_order(accts, unread, open);
            &&& in_order(views)
            &&& views.to_multiset() == file.to_multiset()
            &&& of_order(views, order) == of_order(file, order)
        }),
    decreases accts.len(),
{
    let file = listed_in_file_order(accts, unread, open);
    reveal(Seq::filter);
    if accts.len() > 0 {
        broadcast use vstd::seq_lib::group_to_multiset_ensures;

        let init = accts.drop_last();
        let v = commands::listed(accts.last(), unread, open);
        let before = commands::spec_account_views(init, unread, open);
        law_accounts_are_listed_in_order(init, unread, open, order);
        lemma_placed(before, v, order);
        let file_before = listed_in_file_order(init, unread, open);
        assert(file == file_before.push(v));
        assert(file.drop_last() == file_before);
        assert(before.push(v).drop_last() == before);
    } else {
        assert(file == Seq::<ListedModel>::empty());
    }
}

proof fn lemma_placed_last(views: Seq<ListedModel>, v: ListedModel)
    requires
        forall|i: int| 0 <= i < views.len() ==> (#[trigger] views[i]).order < v.order,
    ensures
        commands::placed(views, v) == views.push(v),
{
    if views.len() > 0 {
        assert(views[views.len() - 1].order < v.order);
    }
}

/// A new account is listed after the others, which stay where they were.
pub proof fn law_new_account_is_listed_last(
    f: FileModel,
    name: Seq<char>,
    uuid: Seq<u8>,
    unread: Map<Seq<char>, u32>,
    open: Seq<Seq<char>>,
)
    ensures
        commands::spec_account_views(accounts::file_added(f, name, uuid).accounts, unread, open)
            == commands::spec_account_views(f.accounts, unread, open).push(
            commands::listed(accounts::new_account(f, name, uuid), unread, open),
        ),
{
    let a = accounts::new_account(f, name, uuid);
    let views = commands::spec_account_views(f.accounts, unread, open);
    assert(f.accounts.push(a).drop_last() == f.accounts);
    accounts::lemma_next_order(f.accounts);
    assert forall|i: int| 0 <= i < views.len() implies (#[trigger] views[i]).order < a.order by {
        let file = listed_in_file_order(f.accounts, unread, open);
        law_accounts_are_listed_in_order(f.accounts, unread, open, 0);
        broadcast use vstd::seq_lib::group_to_multiset_ensures;

        assert(views.contains(views[i]));
        assert(views.to_multiset().count(views[i]) > 0);
        assert(file.to_multiset().count(views[i]) > 0);
        assert(file.contains(views[i]));
        let j = choose|j: int| 0 <= j < file.len() && file[j] == views[i];
        assert(f.accounts[j].order < a.order);
    }
    lemma_placed_last(views, commands::listed(a, unread, open));
}

/// What adding an account answers is how the account is listed once its window is
/// open and as long as it has reported no unread messages.
pub proof fn law_answer_of_adding_is_the_listing(
    a: AccountModel,
    unread: Map<Seq<char>, u32>,
    open: Seq<Seq<char>>,
)
    requires
        !unread.contains_key(a.id),
        open.contains(accounts::spec_window_label(a.id)),
    ensures
        commands::listed(a, unread, open) == commands::fresh_listing(a),
{
}

// ---------------------------------------------------------------------------
// Account names.
// ---------------------------------------------------------------------------

/// An account that was added or renamed has a name that is not empty and has no
/// white space around it.
pub proof fn law_names_are_trimmed(
    label: Seq<char>,
    unlocked: bool,
    isolation: Option<Seq<char>>,
    f: FileModel,
    id: Seq<char>,
    name: Seq<char>,
    uuid: Seq<u8>,
)
    ensures
        commands::add_refusal(label, unlocked, isolation, name) is None ==> {
            let a = accounts::new_account(f, text::trimmed(name), uuid);
            a.name.len() > 0 && text::trimmed(a.name) == a.name
        },
        commands::spec_rename_account(label, unlocked, f, id, name) matches Ok(g)
            ==> accounts::spec_find(g.accounts, id) matches Some(a) && a.name.len() > 0
            && text::trimmed(a.name) == a.name && a.name == text::trimmed(name),
{
    text::law_trimming_is_idempotent(name);
    if commands::spec_rename_account(label, unlocked, f, id, name) is Ok {
        account_laws::law_rename_changes_one_name(f, id, text::trimmed(name), id.push('a'));
    }
}

// ---------------------------------------------------------------------------
// The app-lock configuration.
// ---------------------------------------------------------------------------

/// A first password is stored only where the lock is not active and the password
/// is one that may be set. What is stored is its hash; the lock is then enabled
/// and everything else stays.
pub proof fn law_first_password(
    label: Seq<char>,
    unlocked: bool,
    c: ConfigModel,
    active: bool,
    new: Seq<char>,
    confirm: Seq<char>,
    hashed: Option<Result<Seq<char>, Seq<char>>>,
)
    ensures
        commands::spec_set_password(label, unlocked, c, active, new, confirm, hashed) matches
            ConfigStepModel::Store(d) ==> {
            &&& !active
            &&& new == confirm
            &&& new.len() >= 4
            &&& hashed matches Some(Ok(phc)) && d == (ConfigModel {
                enabled: true,
                password_phc: Some(phc),
                ..c
            })
        },
{
}

/// A password is changed only where the current one was verified and the new one
/// may be set. Only the hash changes.
pub proof fn law_changed_password(
    label: Seq<char>,
    unlocked: bool,
    c: ConfigModel,
    verified: Option<bool>,
    new: Seq<char>,
    confirm: Seq<char>,
    hashed: Option<Result<Seq<char>, Seq<char>>>,
)
    ensures
        commands::spec_change_password(label, unlocked, c, verified, new, confirm, hashed) matches
            ConfigStepModel::Store(d) ==> {
            &&& c.password_phc is Some
            &&& verified == Some(true)
            &&& new == confirm
            &&& new.len() >= 4
            &&& hashed matches Some(Ok(phc)) && d == (ConfigModel { password_phc: Some(phc), ..c })
        },
{
}

/// The lock is disabled only where the current password was verified.
pub proof fn law_disabling_needs_the_password(
    label: Seq<char>,
    unlocked: bool,
    c: ConfigModel,
    verified: Option<bool>,
    defaults: ConfigModel,
)
    ensures
        commands::spec_disable(label, unlocked, c, verified, defaults) matches
            ConfigStepModel::Store(d) ==> d == defaults && verified == Some(true)
            && c.password_phc is Some,
{
}

/// The options of the lock touch neither the password nor what enables the lock
/// and biometric unlock.
pub proof fn law_options_keep_the_password(
    label: Seq<char>,
    unlocked: bool,
    c: ConfigModel,
    on_launch: bool,
    on_hide: bool,
    idle_secs: u32,
)
    ensures
        commands::spec_set_options(label, unlocked, c, on_launch, on_hide, idle_secs) matches
            ConfigStepModel::Store(d) ==> d.enabled == c.enabled && d.password_phc
            == c.password_phc && d.biometric_enabled == c.biometric_enabled,
{
}

/// Biometric unlock is enabled only where the lock is active, the platform offers
/// it and a test succeeded; disabling it takes none of that.
pub proof fn law_biometric_unlock_is_tested(
    label: Seq<char>,
    unlocked: bool,
    c: ConfigModel,
    active: bool,
    available: bool,
    enabled: bool,
    tested: Option<Result<bool, Seq<char>>>,
)
    ensures
        commands::spec_set_biometric(label, unlocked, c, active, available, enabled, tested)
            matches ConfigStepModel::Store(d) ==> {
            &&& d == (ConfigModel { biometric_enabled: enabled, ..c })
            &&& enabled ==> active && available && tested == Some(Ok::<bool, Seq<char>>(true))
        },
        commands::refusal(label, unlocked) is None ==> commands::spec_set_biometric(
            label,
            unlocked,
            c,
            active,
            available,
            false,
            tested,
        ) == ConfigStepModel::Store(ConfigModel { biometric_enabled: false, ..c }),
{
}

// ---------------------------------------------------------------------------
// Unlocking.
// ---------------------------------------------------------------------------

/// Only the lock window unlocks the app: with a verified password, where one is
/// set, or with a successful biometric test, where that is enabled.
pub proof fn law_only_the_lock_window_unlocks(
    label: Seq<char>,
    c: ConfigModel,
    verified: Option<bool>,
    tested: Option<Result<bool, Seq<char>>>,
)
    ensures
        commands::spec_unlock_password(label, c.password_phc, verified) is Unlock ==> label
            == "lock"@ && (c.password_phc is Some ==> verified == Some(true)),
        commands::spec_unlock_biometric(label, c.biometric_enabled, tested) is Unlock ==> label
            == "lock"@ && c.biometric_enabled && tested == Some(Ok::<bool, Seq<char>>(true)),
{
}

/// The lock window itself stays when the app locks, so that it can unlock.
pub proof fn law_lock_window_is_not_hidden()
    ensures
        !lock::spec_should_hide("lock"@),
{
}

// ---------------------------------------------------------------------------
// What each command answers, in terms of the label and of what it is given.
// ---------------------------------------------------------------------------

/// Whether a label starts with `wa-`.
pub open spec fn is_wa(label: Seq<char>) -> bool {
    label.len() >= 3 && label[0] == 'w' && label[1] == 'a' && label[2] == '-'
}

/// Whether a window is local and the app unlocked.
pub open spec fn may_manage(label: Seq<char>, unlocked: bool) -> bool {
    !is_wa(label) && unlocked
}

/// A window is remote exactly where its label starts with `wa-`.
pub proof fn law_remote_labels(label: Seq<char>)
    ensures
        commands::spec_is_remote(label) <==> is_wa(label),
{
    account_laws::law_window_labels(label, label);
    law_remote_windows_are_account_windows(label, label);
}

/// A remote window is told that a command is forbidden, a local one that the app is
/// locked where it is, and no other window is refused.
pub proof fn law_who_is_refused(label: Seq<char>, unlocked: bool)
    ensures
        is_wa(label) ==> commands::refusal(label, unlocked) == Some("forbidden"@),
        !is_wa(label) && !unlocked ==> commands::refusal(label, unlocked) == Some("locked"@),
        may_manage(label, unlocked) ==> commands::refusal(label, unlocked) is None,
{
    law_remote_labels(label);
}

/// Only the window labelled `lock` has the commands of the lock window.
pub proof fn law_lock_window_alone_is_not_refused(label: Seq<char>)
    ensures
        commands::lock_window_refusal(label) is None <==> label.len() == 4 && label[0] == 'l'
            && label[1] == 'o' && label[2] == 'c' && label[3] == 'k',
        commands::lock_window_refusal(label) matches Some(e) ==> e == "forbidden"@,
{
    reveal_strlit("lock");
    if label.len() == 4 && label[0] == 'l' && label[1] == 'o' && label[2] == 'c' && label[3]
        == 'k' {
        assert(label == "lock"@);
    }
}

/// A log line is `js: ` and the message, cut after 300 characters.
pub proof fn law_log_line(msg: Seq<char>)
    ensures
        ({
            let line = commands::spec_dlog(msg);
            &&& line[0] == 'j' && line[1] == 's' && line[2] == ':' && line[3] == ' '
            &&& msg.len() <= 300 ==> line.len() == msg.len() + 4
            &&& msg.len() > 300 ==> line.len() == 304
            &&& forall|k: int| 4 <= k < line.len() ==> #[trigger] line[k] == msg[k - 4]
        }),
{
    reveal_strlit("js: ");
}

/// A count that an account window reports replaces that of its account and no
/// other's, and the total is the sum with it. A toast is decided on exactly where
/// the count is higher than the one before, as the fallback decides; otherwise the
/// toast log stays.
pub proof fn law_reported_count(
    m: Map<Seq<char>, u32>,
    log: LogModel,
    f: FileModel,
    id: Seq<char>,
    count: u32,
    now: u64,
    unlocked: bool,
    notifications: bool,
    watched: bool,
    other: Seq<char>,
)
    requires
        m.dom().finite(),
    ensures
        ({
            let label = accounts::spec_window_label(id);
            let (counts, after, update) = commands::spec_report(
                m,
                log,
                f,
                label,
                count,
                now,
                unlocked,
                notifications,
                watched,
            );
            let before = if m.contains_key(id) {
                m[id]
            } else {
                0
            };
            let fallback = notify::spec_unread_toast(
                log,
                f,
                label,
                count,
                now,
                unlocked,
                notifications,
                watched,
            );
            &&& counts.contains_key(id) && counts[id] == count
            &&& other != id ==> counts.contains_key(other) == m.contains_key(other) && (
            m.contains_key(other) ==> counts[other] == m[other])
            &&& update matches Some(u) && {
                &&& u.total + before == accounts::map_total(m) + count
                &&& count > before ==> u.toast == Some(fallback.1) && after == fallback.0
                &&& count <= before ==> u.toast is None && after == log
            }
        }),
{
    account_laws::law_window_labels(id, accounts::spec_window_label(id));
    account_laws::law_total_follows_one_count(m, id, count);
    if !m.contains_key(id) {
        assert(m.remove(id) =~= m);
    }
}

/// A window that is not an account window reports nothing and changes nothing.
pub proof fn law_other_windows_report_nothing(
    m: Map<Seq<char>, u32>,
    log: LogModel,
    f: FileModel,
    label: Seq<char>,
    count: u32,
    now: u64,
    unlocked: bool,
    notifications: bool,
    watched: bool,
)
    requires
        !is_wa(label),
    ensures
        ({
            let (counts, after, update) = commands::spec_report(
                m,
                log,
                f,
                label,
                count,
                now,
                unlocked,
                notifications,
                watched,
            );
            counts == m && after == log && update is None
        }),
{
    account_laws::law_window_labels(label, label);
}

/// A forgotten count is gone and the others stay; the total falls by it.
pub proof fn law_forgotten_count(m: Map<Seq<char>, u32>, id: Seq<char>, other: Seq<char>)
    requires
        m.dom().finite(),
    ensures
        ({
            let (counts, total) = commands::spec_forget(m, id);
            &&& !counts.contains_key(id)
            &&& other != id ==> counts.contains_key(other) == m.contains_key(other) && (
            m.contains_key(other) ==> counts[other] == m[other])
            &&& m.contains_key(id) ==> total + m[id] == accounts::map_total(m)
            &&& !m.contains_key(id) ==> total == accounts::map_total(m)
        }),
{
    if m.contains_key(id) {
        accounts::lemma_map_total_remove(m, id);
    } else {
        assert(m.remove(id) =~= m);
    }
}

/// Whether a label is `wa-` and the id.
pub open spec fn is_label_of(label: Seq<char>, id: Seq<char>) -> bool {
    is_wa(label) && label.skip(3) == id
}

/// Whether the window of an account is among the open ones.
pub open spec fn has_window(open: Seq<Seq<char>>, id: Seq<char>) -> bool {
    exists|k: int| 0 <= k < open.len() && is_label_of(#[trigger] open[k], id)
}

/// An account as it is to be shown: its own id, name and order, the count that is
/// held for its id, zero where none is, and whether its window is open.
pub open spec fn shown(
    a: AccountModel,
    unread: Map<Seq<char>, u32>,
    open: Seq<Seq<char>>,
) -> ListedModel {
    ListedModel {
        id: a.id,
        name: a.name,
        order: a.order,
        unread: if unread.contains_key(a.id) {
            unread[a.id]
        } else {
            0
        },
        open: has_window(open, a.id),
    }
}

proof fn lemma_has_window(open: Seq<Seq<char>>, id: Seq<char>)
    ensures
        open.contains(accounts::spec_window_label(id)) <==> has_window(open, id),
{
    let l = accounts::spec_window_label(id);
    account_laws::law_window_labels(id, l);
    if open.contains(l) {
        let k = choose|k: int| 0 <= k < open.len() && open[k] == l;
        assert(is_label_of(open[k], id));
    }
    if has_window(open, id) {
        let k = choose|k: int| 0 <= k < open.len() && is_label_of(#[trigger] open[k], id);
        account_laws::law_window_labels(id, open[k]);
        account_laws::law_id_gives_back_label(open[k]);
        assert(open[k] == l);
    }
}

/// Every account is listed with its own id, name and order, the count that is held
/// for it, whether or not its window is open, and whether that is so. The list is by
/// order, and those of one order stand as in the file.
pub proof fn law_listing_in_full(
    accts: Seq<AccountModel>,
    unread: Map<Seq<char>, u32>,
    open: Seq<Seq<char>>,
    order: nat,
)
    ensures
        ({
            let views = commands::spec_account_views(accts, unread, open);
            let all = accts.map_values(|a: AccountModel| shown(a, unread, open));
            &&& views.len() == accts.len()
            &&& forall|i: int, j: int|
                0 <= i <= j < views.len() ==> views[i].order <= views[j].order
            &&& views.to_multiset() == all.to_multiset()
            &&& views.filter(|v: ListedModel| v.order == order) == all.filter(
                |v: ListedModel| v.order == order,
            )
        }),
{
    let views = commands::spec_account_views(accts, unread, open);
    let all = accts.map_values(|a: AccountModel| shown(a, unread, open));
    let file = listed_in_file_order(accts, unread, open);
    law_accounts_are_listed_in_order(accts, unread, open, order);
    assert forall|i: int| 0 <= i < accts.len() implies #[trigger] all[i] == file[i] by {
        lemma_has_window(open, accts[i].id);
    }
    assert(all == file);
    assert(views.len() == accts.len()) by {
        broadcast use vstd::seq_lib::group_to_multiset_ensures;

        assert(views.to_multiset().len() == file.to_multiset().len());
    }
}

/// An account is refused to a remote window, in a locked app, by a system that
/// cannot keep accounts apart, and without a name, in this order; otherwise it is
/// not.
pub proof fn law_when_adding_is_refused(
    label: Seq<char>,
    unlocked: bool,
    isolation: Option<Seq<char>>,
    before: Seq<char>,
    name: Seq<char>,
    after: Seq<char>,
)
    requires
        text_laws::all_white(before),
        text_laws::has_firm_ends(name),
        text_laws::all_white(after),
    ensures
        ({
            let r = commands::add_refusal(label, unlocked, isolation, before + name + after);
            &&& is_wa(label) ==> r == Some("forbidden"@)
            &&& !is_wa(label) && !unlocked ==> r == Some("locked"@)
            &&& may_manage(label, unlocked) && isolation is Some ==> r == isolation
            &&& may_manage(label, unlocked) && isolation is None && name.len() == 0 ==> r == Some(
                "account name cannot be empty"@,
            )
            &&& may_manage(label, unlocked) && isolation is None && name.len() > 0 ==> r is None
        }),
{
    law_who_is_refused(label, unlocked);
    text_laws::law_trimming_takes_the_white_space_around(before, name, after);
}

/// An account is added under its name without the white space around it, to the
/// file as it was, and is listed as open with no unread messages.
pub proof fn law_adding(
    f: FileModel,
    before: Seq<char>,
    name: Seq<char>,
    after: Seq<char>,
    uuid: Seq<u8>,
)
    requires
        text_laws::all_white(before),
        text_laws::has_firm_ends(name),
        text_laws::all_white(after),
    ensures
        ({
            let (g, a, v) = commands::spec_add_account(f, before + name + after, uuid);
            &&& g == accounts::file_added(f, name, uuid)
            &&& a == accounts::new_account(f, name, uuid)
            &&& a.name == name
            &&& v.id == a.id && v.name == name && v.order == a.order
            &&& v.unread == 0
            &&& v.open
        }),
{
    text_laws::law_trimming_takes_the_white_space_around(before, name, after);
}

/// A local window of an unlocked app removes an account as the file does; to any
/// other it is refused.
pub proof fn law_removing(label: Seq<char>, unlocked: bool, f: FileModel, id: Seq<char>)
    ensures
        may_manage(label, unlocked) ==> commands::spec_remove_account(label, unlocked, f, id)
            == accounts::spec_remove(f, id),
        is_wa(label) ==> commands::spec_remove_account(label, unlocked, f, id) == Err::<
            (FileModel, AccountModel),
            _,
        >("forbidden"@),
        !is_wa(label) && !unlocked ==> commands::spec_remove_account(label, unlocked, f, id)
            == Err::<(FileModel, AccountModel), _>("locked"@),
{
    law_who_is_refused(label, unlocked);
}

/// A local window of an unlocked app gives an account the name without the white
/// space around it, which must leave something. The account's window is titled with
/// it.
pub proof fn law_renaming(
    label: Seq<char>,
    unlocked: bool,
    f: FileModel,
    id: Seq<char>,
    before: Seq<char>,
    name: Seq<char>,
    after: Seq<char>,
)
    requires
        text_laws::all_white(before),
        text_laws::has_firm_ends(name),
        text_laws::all_white(after),
    ensures
        ({
            let r = commands::spec_rename_account(label, unlocked, f, id, before + name + after);
            let (window, title) = commands::spec_window_title(id, before + name + after);
            &&& is_wa(label) ==> r == Err::<FileModel, _>("forbidden"@)
            &&& !is_wa(label) && !unlocked ==> r == Err::<FileModel, _>("locked"@)
            &&& may_manage(label, unlocked) && name.len() == 0 ==> r == Err::<FileModel, _>(
                "account name cannot be empty"@,
            )
            &&& may_manage(label, unlocked) && name.len() > 0 ==> r == accounts::spec_rename(
                f,
                id,
                name,
            )
            &&& is_label_of(window, id)
            &&& title == "whatRust — "@ + name
        }),
{
    law_who_is_refused(label, unlocked);
    account_laws::law_window_labels(id, id);
    text_laws::law_trimming_takes_the_white_space_around(before, name, after);
}

/// A local window of an unlocked app opens the first account with the id. Its window
/// is built exactly where it is not open.
pub proof fn law_opening(
    label: Seq<char>,
    unlocked: bool,
    f: FileModel,
    id: Seq<char>,
    open: Seq<Seq<char>>,
    i: int,
)
    ensures
        ({
            let r = commands::spec_open_account(label, unlocked, f, id, open);
            &&& is_wa(label) ==> r == Err::<(AccountModel, Seq<char>, bool), _>("forbidden"@)
            &&& !is_wa(label) && !unlocked ==> r == Err::<(AccountModel, Seq<char>, bool), _>(
                "locked"@,
            )
            &&& may_manage(label, unlocked) && account_laws::none_has(f.accounts, id) ==> r
                == Err::<(AccountModel, Seq<char>, bool), _>("unknown account: "@ + id)
            &&& may_manage(label, unlocked) && account_laws::is_first_with(f.accounts, id, i) ==> (
            r matches Ok((a, window, build)) && a == f.accounts[i] && is_label_of(window, id)
                && build == !has_window(open, id))
        }),
{
    law_who_is_refused(label, unlocked);
    account_laws::law_found_account_is_the_first(f.accounts, id, i);
    account_laws::law_window_labels(id, id);
    lemma_has_window(open, id);
}

/// The lock status tells what is configured, to every local window and also while
/// the app is locked. Biometric unlock counts as enabled only where the platform
/// offers it.
pub proof fn law_status(
    label: Seq<char>,
    c: ConfigModel,
    active: bool,
    available: bool,
    biometric_label: Seq<char>,
)
    ensures
        ({
            let r = commands::spec_lock_status(label, c, active, available, biometric_label);
            &&& is_wa(label) ==> r == Err::<StatusModel, _>("forbidden"@)
            &&& !is_wa(label) ==> (r matches Ok(s) && {
                &&& s.enabled == active
                &&& s.biometric_available == available
                &&& s.biometric_enabled <==> c.biometric_enabled && available
                &&& s.biometric_label == biometric_label
                &&& s.lock_on_launch == c.lock_on_launch
                &&& s.lock_on_hide == c.lock_on_hide
                &&& s.idle_secs == c.idle_secs
            })
        }),
{
    law_remote_labels(label);
}

/// Whether two configurations agree but in the password and in whether the lock is
/// enabled.
pub open spec fn same_options(c: ConfigModel, d: ConfigModel) -> bool {
    d.biometric_enabled == c.biometric_enabled && d.lock_on_launch == c.lock_on_launch
        && d.lock_on_hide == c.lock_on_hide && d.idle_secs == c.idle_secs
}

/// Setting the first password: what is answered or asked for, in every case. Of two
/// passwords that agree, one of four characters or more is taken.
pub proof fn law_setting_the_first_password(
    label: Seq<char>,
    unlocked: bool,
    c: ConfigModel,
    active: bool,
    new: Seq<char>,
    confirm: Seq<char>,
    phc: Seq<char>,
    e: Seq<char>,
    hashed: Option<Result<Seq<char>, Seq<char>>>,
)
    ensures
        ({
            let step = commands::spec_set_password(
                label,
                unlocked,
                c,
                active,
                new,
                confirm,
                hashed,
            );
            let free = may_manage(label, unlocked) && !active;
            &&& is_wa(label) ==> step == ConfigStepModel::Reject("forbidden"@)
            &&& !is_wa(label) && !unlocked ==> step == ConfigStepModel::Reject("locked"@)
            &&& may_manage(label, unlocked) && active ==> step == ConfigStepModel::Reject(
                "app lock is already enabled"@,
            )
            &&& free && new != confirm ==> step == ConfigStepModel::Reject(
                "passwords do not match"@,
            )
            &&& free && new == confirm && new.len() <= 3 ==> step == ConfigStepModel::Reject(
                "password must be at least 4 characters"@,
            )
            &&& free && new == confirm && new.len() >= 4 && hashed is None ==> step
                == ConfigStepModel::Hash
            &&& free && new == confirm && new.len() >= 4 && hashed == Some(
                Err::<Seq<char>, _>(e),
            ) ==> step == ConfigStepModel::Reject(e)
            &&& free && new == confirm && new.len() >= 4 && hashed == Some(
                Ok::<_, Seq<char>>(phc),
            ) ==> (step matches ConfigStepModel::Store(d) && d.enabled && d.password_phc == Some(
                phc,
            ) && same_options(c, d))
        }),
{
    law_who_is_refused(label, unlocked);
}

/// Changing the password: what is answered or asked for, in every case. The current
/// password is verified first, against the hash that is stored.
pub proof fn law_changing_the_password(
    label: Seq<char>,
    unlocked: bool,
    c: ConfigModel,
    verified: Option<bool>,
    new: Seq<char>,
    confirm: Seq<char>,
    phc: Seq<char>,
    e: Seq<char>,
    hashed: Option<Result<Seq<char>, Seq<char>>>,
)
    ensures
        ({
            let step = commands::spec_change_password(
                label,
                unlocked,
                c,
                verified,
                new,
                confirm,
                hashed,
            );
            let set = may_manage(label, unlocked) && c.password_phc is Some;
            let free = set && verified == Some(true);
            &&& is_wa(label) ==> step == ConfigStepModel::Reject("forbidden"@)
            &&& !is_wa(label) && !unlocked ==> step == ConfigStepModel::Reject("locked"@)
            &&& may_manage(label, unlocked) && c.password_phc is None ==> step
                == ConfigStepModel::Reject("app lock is not enabled"@)
            &&& set && verified is None ==> step == ConfigStepModel::Verify(c.password_phc->0)
            &&& set && verified == Some(false) ==> step == ConfigStepModel::Reject(
                "current password is incorrect"@,
            )
            &&& free && new != confirm ==> step == ConfigStepModel::Reject(
                "passwords do not match"@,
            )
            &&& free && new == confirm && new.len() <= 3 ==> step == ConfigStepModel::Reject(
                "password must be at least 4 characters"@,
            )
            &&& free && new == confirm && new.len() >= 4 && hashed is None ==> step
                == ConfigStepModel::Hash
            &&& free && new == confirm && new.len() >= 4 && hashed == Some(
                Err::<Seq<char>, _>(e),
            ) ==> step == ConfigStepModel::Reject(e)
            &&& free && new == confirm && new.len() >= 4 && hashed == Some(
                Ok::<_, Seq<char>>(phc),
            ) ==> (step matches ConfigStepModel::Store(d) && d.enabled == c.enabled
                && d.password_phc == Some(phc) && same_options(c, d))
        }),
{
    law_who_is_refused(label, unlocked);
}

/// Disabling the lock: what is answered or asked for, in every case.
pub proof fn law_disabling(
    label: Seq<char>,
    unlocked: bool,
    c: ConfigModel,
    verified: Option<bool>,
    defaults: ConfigModel,
)
    ensures
        ({
            let step = commands::spec_disable(label, unlocked, c, verified, defaults);
            let set = may_manage(label, unlocked) && c.password_phc is Some;
            &&& is_wa(label) ==> step == ConfigStepModel::Reject("forbidden"@)
            &&& !is_wa(label) && !unlocked ==> step == ConfigStepModel::Reject("locked"@)
            &&& may_manage(label, unlocked) && c.password_phc is None ==> step
                == ConfigStepModel::Reject("app lock is not enabled"@)
            &&& set && verified is None ==> step == ConfigStepModel::Verify(c.password_phc->0)
            &&& set && verified == Some(false) ==> step == ConfigStepModel::Reject(
                "current password is incorrect"@,
            )
            &&& set && verified == Some(true) ==> step == ConfigStepModel::Store(defaults)
        }),
{
    law_who_is_refused(label, unlocked);
}

/// A local window of an unlocked app sets the options to exactly the values that it
/// asks for, whatever they were before, and nothing else. To any other window it is
/// refused.
pub proof fn law_options_are_those_asked_for(
    label: Seq<char>,
    unlocked: bool,
    c: ConfigModel,
    lock_on_launch: bool,
    lock_on_hide: bool,
    idle_secs: u32,
)
    ensures
        ({
            let step = commands::spec_set_options(
                label,
                unlocked,
                c,
                lock_on_launch,
                lock_on_hide,
                idle_secs,
            );
            &&& is_wa(label) ==> step == ConfigStepModel::Reject("forbidden"@)
            &&& !is_wa(label) && !unlocked ==> step == ConfigStepModel::Reject("locked"@)
            &&& may_manage(label, unlocked) ==> (step matches ConfigStepModel::Store(d) && {
                &&& d.lock_on_launch == lock_on_launch
                &&& d.lock_on_hide == lock_on_hide
                &&& d.idle_secs == idle_secs
                &&& d.enabled == c.enabled
                &&& d.password_phc == c.password_phc
                &&& d.biometric_enabled == c.biometric_enabled
            })
        }),
{
    law_who_is_refused(label, unlocked);
}

/// Enabling and disabling biometric unlock: what is answered or asked for, in every
/// case. What is stored is the configuration as it was, with the setting asked for.
pub proof fn law_setting_biometric_unlock(
    label: Seq<char>,
    unlocked: bool,
    c: ConfigModel,
    active: bool,
    available: bool,
    enabled: bool,
    e: Seq<char>,
    tested: Option<Result<bool, Seq<char>>>,
)
    ensures
        ({
            let step = commands::spec_set_biometric(
                label,
                unlocked,
                c,
                active,
                available,
                enabled,
                tested,
            );
            let on = may_manage(label, unlocked) && enabled;
            let ready = on && active && available;
            &&& is_wa(label) ==> step == ConfigStepModel::Reject("forbidden"@)
            &&& !is_wa(label) && !unlocked ==> step == ConfigStepModel::Reject("locked"@)
            &&& on && !active ==> step == ConfigStepModel::Reject(
                "set an app-lock password first"@,
            )
            &&& on && active && !available ==> step == ConfigStepModel::Reject(
                "biometric authentication is not available on this device"@,
            )
            &&& ready && tested is None ==> step == ConfigStepModel::Authenticate
            &&& ready && tested == Some(Err::<bool, _>(e)) ==> step == ConfigStepModel::Reject(e)
            &&& ready && tested == Some(Ok::<_, Seq<char>>(false)) ==> step
                == ConfigStepModel::Reject("biometric test did not succeed"@)
            &&& (ready && tested == Some(Ok::<_, Seq<char>>(true))) || (may_manage(label, unlocked)
                && !enabled) ==> (step matches ConfigStepModel::Store(d) && {
                &&& d.biometric_enabled == enabled
                &&& d.enabled == c.enabled
                &&& d.password_phc == c.password_phc
                &&& d.lock_on_launch == c.lock_on_launch
                &&& d.lock_on_hide == c.lock_on_hide
                &&& d.idle_secs == c.idle_secs
            })
        }),
{
    law_who_is_refused(label, unlocked);
}

/// A local window locks the app exactly where the lock is active.
pub proof fn law_locking_on_request(label: Seq<char>, active: bool)
    ensures
        is_wa(label) ==> commands::lock_refusal(label, active) == Some("forbidden"@),
        !is_wa(label) && !active ==> commands::lock_refusal(label, active) == Some(
            "app lock is not enabled"@,
        ),
        !is_wa(label) && active ==> commands::lock_refusal(label, active) is None,
{
    law_remote_labels(label);
}

/// Unlocking with the password: what is answered or asked for, in every case. The
/// password is verified against the hash that is stored; without one the lock window
/// unlocks at once.
pub proof fn law_unlocking_with_the_password(
    label: Seq<char>,
    phc: Option<Seq<char>>,
    verified: Option<bool>,
)
    ensures
        ({
            let step = commands::spec_unlock_password(label, phc, verified);
            &&& label != "lock"@ ==> step == UnlockStepModel::Reject("forbidden"@)
            &&& label == "lock"@ && phc is None ==> step == UnlockStepModel::Unlock
            &&& label == "lock"@ && phc is Some && verified is None ==> step
                == UnlockStepModel::Verify(phc->0)
            &&& label == "lock"@ && phc is Some && verified == Some(true) ==> step
                == UnlockStepModel::Unlock
            &&& label == "lock"@ && phc is Some && verified == Some(false) ==> step
                == UnlockStepModel::Refuse
        }),
{
}

/// Unlocking with biometric authentication: what is answered or asked for, in every
/// case.
pub proof fn law_unlocking_with_biometrics(
    label: Seq<char>,
    enabled: bool,
    e: Seq<char>,
    tested: Option<Result<bool, Seq<char>>>,
)
    ensures
        ({
            let step = commands::spec_unlock_biometric(label, enabled, tested);
            let ready = label == "lock"@ && enabled;
            &&& label != "lock"@ ==> step == UnlockStepModel::Reject("forbidden"@)
            &&& label == "lock"@ && !enabled ==> step == UnlockStepModel::Reject(
                "biometric unlock is not enabled"@,
            )
            &&& ready && tested is None ==> step == UnlockStepModel::Authenticate
            &&& ready && tested == Some(Err::<bool, _>(e)) ==> step == UnlockStepModel::Reject(e)
            &&& ready && tested == Some(Ok::<_, Seq<char>>(true)) ==> step
                == UnlockStepModel::Unlock
            &&& ready && tested == Some(Ok::<_, Seq<char>>(false)) ==> step
                == UnlockStepModel::Refuse
        }),
{
}

} // verus!
