//! What the commands of the windows are answered, stated of their own arguments and
//! answers.

use vstd::prelude::*;

use crate::account_laws;
use crate::accounts;
use crate::accounts::{Account, AccountsFile, UnreadMap};
use crate::command_laws;
use crate::commands;
use crate::commands::{
    AccountView, AppLockConfig, ConfigStep, LockStatus, OpenRequest, UnlockStep, UnreadUpdate,
    WindowTitle,
};
use crate::notify;
use crate::notify::{Decision, Suppressed, ToastLog};
use crate::notify_laws;
use crate::operation_laws;
use crate::store_id::StoreIds;
use crate::text;
use crate::text_laws;

verus! {

/// What a window is told that may not manage accounts: `forbidden` where it is an
/// account window, `locked` where the app is.
pub open spec fn is_refusal(e: Seq<char>, label: Seq<char>, unlocked: bool) -> bool {
    &&& command_laws::is_wa(label) ==> e == "forbidden"@
    &&& !command_laws::is_wa(label) && !unlocked ==> e == "locked"@
}

// ---------------------------------------------------------------------------
// Guards and the log.
// ---------------------------------------------------------------------------

/// The guards let through exactly the local windows of an unlocked app and the lock
/// window; a remote window is one whose label starts with `wa-`.
pub proof fn law_of_guards(
    label: &str,
    unlocked: bool,
    remote: bool,
    pass: Result<(), String>,
    lock_pass: Result<(), String>,
)
    requires
        call_ensures(commands::is_remote_label, (label,), remote),
        call_ensures(commands::guard, (label, unlocked), pass),
        call_ensures(commands::lock_window_guard, (label,), lock_pass),
    ensures
        remote <==> command_laws::is_wa(label@),
        pass is Ok <==> command_laws::may_manage(label@, unlocked),
        pass matches Err(e) ==> is_refusal(e@, label@, unlocked),
        lock_pass is Ok <==> label@ == "lock"@,
        lock_pass matches Err(e) ==> e@ == "forbidden"@,
{
    command_laws::law_remote_labels(label@);
    command_laws::law_who_is_refused(label@, unlocked);
}

/// `dlog` writes `js: ` and the first 300 characters of the message.
pub proof fn law_of_logging(msg: &str, line: String)
    requires
        call_ensures(commands::dlog, (msg,), line),
    ensures
        msg@.len() <= 300 ==> line@ == "js: "@ + msg@,
        msg@.len() > 300 ==> line@ == "js: "@ + msg@.take(300),
{
    reveal_strlit("js: ");
    command_laws::law_log_line(msg@);
    if msg@.len() <= 300 {
        assert(line@ == "js: "@ + msg@);
    } else {
        assert(line@ == "js: "@ + msg@.take(300));
    }
}

// ---------------------------------------------------------------------------
// Toasts and unread counts.
// ---------------------------------------------------------------------------

/// A page's toast is recorded, for its window and the time alone, and shown exactly
/// where the app is unlocked and notifications are on, with the page's own body.
pub proof fn law_of_page_toasts(
    log: &mut ToastLog,
    f: &AccountsFile,
    label: &str,
    title: &str,
    body: &str,
    now: u64,
    unlocked: bool,
    notifications: bool,
    d: Decision,
    i: int,
)
    requires
        call_ensures(
            commands::notify,
            (log, f, label, title, body, now, unlocked, notifications),
            d,
        ),
    ensures
        final(log).shim@ == old(log).shim@.insert(label@, now),
        final(log).last@ == old(log).last@,
        !unlocked ==> d == Decision::Suppress(Suppressed::Locked),
        unlocked && !notifications ==> d == Decision::Suppress(Suppressed::Disabled),
        unlocked && notifications ==> (d matches Decision::Show(toast) && {
            &&& toast.body@ == body@
            &&& f.accounts@.len() <= 1 ==> toast.title@ == title@
            &&& f.accounts@.len() >= 2 && command_laws::is_wa(label@) && operation_laws::is_first(
                f.accounts@,
                label@.skip(3),
                i,
            ) ==> toast.title@ == f.accounts@[i].name@ + ": "@ + title@
            &&& f.accounts@.len() >= 2 && (command_laws::is_wa(label@)
                ==> operation_laws::no_account_has(f.accounts@, label@.skip(3))) ==> toast.title@
                == title@
        }),
{
    let o = *old(log);
    let g = *final(log);
    operation_laws::lemma_first(*f, label@.skip(3), i);
    notify_laws::law_page_toast(f@, label@, title@, body@, unlocked, notifications, i);
    assert forall|other: Seq<char>| #[trigger] g.shim@.contains_key(other) == o.shim@.insert(
        label@,
        now,
    ).contains_key(other) by {
        notify_laws::law_page_toast_is_recorded(o@, label@, now, other);
    }
    assert forall|other: Seq<char>| #[trigger] g.shim@.contains_key(other) implies g.shim@[other]
        == o.shim@.insert(label@, now)[other] by {
        notify_laws::law_page_toast_is_recorded(o@, label@, now, other);
    }
    assert(g.shim@ =~= o.shim@.insert(label@, now));
    if operation_laws::is_first(f.accounts@, label@.skip(3), i) {
        assert(f@.accounts[i].name == f.accounts@[i].name@);
    }
}

/// A count that an account window reports is put at its id and nowhere else, and
/// added to the others. A toast is decided on exactly where the count rose, and
/// shown exactly where the fallback may show one. Another window changes nothing.
pub proof fn law_of_reports(
    map: &mut UnreadMap,
    log: &mut ToastLog,
    f: &AccountsFile,
    label: &str,
    count: u32,
    now: u64,
    unlocked: bool,
    notifications: bool,
    watched: bool,
    update: Option<UnreadUpdate>,
)
    requires
        call_ensures(
            commands::set_unread,
            (map, log, f, label, count, now, unlocked, notifications, watched),
            update,
        ),
        old(map)@.dom().finite(),
    ensures
        !command_laws::is_wa(label@) ==> update is None && final(map)@ == old(map)@ && final(log).shim@ == old(log).shim@ && final(log).last@ == old(log).last@,
        command_laws::is_wa(label@) ==> ({
            let id = label@.skip(3);
            let before = if old(map)@.contains_key(id) {
                old(map)@[id]
            } else {
                0
            };
            let recent = old(log).shim@.contains_key(label@) && now <= old(log).shim@[label@]
                + 10_000_000_000;
            let repeat = old(log).last@.contains_key(label@) && old(log).last@[label@].1 == count
                && now <= old(log).last@[label@].0 + 90_000_000_000;
            &&& final(map)@ == old(map)@.insert(id, count)
            &&& update matches Some(u) && {
                &&& u.total + before == accounts::map_total(old(map)@) + count
                &&& u.toast is Some <==> count > before
                &&& u.toast matches Some(d) ==> (d is Show <==> unlocked && notifications && !recent
                    && !repeat && !watched)
            }
        }),
{
    let o = *old(map);
    let id = label@.skip(3);
    account_laws::law_window_labels(id, label@);
    account_laws::law_id_gives_back_label(label@);
    if command_laws::is_wa(label@) {
        assert(label@ == accounts::spec_window_label(id));
        command_laws::law_reported_count(
            o@,
            old(log)@,
            f@,
            id,
            count,
            now,
            unlocked,
            notifications,
            watched,
            id,
        );
        notify_laws::law_fallback_shows_exactly_when(
            old(log)@,
            f@,
            label@,
            count,
            now,
            unlocked,
            notifications,
            watched,
        );
        assert(final(map)@ == o@.insert(id, count));
    } else {
        command_laws::law_other_windows_report_nothing(
            o@,
            old(log)@,
            f@,
            label@,
            count,
            now,
            unlocked,
            notifications,
            watched,
        );
    }
}

/// `forget_unread` takes the id's count away, and only that; the total falls by it.
pub proof fn law_of_forgetting(map: &mut UnreadMap, id: &str, total: u32)
    requires
        call_ensures(commands::forget_unread, (map, id), total),
        old(map)@.dom().finite(),
    ensures
        final(map)@ == old(map)@.remove(id@),
        old(map)@.contains_key(id@) ==> total + old(map)@[id@] == accounts::map_total(old(map)@),
        !old(map)@.contains_key(id@) ==> total == accounts::map_total(old(map)@),
{
    command_laws::law_forgotten_count(old(map)@, id@, id@);
}

// ---------------------------------------------------------------------------
// Accounts.
// ---------------------------------------------------------------------------

/// Whether an account is listed as it is: with its id, name and order, the count that
/// is held for it, zero where none is, and open exactly where its window is.
pub open spec fn lists(
    v: AccountView,
    a: Account,
    unread: Map<Seq<char>, u32>,
    open: Seq<String>,
) -> bool {
    &&& v.id@ == a.id@
    &&& v.name@ == a.name@
    &&& v.order == a.order
    &&& unread.contains_key(a.id@) ==> v.unread == unread[a.id@]
    &&& !unread.contains_key(a.id@) ==> v.unread == 0
    &&& v.open <==> is_open(open, a.id@)
}

/// Whether the window of an account is among the open ones.
pub open spec fn is_open(open: Seq<String>, id: Seq<char>) -> bool {
    exists|k: int| 0 <= k < open.len() && command_laws::is_label_of((#[trigger] open[k])@, id)
}

proof fn lemma_is_open(open: Seq<String>, id: Seq<char>)
    ensures
        is_open(open, id) <==> command_laws::has_window(text::views(open), id),
{
    let names = text::views(open);
    if is_open(open, id) {
        let k = choose|k: int|
            0 <= k < open.len() && command_laws::is_label_of((#[trigger] open[k])@, id);
        assert(command_laws::is_label_of(names[k], id));
    }
    if command_laws::has_window(names, id) {
        let k = choose|k: int|
            0 <= k < names.len() && command_laws::is_label_of(#[trigger] names[k], id);
        assert(command_laws::is_label_of(open[k]@, id));
    }
}

/// Every account is listed as it is, whether or not its window is open, nothing else
/// is, and the list is by order.
pub proof fn law_of_listing(
    f: &AccountsFile,
    unread: &UnreadMap,
    open: &Vec<String>,
    views: Vec<AccountView>,
)
    requires
        call_ensures(commands::account_views, (f, unread, open), views),
    ensures
        views@.len() == f.accounts@.len(),
        forall|i: int, j: int|
            0 <= i <= j < views@.len() ==> (#[trigger] views@[i]).order <= (
            #[trigger] views@[j]).order,
        forall|i: int|
            0 <= i < f.accounts@.len() ==> exists|j: int|
                0 <= j < views@.len() && lists(
                    #[trigger] views@[j],
                    #[trigger] f.accounts@[i],
                    unread@,
                    open@,
                ),
        forall|j: int|
            0 <= j < views@.len() ==> exists|i: int|
                0 <= i < f.accounts@.len() && lists(
                    #[trigger] views@[j],
                    #[trigger] f.accounts@[i],
                    unread@,
                    open@,
                ),
{
    broadcast use vstd::seq_lib::group_to_multiset_ensures;

    let names = text::views(open@);
    let all = f@.accounts.map_values(
        |a: accounts::AccountModel| command_laws::shown(a, unread@, names),
    );
    let models = commands::listed_models(views@);
    command_laws::law_listing_in_full(f@.accounts, unread@, names, 0);
    assert(models.len() == views@.len());
    assert(all.len() == f.accounts@.len());
    assert forall|i: int, j: int| 0 <= i <= j < views@.len() implies (#[trigger] views@[i]).order
        <= (#[trigger] views@[j]).order by {
        assert(models[i].order <= models[j].order);
    }
    assert forall|i: int| 0 <= i < f.accounts@.len() implies exists|j: int|
        0 <= j < views@.len() && lists(
            #[trigger] views@[j],
            #[trigger] f.accounts@[i],
            unread@,
            open@,
        ) by {
        lemma_is_open(open@, f.accounts@[i].id@);
        assert(all.contains(all[i]));
        assert(all.to_multiset().contains(all[i]));
        assert(models.to_multiset().contains(all[i]));
        assert(models.contains(all[i]));
        let j = choose|j: int| 0 <= j < models.len() && models[j] == all[i];
        assert(lists(views@[j], f.accounts@[i], unread@, open@));
    }
    assert forall|j: int| 0 <= j < views@.len() implies exists|i: int|
        0 <= i < f.accounts@.len() && lists(
            #[trigger] views@[j],
            #[trigger] f.accounts@[i],
            unread@,
            open@,
        ) by {
        assert(models.contains(models[j]));
        assert(models.to_multiset().contains(models[j]));
        assert(all.to_multiset().contains(models[j]));
        assert(all.contains(models[j]));
        let i = choose|i: int| 0 <= i < all.len() && all[i] == models[j];
        lemma_is_open(open@, f.accounts@[i].id@);
        assert(lists(views@[j], f.accounts@[i], unread@, open@));
    }
}

/// `list_accounts` answers a local window of an unlocked app with what
/// `account_views` lists, and refuses any other.
pub proof fn law_of_asking_for_the_list(
    label: &str,
    unlocked: bool,
    f: &AccountsFile,
    unread: &UnreadMap,
    open: &Vec<String>,
    answer: Result<Vec<AccountView>, String>,
    views: Vec<AccountView>,
    j: int,
)
    requires
        call_ensures(commands::list_accounts, (label, unlocked, f, unread, open), answer),
        call_ensures(commands::account_views, (f, unread, open), views),
        0 <= j < views@.len(),
    ensures
        answer is Ok <==> command_laws::may_manage(label@, unlocked),
        answer matches Err(e) ==> is_refusal(e@, label@, unlocked),
        answer matches Ok(w) ==> w@.len() == views@.len() && w@[j].id@ == views@[j].id@
            && w@[j].name@ == views@[j].name@ && w@[j].order == views@[j].order && w@[j].unread
            == views@[j].unread && w@[j].open == views@[j].open,
{
    command_laws::law_who_is_refused(label@, unlocked);
    if let Ok(w) = answer {
        let a = commands::listed_models(w@);
        let b = commands::listed_models(views@);
        assert(a == b);
        assert(a.len() == w@.len() && b.len() == views@.len());
        assert(a[j] == w@[j]@ && b[j] == views@[j]@);
    }
}

/// An account is added exactly where a local window of an unlocked app asks, the
/// system keeps accounts apart and the name is not blank. It has the name without the
/// white space around it, and is listed as open and with nothing unread. A refused
/// request changes nothing.
pub proof fn law_of_adding_an_account(
    label: &str,
    unlocked: bool,
    isolation: Option<String>,
    f: &mut AccountsFile,
    name: &str,
    ids: &mut StoreIds,
    answer: Result<(Account, AccountView), String>,
    before: Seq<char>,
    core: Seq<char>,
    after: Seq<char>,
)
    requires
        call_ensures(commands::add_account, (label, unlocked, isolation, f, name, ids), answer),
        name@ == before + core + after,
        text_laws::all_white(before),
        text_laws::has_firm_ends(core),
        text_laws::all_white(after),
    ensures
        answer is Ok <==> command_laws::may_manage(label@, unlocked) && isolation is None
            && core.len() > 0,
        answer matches Err(e) ==> {
            &&& is_refusal(e@, label@, unlocked)
            &&& command_laws::may_manage(label@, unlocked) ==> (isolation matches Some(why) ==> e@
                == why@)
            &&& command_laws::may_manage(label@, unlocked) && isolation is None ==> e@
                == "account name cannot be empty"@
            &&& *final(f) == *old(f)
            &&& *final(ids) == *old(ids)
        },
        answer matches Ok(added) ==> {
            &&& added.0.name@ == core
            &&& added.0.store_uuid is Some
            &&& added.1.id@ == added.0.id@ && added.1.name@ == core && added.1.order
                == added.0.order
            &&& added.1.unread == 0
            &&& added.1.open
            &&& final(f).accounts@.len() == old(f).accounts@.len() + 1
            &&& forall|i: int|
                0 <= i < old(f).accounts@.len() ==> operation_laws::same_account(
                    #[trigger] final(f).accounts@[i],
                    old(f).accounts@[i],
                )
            &&& operation_laws::same_account(
                final(f).accounts@[old(f).accounts@.len() as int],
                added.0,
            )
            &&& final(f).next_seq == old(f).next_seq + 1
            &&& operation_laws::same_opt(final(f).startup_account, old(f).startup_account)
            &&& old(ids).counter < u64::MAX ==> final(ids).counter == old(ids).counter + 1
        },
{
    let o = *old(f);
    let g = *final(f);
    command_laws::law_when_adding_is_refused(
        label@,
        unlocked,
        text::opt_string_view(isolation),
        before,
        core,
        after,
    );
    if let Ok(added) = answer {
        let uuid = added.0@.store_uuid->0;
        command_laws::law_adding(o@, before, core, after, uuid);
        account_laws::law_added_account(o@, core, uuid);
        assert(g@.accounts.len() == g.accounts@.len() && o@.accounts.len() == o.accounts@.len());
        assert forall|i: int| 0 <= i < o.accounts@.len() implies operation_laws::same_account(
            #[trigger] g.accounts@[i],
            o.accounts@[i],
        ) by {
            assert(g@.accounts[i] == o@.accounts[i]);
            operation_laws::lemma_same_account(g.accounts@[i], o.accounts@[i]);
        }
        let n = o.accounts@.len() as int;
        assert(g@.accounts[n] == added.0@);
        operation_laws::lemma_same_account(g.accounts@[n], added.0);
    }
}

/// `remove_account` does for a local window of an unlocked app what `remove` does to
/// the file, and refuses any other.
pub proof fn law_of_removing_an_account(
    label: &str,
    unlocked: bool,
    f: &mut AccountsFile,
    id: &str,
    answer: Result<Account, String>,
    h: &mut AccountsFile,
    r: Result<Account, String>,
)
    requires
        call_ensures(commands::remove_account, (label, unlocked, f, id), answer),
        call_ensures(accounts::remove, (h, id), r),
        *old(h) == *old(f),
    ensures
        !command_laws::may_manage(label@, unlocked) ==> (answer matches Err(e) && is_refusal(
            e@,
            label@,
            unlocked,
        )) && *final(f) == *old(f),
        command_laws::may_manage(label@, unlocked) ==> {
            &&& answer is Ok <==> r is Ok
            &&& answer matches Err(e) ==> (r matches Err(d) && e@ == d@) && *final(f) == *old(f)
            &&& answer matches Ok(a) ==> (r matches Ok(b) && operation_laws::same_account(a, b))
                && operation_laws::same_file(*final(f), *final(h))
        },
{
    command_laws::law_removing(label@, unlocked, old(f)@, id@);
    if command_laws::may_manage(label@, unlocked) && answer is Ok {
        operation_laws::lemma_same_account(answer->Ok_0, r->Ok_0);
        operation_laws::lemma_same_file(*final(f), *final(h));
    }
}

/// `rename_account` does for a local window of an unlocked app what `rename` does to
/// the file with the name without the white space around it, and titles the window
/// of the account with it. A blank name and any other window are refused.
pub proof fn law_of_renaming_an_account(
    label: &str,
    unlocked: bool,
    f: &mut AccountsFile,
    id: &str,
    name: &str,
    answer: Result<WindowTitle, String>,
    h: &mut AccountsFile,
    core: &str,
    r: Result<(), String>,
    before: Seq<char>,
    after: Seq<char>,
)
    requires
        call_ensures(commands::rename_account, (label, unlocked, f, id, name), answer),
        call_ensures(accounts::rename, (h, id, core), r),
        *old(h) == *old(f),
        name@ == before + core@ + after,
        text_laws::all_white(before),
        text_laws::has_firm_ends(core@),
        text_laws::all_white(after),
    ensures
        answer is Err ==> *final(f) == *old(f),
        !command_laws::may_manage(label@, unlocked) ==> (answer matches Err(e) && is_refusal(
            e@,
            label@,
            unlocked,
        )),
        command_laws::may_manage(label@, unlocked) && core@.len() == 0 ==> (answer matches Err(e)
            && e@ == "account name cannot be empty"@),
        command_laws::may_manage(label@, unlocked) && core@.len() > 0 ==> {
            &&& answer is Ok <==> r is Ok
            &&& answer matches Err(e) ==> (r matches Err(d) && e@ == d@)
            &&& answer matches Ok(w) ==> {
                &&& operation_laws::same_file(*final(f), *final(h))
                &&& command_laws::is_label_of(w.label@, id@)
                &&& w.title@ == "whatRust — "@ + core@
            }
        },
{
    command_laws::law_renaming(label@, unlocked, old(f)@, id@, before, core@, after);
    if answer is Ok && r is Ok && final(f)@ == final(h)@ {
        operation_laws::lemma_same_file(*final(f), *final(h));
    }
}

/// `open_account` gives a local window of an unlocked app the first account with the
/// id, its window, and whether that is to be built.
pub proof fn law_of_opening(
    label: &str,
    unlocked: bool,
    f: &AccountsFile,
    id: &str,
    open: &Vec<String>,
    answer: Result<OpenRequest, String>,
    i: int,
)
    requires
        call_ensures(commands::open_account, (label, unlocked, f, id, open), answer),
    ensures
        !command_laws::may_manage(label@, unlocked) ==> (answer matches Err(e) && is_refusal(
            e@,
            label@,
            unlocked,
        )),
        command_laws::may_manage(label@, unlocked) && operation_laws::no_account_has(
            f.accounts@,
            id@,
        ) ==> (answer matches Err(e) && e@ == "unknown account: "@ + id@),
        command_laws::may_manage(label@, unlocked) && operation_laws::is_first(
            f.accounts@,
            id@,
            i,
        ) ==> (answer matches Ok(r) && operation_laws::same_account(r.account, f.accounts@[i])
            && command_laws::is_label_of(r.window@, id@) && (r.build <==> !is_open(open@, id@))),
{
    operation_laws::lemma_first(*f, id@, i);
    command_laws::law_opening(label@, unlocked, f@, id@, text::views(open@), i);
    lemma_is_open(open@, id@);
    if command_laws::may_manage(label@, unlocked) && operation_laws::is_first(
        f.accounts@,
        id@,
        i,
    ) {
        assert(f@.accounts[i] == f.accounts@[i]@);
        operation_laws::lemma_same_account(answer->Ok_0.account, f.accounts@[i]);
    }
}

// ---------------------------------------------------------------------------
// The app lock.
// ---------------------------------------------------------------------------

/// Whether two configurations agree in everything.
pub open spec fn same_config(c: AppLockConfig, d: AppLockConfig) -> bool {
    &&& d.enabled == c.enabled
    &&& operation_laws::same_opt(d.password_phc, c.password_phc)
    &&& keeps_options(c, d)
}

/// Whether two configurations agree but in the password and in whether the lock is
/// enabled.
pub open spec fn keeps_options(c: AppLockConfig, d: AppLockConfig) -> bool {
    &&& d.biometric_enabled == c.biometric_enabled
    &&& d.lock_on_launch == c.lock_on_launch
    &&& d.lock_on_hide == c.lock_on_hide
    &&& d.idle_secs == c.idle_secs
}

/// Whether a step is an error with this text.
pub open spec fn rejects(step: ConfigStep, e: Seq<char>) -> bool {
    step matches ConfigStep::Reject(s) && s@ == e
}

/// What a window without the right to manage is told.
pub open spec fn refuses(step: ConfigStep, label: Seq<char>, unlocked: bool) -> bool {
    !command_laws::may_manage(label, unlocked) ==> (step matches ConfigStep::Reject(s)
        && is_refusal(s@, label, unlocked))
}

/// `get_lock_status` tells every local window what is configured, also while the app
/// is locked.
pub proof fn law_of_the_status(
    label: &str,
    c: &AppLockConfig,
    active: bool,
    available: bool,
    biometric_label: &str,
    answer: Result<LockStatus, String>,
)
    requires
        call_ensures(
            commands::get_lock_status,
            (label, c, active, available, biometric_label),
            answer,
        ),
    ensures
        command_laws::is_wa(label@) ==> (answer matches Err(e) && e@ == "forbidden"@),
        !command_laws::is_wa(label@) ==> (answer matches Ok(s) && {
            &&& s.enabled == active
            &&& s.biometric_available == available
            &&& s.biometric_enabled <==> c.biometric_enabled && available
            &&& s.biometric_label@ == biometric_label@
            &&& s.lock_on_launch == c.lock_on_launch
            &&& s.lock_on_hide == c.lock_on_hide
            &&& s.idle_secs == c.idle_secs
        }),
{
    command_laws::law_status(label@, c@, active, available, biometric_label@);
}

/// The options are set to exactly the values asked for, whatever they were before,
/// and nothing else changes.
pub proof fn law_of_options(
    label: &str,
    unlocked: bool,
    c: &AppLockConfig,
    lock_on_launch: bool,
    lock_on_hide: bool,
    idle_secs: u32,
    step: ConfigStep,
)
    requires
        call_ensures(
            commands::set_app_lock_options,
            (label, unlocked, c, lock_on_launch, lock_on_hide, idle_secs),
            step,
        ),
    ensures
        refuses(step, label@, unlocked),
        command_laws::may_manage(label@, unlocked) ==> (step matches ConfigStep::Store(d) && {
            &&& d.lock_on_launch == lock_on_launch
            &&& d.lock_on_hide == lock_on_hide
            &&& d.idle_secs == idle_secs
            &&& d.enabled == c.enabled
            &&& operation_laws::same_opt(d.password_phc, c.password_phc)
            &&& d.biometric_enabled == c.biometric_enabled
        }),
{
    command_laws::law_options_are_those_asked_for(
        label@,
        unlocked,
        c@,
        lock_on_launch,
        lock_on_hide,
        idle_secs,
    );
}

/// A first password is hashed, and its hash stored, exactly where a local window of
/// an unlocked app asks, there is none yet, and both entries agree in four characters
/// or more. Storing it enables the lock and changes no option.
pub proof fn law_of_the_first_password(
    label: &str,
    unlocked: bool,
    c: &AppLockConfig,
    active: bool,
    new: &str,
    confirm: &str,
    hashed: Option<Result<String, String>>,
    step: ConfigStep,
)
    requires
        call_ensures(
            commands::set_app_lock_password,
            (label, unlocked, c, active, new, confirm, hashed),
            step,
        ),
    ensures
        ({
            let free = command_laws::may_manage(label@, unlocked) && !active;
            let good = free && new@ == confirm@ && new@.len() >= 4;
            &&& refuses(step, label@, unlocked)
            &&& command_laws::may_manage(label@, unlocked) && active ==> rejects(
                step,
                "app lock is already enabled"@,
            )
            &&& free && new@ != confirm@ ==> rejects(step, "passwords do not match"@)
            &&& free && new@ == confirm@ && new@.len() <= 3 ==> rejects(
                step,
                "password must be at least 4 characters"@,
            )
            &&& good ==> match hashed {
                None => step == ConfigStep::Hash,
                Some(Err(e)) => rejects(step, e@),
                Some(Ok(phc)) => step matches ConfigStep::Store(d) && d.enabled
                    && operation_laws::opt_is(d.password_phc, Some(phc@)) && keeps_options(*c, d),
            }
        }),
{
    let h = commands::hash_view(hashed);
    let phc = match hashed {
        Some(Ok(s)) => s@,
        Some(Err(s)) => s@,
        None => Seq::empty(),
    };
    command_laws::law_setting_the_first_password(
        label@,
        unlocked,
        c@,
        active,
        new@,
        confirm@,
        phc,
        phc,
        h,
    );
}

/// A password is changed only after the current one was verified against the stored
/// hash, and then as the first one is set; whether the lock is enabled stays.
pub proof fn law_of_changing_the_password(
    label: &str,
    unlocked: bool,
    c: &AppLockConfig,
    verified: Option<bool>,
    new: &str,
    confirm: &str,
    hashed: Option<Result<String, String>>,
    step: ConfigStep,
)
    requires
        call_ensures(
            commands::change_app_lock_password,
            (label, unlocked, c, verified, new, confirm, hashed),
            step,
        ),
    ensures
        ({
            let set = command_laws::may_manage(label@, unlocked) && c.password_phc is Some;
            let free = set && verified == Some(true);
            let good = free && new@ == confirm@ && new@.len() >= 4;
            &&& refuses(step, label@, unlocked)
            &&& command_laws::may_manage(label@, unlocked) && c.password_phc is None ==> rejects(
                step,
                "app lock is not enabled"@,
            )
            &&& set && verified is None ==> (step matches ConfigStep::Verify(phc) && phc@
                == c.password_phc->0@)
            &&& set && verified == Some(false) ==> rejects(step, "current password is incorrect"@)
            &&& free && new@ != confirm@ ==> rejects(step, "passwords do not match"@)
            &&& free && new@ == confirm@ && new@.len() <= 3 ==> rejects(
                step,
                "password must be at least 4 characters"@,
            )
            &&& good ==> match hashed {
                None => step == ConfigStep::Hash,
                Some(Err(e)) => rejects(step, e@),
                Some(Ok(phc)) => step matches ConfigStep::Store(d) && d.enabled == c.enabled
                    && operation_laws::opt_is(d.password_phc, Some(phc@)) && keeps_options(*c, d),
            }
        }),
{
    let h = commands::hash_view(hashed);
    let phc = match hashed {
        Some(Ok(s)) => s@,
        Some(Err(s)) => s@,
        None => Seq::empty(),
    };
    command_laws::law_changing_the_password(
        label@,
        unlocked,
        c@,
        verified,
        new@,
        confirm@,
        phc,
        phc,
        h,
    );
}

/// The lock is disabled only after the password was verified against the stored hash;
/// what is stored are the defaults.
pub proof fn law_of_disabling(
    label: &str,
    unlocked: bool,
    c: &AppLockConfig,
    verified: Option<bool>,
    defaults: &AppLockConfig,
    step: ConfigStep,
)
    requires
        call_ensures(commands::disable_app_lock, (label, unlocked, c, verified, defaults), step),
    ensures
        ({
            let set = command_laws::may_manage(label@, unlocked) && c.password_phc is Some;
            &&& refuses(step, label@, unlocked)
            &&& command_laws::may_manage(label@, unlocked) && c.password_phc is None ==> rejects(
                step,
                "app lock is not enabled"@,
            )
            &&& set && verified is None ==> (step matches ConfigStep::Verify(phc) && phc@
                == c.password_phc->0@)
            &&& set && verified == Some(false) ==> rejects(step, "current password is incorrect"@)
            &&& set && verified == Some(true) ==> (step matches ConfigStep::Store(d)
                && same_config(*defaults, d))
        }),
{
    command_laws::law_disabling(label@, unlocked, c@, verified, defaults@);
}

/// Biometric unlock is enabled only with a lock, on a device that offers it and after
/// a test that succeeded, and disabled at once. Nothing else changes.
pub proof fn law_of_biometric_unlock(
    label: &str,
    unlocked: bool,
    c: &AppLockConfig,
    active: bool,
    available: bool,
    enabled: bool,
    tested: Option<Result<bool, String>>,
    step: ConfigStep,
)
    requires
        call_ensures(
            commands::set_biometric_enabled,
            (label, unlocked, c, active, available, enabled, tested),
            step,
        ),
    ensures
        ({
            let on = command_laws::may_manage(label@, unlocked) && enabled;
            let ready = on && active && available;
            let off = command_laws::may_manage(label@, unlocked) && !enabled;
            &&& refuses(step, label@, unlocked)
            &&& on && !active ==> rejects(step, "set an app-lock password first"@)
            &&& on && active && !available ==> rejects(
                step,
                "biometric authentication is not available on this device"@,
            )
            &&& ready ==> match tested {
                None => step == ConfigStep::Authenticate,
                Some(Err(e)) => rejects(step, e@),
                Some(Ok(success)) => !success ==> rejects(step, "biometric test did not succeed"@),
            }
            &&& (ready && tested == Some(Ok::<_, String>(true))) || off ==> (
            step matches ConfigStep::Store(d) && {
                &&& d.biometric_enabled == enabled
                &&& d.enabled == c.enabled
                &&& operation_laws::same_opt(d.password_phc, c.password_phc)
                &&& d.lock_on_launch == c.lock_on_launch
                &&& d.lock_on_hide == c.lock_on_hide
                &&& d.idle_secs == c.idle_secs
            })
        }),
{
    let e = match tested {
        Some(Err(s)) => s@,
        _ => Seq::empty(),
    };
    command_laws::law_setting_biometric_unlock(
        label@,
        unlocked,
        c@,
        active,
        available,
        enabled,
        e,
        commands::test_view(tested),
    );
}

/// A local window locks the app exactly where the lock is active.
pub proof fn law_of_locking_on_request(label: &str, active: bool, answer: Result<(), String>)
    requires
        call_ensures(commands::lock_app, (label, active), answer),
    ensures
        answer is Ok <==> !command_laws::is_wa(label@) && active,
        answer matches Err(e) ==> if command_laws::is_wa(label@) {
            e@ == "forbidden"@
        } else {
            e@ == "app lock is not enabled"@
        },
{
    command_laws::law_locking_on_request(label@, active);
}

/// The lock window alone unlocks: with the password where it verifies against the
/// stored hash, at once where none is stored.
pub proof fn law_of_unlocking_by_password(
    label: &str,
    c: &AppLockConfig,
    verified: Option<bool>,
    step: UnlockStep,
)
    requires
        call_ensures(commands::unlock_password, (label, c, verified), step),
    ensures
        label@ != "lock"@ ==> (step matches UnlockStep::Reject(e) && e@ == "forbidden"@),
        label@ == "lock"@ ==> match (c.password_phc, verified) {
            (None, _) => step == UnlockStep::Unlock,
            (Some(phc), None) => step matches UnlockStep::Verify(h) && h@ == phc@,
            (Some(_), Some(ok)) => ok && step == UnlockStep::Unlock || !ok && step
                == UnlockStep::Refuse,
        },
{
    command_laws::law_unlocking_with_the_password(label@, c@.password_phc, verified);
}

/// The lock window alone unlocks by biometric authentication, where that is enabled
/// and succeeds.
pub proof fn law_of_unlocking_by_biometrics(
    label: &str,
    c: &AppLockConfig,
    tested: Option<Result<bool, String>>,
    step: UnlockStep,
)
    requires
        call_ensures(commands::unlock_biometric, (label, c, tested), step),
    ensures
        label@ != "lock"@ ==> (step matches UnlockStep::Reject(e) && e@ == "forbidden"@),
        label@ == "lock"@ && !c.biometric_enabled ==> (step matches UnlockStep::Reject(e) && e@
            == "biometric unlock is not enabled"@),
        label@ == "lock"@ && c.biometric_enabled ==> match tested {
            None => step == UnlockStep::Authenticate,
            Some(Err(e)) => step matches UnlockStep::Reject(d) && d@ == e@,
            Some(Ok(ok)) => ok && step == UnlockStep::Unlock || !ok && step == UnlockStep::Refuse,
        },
{
    let e = match tested {
        Some(Err(s)) => s@,
        _ => Seq::empty(),
    };
    command_laws::law_unlocking_with_biometrics(
        label@,
        c.biometric_enabled,
        e,
        commands::test_view(tested),
    );
}

/// A new password is at fault where it is not confirmed, and where it is shorter than
/// four characters.
pub proof fn law_of_password_faults(new: &str, confirm: &str, fault: Option<String>)
    requires
        call_ensures(commands::new_password_fault, (new, confirm), fault),
    ensures
        new@ != confirm@ ==> operation_laws::opt_is(fault, Some("passwords do not match"@)),
        new@ == confirm@ && new@.len() <= 3 ==> operation_laws::opt_is(
            fault,
            Some("password must be at least 4 characters"@),
        ),
        new@ == confirm@ && new@.len() >= 4 ==> fault is None,
{
}

/// `refusal_to_add` and `add_account` refuse the same requests, with the same words.
pub proof fn law_of_refusing_to_add(
    label: &str,
    unlocked: bool,
    isolation: Option<String>,
    f: &mut AccountsFile,
    name: &str,
    ids: &mut StoreIds,
    answer: Result<(Account, AccountView), String>,
    refused: Option<String>,
)
    requires
        call_ensures(commands::add_account, (label, unlocked, isolation, f, name, ids), answer),
        call_ensures(commands::refusal_to_add, (label, unlocked, &isolation, name), refused),
    ensures
        match answer {
            Ok(_) => refused is None,
            Err(e) => operation_laws::opt_is(refused, Some(e@)),
        },
{
}

} // verus!
