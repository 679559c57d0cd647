//! The commands of the windows: who may call them, what they answer, and what
//! they do to the accounts, the unread counts and the app-lock configuration.
//!
//! Account windows hold a remote page. They may notify and report their unread
//! count; every other command is refused to them.
//!
//! A command that needs something of the outside in between (a password hashed or
//! verified, a biometric test) is a function of what is known so far. It answers
//! what to do next, and is called again with the outcome.

use vstd::prelude::*;
use vstd::string::*;

use crate::accounts;
use crate::accounts::{
    aggregate_unread, checked_unread, copy_of, find, id_from_label, remove, rename, window_label, Account,
    AccountModel, AccountsFile, FileModel, UnreadMap,
};
use crate::lock::is_lock_label;
use crate::notify;
use crate::notify::{
    maybe_unread_toast, name_of_window, record_shim_notify, Decision, DecisionModel, LogModel,
    Suppressed, Toast, ToastLog,
};
use crate::store_id::StoreIds;
use crate::text;
use crate::text::{chars_of, has_prefix, joined, same_text, string_of, trim};

verus! {

// ---------------------------------------------------------------------------
// Who may call.
// ---------------------------------------------------------------------------

/// Whether a label is that of a window with a remote page.
pub open spec fn spec_is_remote(label: Seq<char>) -> bool {
    "wa-"@.is_prefix_of(label)
}

/// Whether a label is that of a window with a remote page.
pub fn is_remote_label(label: &str) -> (remote: bool)
    ensures
        remote == spec_is_remote(label@),
{
    has_prefix(label, "wa-")
}

/// Why a command of a local window is refused, if it is: the window is remote, or
/// the app is locked.
pub open spec fn refusal(label: Seq<char>, unlocked: bool) -> Option<Seq<char>> {
    if spec_is_remote(label) {
        Some("forbidden"@)
    } else if !unlocked {
        Some("locked"@)
    } else {
        None
    }
}

/// The guard of the commands that are for local windows of an unlocked app:
/// those on the settings, on the accounts and on the app-lock configuration.
pub fn guard(label: &str, unlocked: bool) -> (pass: Result<(), String>)
    ensures
        match pass {
            Ok(_) => refusal(label@, unlocked) is None,
            Err(e) => refusal(label@, unlocked) == Some(e@),
        },
{
    if is_remote_label(label) {
        return Err("forbidden".to_owned());
    }
    crate::lock::require_unlocked(unlocked)
}

/// Why a command of the lock window is refused, if it is: it comes from another
/// window.
pub open spec fn lock_window_refusal(label: Seq<char>) -> Option<Seq<char>> {
    if label == "lock"@ {
        None
    } else {
        Some("forbidden"@)
    }
}

/// The guard of the commands of the lock window.
pub fn lock_window_guard(label: &str) -> (pass: Result<(), String>)
    ensures
        match pass {
            Ok(_) => label@ == "lock"@,
            Err(e) => label@ != "lock"@ && e@ == "forbidden"@,
        },
        match pass {
            Ok(_) => lock_window_refusal(label@) is None,
            Err(e) => lock_window_refusal(label@) == Some(e@),
        },
{
    if is_lock_label(label) {
        Ok(())
    } else {
        Err("forbidden".to_owned())
    }
}

// ---------------------------------------------------------------------------
// Commands of the page.
// ---------------------------------------------------------------------------

/// The log line of a message from the page: at most 300 characters of it.
pub open spec fn spec_dlog(msg: Seq<char>) -> Seq<char> {
    "js: "@ + if msg.len() <= 300 {
        msg
    } else {
        msg.take(300)
    }
}

/// The log line of a message from the page: at most 300 characters of it.
pub fn dlog(msg: &str) -> (line: String)
    ensures
        line@ == spec_dlog(msg@),
{
    let chars: Vec<char> = chars_of(msg);
    let n: usize = if chars.len() <= 300 {
        chars.len()
    } else {
        300
    };
    let kept: String = string_of(&chars, 0, n);
    assert(chars@.len() <= 300 ==> kept@ == msg@);
    assert(chars@.len() > 300 ==> kept@ == msg@.take(300));
    joined("js: ", &kept)
}

/// Decides on a toast that the page of a window asks for. That it asked is
/// recorded, whatever is decided.
pub fn notify(
    log: &mut ToastLog,
    f: &AccountsFile,
    label: &str,
    title: &str,
    body: &str,
    now: u64,
    unlocked: bool,
    notifications: bool,
) -> (d: Decision)
    ensures
        final(log)@ == notify::shim_recorded(old(log)@, label@, now),
        d@ == notify::spec_page_toast(f@, label@, title@, body@, unlocked, notifications),
{
    record_shim_notify(log, label, now);
    if !unlocked {
        return Decision::Suppress(Suppressed::Locked);
    }
    if !notifications {
        return Decision::Suppress(Suppressed::Disabled);
    }
    let full: String = match name_of_window(f, label) {
        Some(name) => joined(&joined(&name, ": "), title),
        None => title.to_owned(),
    };
    Decision::Show(Toast { title: full, body: body.to_owned() })
}

/// What a reported unread count leads to.
#[derive(Debug, PartialEq, Eq)]
pub struct UnreadUpdate {
    /// The sum over all accounts, for the badge.
    pub total: u32,
    /// What is decided on a toast, where the count rose.
    pub toast: Option<Decision>,
}

/// The view of an `UnreadUpdate`.
pub struct UpdateModel {
    pub total: nat,
    pub toast: Option<DecisionModel>,
}

impl View for UnreadUpdate {
    type V = UpdateModel;

    open spec fn view(&self) -> UpdateModel {
        UpdateModel {
            total: self.total as nat,
            toast: match self.toast {
                Some(d) => Some(d@),
                None => None,
            },
        }
    }
}

/// The unread count of an account; zero for one that has reported none.
pub open spec fn unread_of(m: Map<Seq<char>, u32>, id: Seq<char>) -> u32 {
    if m.contains_key(id) {
        m[id]
    } else {
        0
    }
}

/// The toast log after the account `id` of a window has reported a count, and what
/// comes of it.
pub open spec fn spec_set_unread(
    m: Map<Seq<char>, u32>,
    log: LogModel,
    f: FileModel,
    label: Seq<char>,
    id: Seq<char>,
    count: u32,
    now: u64,
    unlocked: bool,
    notifications: bool,
    watched: bool,
) -> (LogModel, UpdateModel) {
    let total = accounts::map_total(m.insert(id, count));
    if count > unread_of(m, id) {
        let (after, d) = notify::spec_unread_toast(
            log,
            f,
            label,
            count,
            now,
            unlocked,
            notifications,
            watched,
        );
        (after, UpdateModel { total, toast: Some(d) })
    } else {
        (log, UpdateModel { total, toast: None })
    }
}

/// The unread counts and the toast log after a window has reported a count, and
/// what comes of it; nothing for a window of another kind.
pub open spec fn spec_report(
    m: Map<Seq<char>, u32>,
    log: LogModel,
    f: FileModel,
    label: Seq<char>,
    count: u32,
    now: u64,
    unlocked: bool,
    notifications: bool,
    watched: bool,
) -> (Map<Seq<char>, u32>, LogModel, Option<UpdateModel>) {
    match accounts::spec_id_from_label(label) {
        Some(id) => {
            let (after, update) = spec_set_unread(
                m,
                log,
                f,
                label,
                id,
                count,
                now,
                unlocked,
                notifications,
                watched,
            );
            (m.insert(id, count), after, Some(update))
        },
        None => (m, log, None),
    }
}

/// The view of what a reported count leads to.
pub open spec fn opt_update_view(update: Option<UnreadUpdate>) -> Option<UpdateModel> {
    match update {
        Some(u) => Some(u@),
        None => None,
    }
}

/// Whether the sum over all accounts still fits when a window reports a count.
pub fn unread_fits(map: &UnreadMap, label: &str, count: u32) -> (fits: bool)
    ensures
        fits == (accounts::spec_id_from_label(label@) matches Some(id) ==> accounts::map_total(
            map@.insert(id, count),
        ) <= u32::MAX),
{
    match id_from_label(label) {
        None => true,
        Some(id) => {
            let mut after: UnreadMap = map.clone();
            after.insert(id.to_owned(), count);
            checked_unread(&after).is_some()
        },
    }
}

/// Takes in the unread count of an account window, and decides on a toast where
/// the count rose. A window of another kind changes nothing. `watched` says
/// whether the window is visible and focused.
pub fn set_unread(
    map: &mut UnreadMap,
    log: &mut ToastLog,
    f: &AccountsFile,
    label: &str,
    count: u32,
    now: u64,
    unlocked: bool,
    notifications: bool,
    watched: bool,
) -> (update: Option<UnreadUpdate>)
    requires
        accounts::spec_id_from_label(label@) matches Some(id) ==> accounts::map_total(
            old(map)@.insert(id, count),
        ) <= u32::MAX,
    ensures
        match accounts::spec_id_from_label(label@) {
            Some(id) => {
                &&& final(map)@ == old(map)@.insert(id, count)
                &&& update matches Some(u) && (final(log)@, u@) == spec_set_unread(
                    old(map)@,
                    old(log)@,
                    f@,
                    label@,
                    id,
                    count,
                    now,
                    unlocked,
                    notifications,
                    watched,
                )
            },
            None => final(map)@ == old(map)@ && final(log)@ == old(log)@ && update is None,
        },
        (final(map)@, final(log)@, opt_update_view(update)) == spec_report(
            old(map)@,
            old(log)@,
            f@,
            label@,
            count,
            now,
            unlocked,
            notifications,
            watched,
        ),
{
    match id_from_label(label) {
        None => None,
        Some(id) => {
            let previous: u32 = match map.get(id) {
                Some(c) => c,
                None => 0,
            };
            map.insert(id.to_owned(), count);
            let total: u32 = aggregate_unread(map);
            let toast: Option<Decision> = if count > previous {
                Some(
                    maybe_unread_toast(
                        log,
                        f,
                        label,
                        count,
                        now,
                        unlocked,
                        notifications,
                        watched,
                    ),
                )
            } else {
                None
            };
            Some(UnreadUpdate { total, toast })
        },
    }
}

// ---------------------------------------------------------------------------
// Listing the accounts.
// ---------------------------------------------------------------------------

/// An account as the settings window lists it.
#[derive(Debug, Clone, PartialEq, Eq)]
pub struct AccountView {
    pub id: String,
    pub name: String,
    pub order: u32,
    pub unread: u32,
    pub open: bool,
}

/// The view of an `AccountView`.
pub struct ListedModel {
    pub id: Seq<char>,
    pub name: Seq<char>,
    pub order: nat,
    pub unread: u32,
    pub open: bool,
}

impl View for AccountView {
    type V = ListedModel;

    open spec fn view(&self) -> ListedModel {
        ListedModel {
            id: self.id@,
            name: self.name@,
            order: self.order as nat,
            unread: self.unread,
            open: self.open,
        }
    }
}

/// The views of a list of `AccountView`s.
pub open spec fn listed_models(views: Seq<AccountView>) -> Seq<ListedModel> {
    views.map_values(|v: AccountView| v@)
}

/// An account as it is listed, where `open` holds the labels of the open windows.
pub open spec fn listed(
    a: AccountModel,
    unread: Map<Seq<char>, u32>,
    open: Seq<Seq<char>>,
) -> ListedModel {
    ListedModel {
        id: a.id,
        name: a.name,
        order: a.order,
        unread: unread_of(unread, a.id),
        open: open.contains(accounts::spec_window_label(a.id)),
    }
}

/// `views` with `v` put after the last one whose order is not higher.
pub open spec fn placed(views: Seq<ListedModel>, v: ListedModel) -> Seq<ListedModel>
    decreases views.len(),
{
    if views.len() == 0 || views.last().order <= v.order {
        views.push(v)
    } else {
        placed(views.drop_last(), v).push(views.last())
    }
}

/// The accounts as they are listed: in order, those of one order as in the file.
pub open spec fn spec_account_views(
    accts: Seq<AccountModel>,
    unread: Map<Seq<char>, u32>,
    open: Seq<Seq<char>>,
) -> Seq<ListedModel>
    decreases accts.len(),
{
    if accts.len() == 0 {
        Seq::empty()
    } else {
        placed(
            spec_account_views(accts.drop_last(), unread, open),
            listed(accts.last(), unread, open),
        )
    }
}

/// Whether a list of strings holds `s`.
fn holds_text(strings: &Vec<String>, s: &str) -> (found: bool)
    ensures
        found == text::views(strings@).contains(s@),
{
    let ghost all = text::views(strings@);
    let mut i: usize = 0;
    while i < strings.len()
        invariant
            i <= strings@.len(),
            all == text::views(strings@),
            forall|j: int| 0 <= j < i ==> #[trigger] all[j] != s@,
        decreases strings@.len() - i,
    {
        assert(all[i as int] == strings@[i as int]@);
        if same_text(&strings[i], s) {
            return true;
        }
        i += 1;
    }
    false
}

proof fn lemma_placed_at(views: Seq<ListedModel>, v: ListedModel, at: int)
    requires
        0 <= at <= views.len(),
        at > 0 ==> views[at - 1].order <= v.order,
        forall|j: int| at <= j < views.len() ==> (#[trigger] views[j]).order > v.order,
    ensures
        placed(views, v) == views.insert(at, v),
    decreases views.len(),
{
    if at == views.len() {
        assert(views.insert(at, v) == views.push(v));
    } else {
        let init = views.drop_last();
        assert(views[views.len() - 1].order > v.order);
        lemma_placed_at(init, v, at);
        assert(init.insert(at, v).push(views.last()) == views.insert(at, v));
    }
}

/// Puts a view after the last one whose order is not higher.
fn place(views: &mut Vec<AccountView>, v: AccountView)
    ensures
        listed_models(final(views)@) == placed(listed_models(old(views)@), v@),
{
    let ghost before = listed_models(views@);
    let mut at: usize = views.len();
    while at > 0 && views[at - 1].order > v.order
        invariant
            at <= views@.len(),
            before == listed_models(views@),
            forall|j: int| at <= j < views@.len() ==> (#[trigger] before[j]).order > v.order,
        decreases at,
    {
        assert(before[at - 1] == views@[at - 1]@);
        at -= 1;
    }
    proof {
        if at > 0 {
            assert(before[at - 1] == views@[at - 1]@);
        }
        lemma_placed_at(before, v@, at as int);
    }
    views.insert(at, v);
    assert(listed_models(views@) == before.insert(at as int, v@));
}

/// The accounts as they are listed, where `open` holds the labels of the open
/// windows: in order, those of one order as in the file.
pub fn account_views(f: &AccountsFile, unread: &UnreadMap, open: &Vec<String>) -> (views: Vec<
    AccountView,
>)
    ensures
        listed_models(views@) == spec_account_views(f@.accounts, unread@, text::views(open@)),
{
    let ghost all = f@.accounts;
    let ghost labels = text::views(open@);
    let mut views: Vec<AccountView> = Vec::new();
    let mut i: usize = 0;
    assert(listed_models(views@) == spec_account_views(all.take(0), unread@, labels));
    while i < f.accounts.len()
        invariant
            i <= f.accounts@.len(),
            all == accounts::account_models(f.accounts@),
            labels == text::views(open@),
            listed_models(views@) == spec_account_views(all.take(i as int), unread@, labels),
        decreases f.accounts@.len() - i,
    {
        assert(all.take(i + 1).drop_last() == all.take(i as int));
        assert(all.take(i + 1).last() == f.accounts@[i as int]@);
        let a: &Account = &f.accounts[i];
        let count: u32 = match unread.get(&a.id) {
            Some(c) => c,
            None => 0,
        };
        let v: AccountView = AccountView {
            id: a.id.clone(),
            name: a.name.clone(),
            order: a.order,
            unread: count,
            open: holds_text(open, &window_label(&a.id)),
        };
        assert(v@ == listed(a@, unread@, labels));
        place(&mut views, v);
        i += 1;
    }
    assert(all.take(i as int) == all);
    views
}

/// Lists the accounts.
pub fn list_accounts(
    label: &str,
    unlocked: bool,
    f: &AccountsFile,
    unread: &UnreadMap,
    open: &Vec<String>,
) -> (answer: Result<Vec<AccountView>, String>)
    ensures
        match answer {
            Ok(views) => refusal(label@, unlocked) is None && listed_models(views@)
                == spec_account_views(f@.accounts, unread@, text::views(open@)),
            Err(e) => refusal(label@, unlocked) == Some(e@),
        },
{
    match guard(label, unlocked) {
        Ok(_) => Ok(account_views(f, unread, open)),
        Err(e) => Err(e),
    }
}

// ---------------------------------------------------------------------------
// Changing the accounts.
// ---------------------------------------------------------------------------

/// Why an account cannot be added, if it cannot. `isolation` is the error of a
/// system that cannot keep accounts apart.
pub open spec fn add_refusal(
    label: Seq<char>,
    unlocked: bool,
    isolation: Option<Seq<char>>,
    name: Seq<char>,
) -> Option<Seq<char>> {
    match refusal(label, unlocked) {
        Some(e) => Some(e),
        None => match isolation {
            Some(e) => Some(e),
            None => if text::trimmed(name).len() == 0 {
                Some("account name cannot be empty"@)
            } else {
                None
            },
        },
    }
}

/// Why an account cannot be added, if it cannot: a refused window, a system that
/// cannot keep accounts apart, or a name of white space.
pub fn refusal_to_add(
    label: &str,
    unlocked: bool,
    isolation: &Option<String>,
    name: &str,
) -> (refused: Option<String>)
    ensures
        text::opt_string_view(refused) == add_refusal(
            label@,
            unlocked,
            text::opt_string_view(*isolation),
            name@,
        ),
{
    if let Err(e) = guard(label, unlocked) {
        return Some(e);
    }
    if let Some(e) = isolation {
        return Some(e.clone());
    }
    if trim(name).is_empty() {
        return Some("account name cannot be empty".to_owned());
    }
    None
}

/// An account that was just added, as it is listed.
pub open spec fn fresh_listing(a: AccountModel) -> ListedModel {
    ListedModel { id: a.id, name: a.name, order: a.order, unread: 0, open: true }
}

/// What adding an account does where it is not refused: the file after it, the
/// account, and how it is listed.
pub open spec fn spec_add_account(f: FileModel, name: Seq<char>, uuid: Seq<u8>) -> (
    FileModel,
    AccountModel,
    ListedModel,
) {
    let a = accounts::new_account(f, text::trimmed(name), uuid);
    (accounts::file_added(f, text::trimmed(name), uuid), a, fresh_listing(a))
}

/// Adds an account with the trimmed name. `isolation` is the error of a system
/// that cannot keep accounts apart. On success the account and its listing are
/// returned; the file is then to be saved and the account's window opened.
pub fn add_account(
    label: &str,
    unlocked: bool,
    isolation: Option<String>,
    f: &mut AccountsFile,
    name: &str,
    ids: &mut StoreIds,
) -> (answer: Result<(Account, AccountView), String>)
    requires
        add_refusal(label@, unlocked, text::opt_string_view(isolation), name@) is None
            ==> accounts::has_room(old(f)@),
    ensures
        match answer {
            Ok(added) => {
                &&& add_refusal(label@, unlocked, text::opt_string_view(isolation), name@) is None
                &&& added.0@.store_uuid matches Some(uuid) && {
                    &&& added.0@ == accounts::new_account(old(f)@, text::trimmed(name@), uuid)
                    &&& final(f)@ == accounts::file_added(old(f)@, text::trimmed(name@), uuid)
                    &&& (final(f)@, added.0@, added.1@) == spec_add_account(
                        old(f)@,
                        name@,
                        uuid,
                    )
                    &&& exists|reading: Option<u128>|
                        uuid == crate::store_id::store_uuid(
                            #[trigger] crate::store_id::spec_clock_word(reading),
                            old(ids).counter,
                        )
                }
                &&& added.1@ == fresh_listing(added.0@)
                &&& final(ids).counter == vstd::wrapping::u64_specs::wrapping_add(
                    old(ids).counter,
                    1,
                )
            },
            Err(e) => {
                &&& add_refusal(label@, unlocked, text::opt_string_view(isolation), name@) == Some(
                    e@,
                )
                &&& *final(f) == *old(f)
                &&& *final(ids) == *old(ids)
            },
        },
{
    if let Some(e) = refusal_to_add(label, unlocked, &isolation, name) {
        return Err(e);
    }
    let acct: Account = crate::accounts::add(f, trim(name), ids);
    let view: AccountView = AccountView {
        id: acct.id.clone(),
        name: acct.name.clone(),
        order: acct.order,
        unread: 0,
        open: true,
    };
    Ok((acct, view))
}

/// What removing an account does: the file after it and the removed account, or
/// the error.
pub open spec fn spec_remove_account(
    label: Seq<char>,
    unlocked: bool,
    f: FileModel,
    id: Seq<char>,
) -> Result<(FileModel, AccountModel), Seq<char>> {
    match refusal(label, unlocked) {
        Some(e) => Err(e),
        None => accounts::spec_remove(f, id),
    }
}

/// Removes an account. On success the file is to be saved; then the account's
/// window and profile go, and `forget_unread` drops its count.
pub fn remove_account(label: &str, unlocked: bool, f: &mut AccountsFile, id: &str) -> (answer:
    Result<Account, String>)
    ensures
        match answer {
            Ok(a) => spec_remove_account(label@, unlocked, old(f)@, id@) == Ok::<_, Seq<char>>(
                (final(f)@, a@),
            ),
            Err(e) => spec_remove_account(label@, unlocked, old(f)@, id@) == Err::<
                (FileModel, AccountModel),
                _,
            >(e@) && *final(f) == *old(f),
        },
{
    match guard(label, unlocked) {
        Ok(_) => remove(f, id),
        Err(e) => Err(e),
    }
}

/// The unread counts without that of an account, and their sum.
pub open spec fn spec_forget(m: Map<Seq<char>, u32>, id: Seq<char>) -> (
    Map<Seq<char>, u32>,
    nat,
) {
    (m.remove(id), accounts::map_total(m.remove(id)))
}

/// Drops the unread count of a removed account and returns the sum of the others.
pub fn forget_unread(map: &mut UnreadMap, id: &str) -> (total: u32)
    requires
        accounts::map_total(old(map)@.remove(id@)) <= u32::MAX,
    ensures
        final(map)@ == old(map)@.remove(id@),
        total == accounts::map_total(old(map)@.remove(id@)),
        (final(map)@, total as nat) == spec_forget(old(map)@, id@),
{
    map.remove(id);
    aggregate_unread(map)
}

/// A window and the title that it gets.
#[derive(Debug, PartialEq, Eq)]
pub struct WindowTitle {
    pub label: String,
    pub title: String,
}

/// The window of a renamed account and the title that it gets.
pub open spec fn spec_window_title(id: Seq<char>, name: Seq<char>) -> (Seq<char>, Seq<char>) {
    (accounts::spec_window_label(id), "whatRust — "@ + text::trimmed(name))
}

/// What renaming an account does: the file after it, or the error.
pub open spec fn spec_rename_account(
    label: Seq<char>,
    unlocked: bool,
    f: FileModel,
    id: Seq<char>,
    name: Seq<char>,
) -> Result<FileModel, Seq<char>> {
    match refusal(label, unlocked) {
        Some(e) => Err(e),
        None => if text::trimmed(name).len() == 0 {
            Err("account name cannot be empty"@)
        } else {
            accounts::spec_rename(f, id, text::trimmed(name))
        },
    }
}

/// Gives an account the trimmed name. On success the file is to be saved, and the
/// account's window, if it is open, gets the title that is returned.
pub fn rename_account(label: &str, unlocked: bool, f: &mut AccountsFile, id: &str, name: &str) -> (
    answer: Result<WindowTitle, String>)
    ensures
        match answer {
            Ok(w) => {
                &&& spec_rename_account(label@, unlocked, old(f)@, id@, name@) == Ok::<_, Seq<char>>(
                    final(f)@,
                )
                &&& w.label@ == accounts::spec_window_label(id@)
                &&& w.title@ == "whatRust — "@ + text::trimmed(name@)
                &&& (w.label@, w.title@) == spec_window_title(id@, name@)
            },
            Err(e) => spec_rename_account(label@, unlocked, old(f)@, id@, name@) == Err::<
                FileModel,
                _,
            >(e@) && *final(f) == *old(f),
        },
{
    if let Err(e) = guard(label, unlocked) {
        return Err(e);
    }
    let name: &str = trim(name);
    if name.is_empty() {
        return Err("account name cannot be empty".to_owned());
    }
    match rename(f, id, name) {
        Ok(_) => Ok(WindowTitle { label: window_label(id), title: joined("whatRust — ", name) }),
        Err(e) => Err(e),
    }
}

/// An account to open.
#[derive(Debug, PartialEq, Eq)]
pub struct OpenRequest {
    pub account: Account,
    /// The label of its window, which becomes the active one.
    pub window: String,
    /// Whether the window is to be built before it is shown.
    pub build: bool,
}

/// What opening an account asks for: the account, its window, and whether that is
/// to be built; or the error.
pub open spec fn spec_open_account(
    label: Seq<char>,
    unlocked: bool,
    f: FileModel,
    id: Seq<char>,
    open: Seq<Seq<char>>,
) -> Result<(AccountModel, Seq<char>, bool), Seq<char>> {
    match refusal(label, unlocked) {
        Some(e) => Err(e),
        None => match accounts::spec_find(f.accounts, id) {
            Some(a) => Ok(
                (
                    a,
                    accounts::spec_window_label(id),
                    !open.contains(accounts::spec_window_label(id)),
                ),
            ),
            None => Err(accounts::unknown_account(id)),
        },
    }
}

/// Opens an account: its window is built if it is not among the `open` ones,
/// shown, and becomes the active one.
pub fn open_account(
    label: &str,
    unlocked: bool,
    f: &AccountsFile,
    id: &str,
    open: &Vec<String>,
) -> (answer: Result<OpenRequest, String>)
    ensures
        match answer {
            Ok(r) => {
                &&& refusal(label@, unlocked) is None
                &&& accounts::spec_find(f@.accounts, id@) == Some(r.account@)
                &&& r.window@ == accounts::spec_window_label(id@)
                &&& r.build == !text::views(open@).contains(r.window@)
            },
            Err(e) => match refusal(label@, unlocked) {
                Some(why) => e@ == why,
                None => accounts::spec_find(f@.accounts, id@) is None && e@
                    == accounts::unknown_account(id@),
            },
        },
        match answer {
            Ok(r) => spec_open_account(label@, unlocked, f@, id@, text::views(open@)) == Ok::<
                _,
                Seq<char>,
            >((r.account@, r.window@, r.build)),
            Err(e) => spec_open_account(label@, unlocked, f@, id@, text::views(open@)) == Err::<
                (AccountModel, Seq<char>, bool),
                _,
            >(e@),
        },
{
    if let Err(e) = guard(label, unlocked) {
        return Err(e);
    }
    match find(&f.accounts, id) {
        None => Err(joined("unknown account: ", id)),
        Some(a) => {
            proof {
                accounts::lemma_index_of(f@.accounts, id@);
            }
            let window: String = window_label(&a.id);
            let build: bool = !holds_text(open, &window);
            Ok(OpenRequest { account: copy_of(a), window, build })
        },
    }
}

// ---------------------------------------------------------------------------
// The app-lock configuration.
// ---------------------------------------------------------------------------

/// The persisted app-lock configuration.
#[derive(Debug, Clone, PartialEq, Eq)]
pub struct AppLockConfig {
    pub enabled: bool,
    /// The password hash, in PHC string format.
    pub password_phc: Option<String>,
    pub biometric_enabled: bool,
    pub lock_on_launch: bool,
    pub lock_on_hide: bool,
    pub idle_secs: u32,
}

/// The view of an `AppLockConfig`.
pub struct ConfigModel {
    pub enabled: bool,
    pub password_phc: Option<Seq<char>>,
    pub biometric_enabled: bool,
    pub lock_on_launch: bool,
    pub lock_on_hide: bool,
    pub idle_secs: u32,
}

impl View for AppLockConfig {
    type V = ConfigModel;

    open spec fn view(&self) -> ConfigModel {
        ConfigModel {
            enabled: self.enabled,
            password_phc: text::opt_string_view(self.password_phc),
            biometric_enabled: self.biometric_enabled,
            lock_on_launch: self.lock_on_launch,
            lock_on_hide: self.lock_on_hide,
            idle_secs: self.idle_secs,
        }
    }
}

/// A copy of an optional string.
fn copied(s: &Option<String>) -> (t: Option<String>)
    ensures
        text::opt_string_view(t) == text::opt_string_view(*s),
{
    match s {
        Some(s) => Some(s.clone()),
        None => None,
    }
}

/// A copy of a configuration.
fn config_copy(c: &AppLockConfig) -> (d: AppLockConfig)
    ensures
        d@ == c@,
{
    AppLockConfig {
        enabled: c.enabled,
        password_phc: copied(&c.password_phc),
        biometric_enabled: c.biometric_enabled,
        lock_on_launch: c.lock_on_launch,
        lock_on_hide: c.lock_on_hide,
        idle_secs: c.idle_secs,
    }
}

/// The status of the app lock, for the settings window and the lock screen. The
/// password hash is not in it.
#[derive(Debug, Clone, PartialEq, Eq)]
pub struct LockStatus {
    pub enabled: bool,
    pub biometric_available: bool,
    pub biometric_enabled: bool,
    pub biometric_label: String,
    pub lock_on_launch: bool,
    pub lock_on_hide: bool,
    pub idle_secs: u32,
}

/// The view of a `LockStatus`.
pub struct StatusModel {
    pub enabled: bool,
    pub biometric_available: bool,
    pub biometric_enabled: bool,
    pub biometric_label: Seq<char>,
    pub lock_on_launch: bool,
    pub lock_on_hide: bool,
    pub idle_secs: u32,
}

impl View for LockStatus {
    type V = StatusModel;

    open spec fn view(&self) -> StatusModel {
        StatusModel {
            enabled: self.enabled,
            biometric_available: self.biometric_available,
            biometric_enabled: self.biometric_enabled,
            biometric_label: self.biometric_label@,
            lock_on_launch: self.lock_on_launch,
            lock_on_hide: self.lock_on_hide,
            idle_secs: self.idle_secs,
        }
    }
}

/// The status of the app lock, or why it is not given.
pub open spec fn spec_lock_status(
    label: Seq<char>,
    c: ConfigModel,
    active: bool,
    available: bool,
    biometric_label: Seq<char>,
) -> Result<StatusModel, Seq<char>> {
    if spec_is_remote(label) {
        Err("forbidden"@)
    } else {
        Ok(
            StatusModel {
                enabled: active,
                biometric_available: available,
                biometric_enabled: c.biometric_enabled && available,
                biometric_label,
                lock_on_launch: c.lock_on_launch,
                lock_on_hide: c.lock_on_hide,
                idle_secs: c.idle_secs,
            },
        )
    }
}

/// The status of the app lock. `active` says whether the lock is active,
/// `available` whether the platform offers biometric authentication, under the
/// name `biometric_label`. Any window that is not remote may ask, also while the
/// app is locked.
pub fn get_lock_status(
    label: &str,
    c: &AppLockConfig,
    active: bool,
    available: bool,
    biometric_label: &str,
) -> (answer: Result<LockStatus, String>)
    ensures
        match answer {
            Ok(s) => {
                &&& !spec_is_remote(label@)
                &&& s.enabled == active
                &&& s.biometric_available == available
                &&& s.biometric_enabled == (c.biometric_enabled && available)
                &&& s.biometric_label@ == biometric_label@
                &&& s.lock_on_launch == c.lock_on_launch
                &&& s.lock_on_hide == c.lock_on_hide
                &&& s.idle_secs == c.idle_secs
            },
            Err(e) => spec_is_remote(label@) && e@ == "forbidden"@,
        },
        match answer {
            Ok(s) => spec_lock_status(label@, c@, active, available, biometric_label@) == Ok::<
                _,
                Seq<char>,
            >(s@),
            Err(e) => spec_lock_status(label@, c@, active, available, biometric_label@) == Err::<
                StatusModel,
                _,
            >(e@),
        },
{
    if is_remote_label(label) {
        return Err("forbidden".to_owned());
    }
    Ok(
        LockStatus {
            enabled: active,
            biometric_available: available,
            biometric_enabled: c.biometric_enabled && available,
            biometric_label: biometric_label.to_owned(),
            lock_on_launch: c.lock_on_launch,
            lock_on_hide: c.lock_on_hide,
            idle_secs: c.idle_secs,
        },
    )
}

/// What is to be done next for a command on the app-lock configuration.
#[derive(Debug, PartialEq, Eq)]
pub enum ConfigStep {
    /// Answer with this error.
    Reject(String),
    /// Verify the current password against this hash.
    Verify(String),
    /// Hash the new password.
    Hash,
    /// Ask for one biometric authentication.
    Authenticate,
    /// Save this configuration and answer success.
    Store(AppLockConfig),
}

/// The view of a `ConfigStep`.
pub enum ConfigStepModel {
    Reject(Seq<char>),
    Verify(Seq<char>),
    Hash,
    Authenticate,
    Store(ConfigModel),
}

impl View for ConfigStep {
    type V = ConfigStepModel;

    open spec fn view(&self) -> ConfigStepModel {
        match *self {
            ConfigStep::Reject(e) => ConfigStepModel::Reject(e@),
            ConfigStep::Verify(phc) => ConfigStepModel::Verify(phc@),
            ConfigStep::Hash => ConfigStepModel::Hash,
            ConfigStep::Authenticate => ConfigStepModel::Authenticate,
            ConfigStep::Store(c) => ConfigStepModel::Store(c@),
        }
    }
}

/// The view of an outcome that is known, is an error, or is not known yet.
pub open spec fn hash_view(hashed: Option<Result<String, String>>) -> Option<
    Result<Seq<char>, Seq<char>>,
> {
    match hashed {
        Some(Ok(phc)) => Some(Ok(phc@)),
        Some(Err(e)) => Some(Err(e@)),
        None => None,
    }
}

/// The view of a biometric test that was made, failed, or is not made yet.
pub open spec fn test_view(tested: Option<Result<bool, String>>) -> Option<
    Result<bool, Seq<char>>,
> {
    match tested {
        Some(Ok(ok)) => Some(Ok(ok)),
        Some(Err(e)) => Some(Err(e@)),
        None => None,
    }
}

/// What is wrong with a new password, if anything is.
pub open spec fn password_fault(new: Seq<char>, confirm: Seq<char>) -> Option<Seq<char>> {
    if new != confirm {
        Some("passwords do not match"@)
    } else if new.len() < 4 {
        Some("password must be at least 4 characters"@)
    } else {
        None
    }
}

/// What is wrong with a new password, if anything is: it is not what was typed to
/// confirm it, or it has fewer than four characters.
pub fn new_password_fault(new: &str, confirm: &str) -> (fault: Option<String>)
    ensures
        text::opt_string_view(fault) == password_fault(new@, confirm@),
{
    if !same_text(new, confirm) {
        Some("passwords do not match".to_owned())
    } else if new.unicode_len() < 4 {
        Some("password must be at least 4 characters".to_owned())
    } else {
        None
    }
}

/// The step with a new password that has no fault: hash it, then store it.
/// Setting the first one enables the lock.
pub open spec fn store_hash(
    c: ConfigModel,
    enable: bool,
    hashed: Option<Result<Seq<char>, Seq<char>>>,
) -> ConfigStepModel {
    match hashed {
        None => ConfigStepModel::Hash,
        Some(Err(e)) => ConfigStepModel::Reject(e),
        Some(Ok(phc)) => ConfigStepModel::Store(
            ConfigModel { password_phc: Some(phc), enabled: enable || c.enabled, ..c },
        ),
    }
}

fn store_hashed(
    c: &AppLockConfig,
    enable: bool,
    hashed: Option<Result<String, String>>,
) -> (step: ConfigStep)
    ensures
        step@ == store_hash(c@, enable, hash_view(hashed)),
{
    match hashed {
        None => ConfigStep::Hash,
        Some(Err(e)) => ConfigStep::Reject(e),
        Some(Ok(phc)) => {
            let mut d: AppLockConfig = config_copy(c);
            d.password_phc = Some(phc);
            d.enabled = enable || c.enabled;
            ConfigStep::Store(d)
        },
    }
}

/// The next step of setting the first password.
pub open spec fn spec_set_password(
    label: Seq<char>,
    unlocked: bool,
    c: ConfigModel,
    active: bool,
    new: Seq<char>,
    confirm: Seq<char>,
    hashed: Option<Result<Seq<char>, Seq<char>>>,
) -> ConfigStepModel {
    match refusal(label, unlocked) {
        Some(e) => ConfigStepModel::Reject(e),
        None => if active {
            ConfigStepModel::Reject("app lock is already enabled"@)
        } else {
            match password_fault(new, confirm) {
                Some(e) => ConfigStepModel::Reject(e),
                None => store_hash(c, true, hashed),
            }
        },
    }
}

/// Enables the lock by setting the first password. Refused where the lock is
/// active. `hashed` is what came of `ConfigStep::Hash`.
pub fn set_app_lock_password(
    label: &str,
    unlocked: bool,
    c: &AppLockConfig,
    active: bool,
    new: &str,
    confirm: &str,
    hashed: Option<Result<String, String>>,
) -> (step: ConfigStep)
    ensures
        step@ == spec_set_password(
            label@,
            unlocked,
            c@,
            active,
            new@,
            confirm@,
            hash_view(hashed),
        ),
{
    if let Err(e) = guard(label, unlocked) {
        return ConfigStep::Reject(e);
    }
    if active {
        return ConfigStep::Reject("app lock is already enabled".to_owned());
    }
    match new_password_fault(new, confirm) {
        Some(e) => ConfigStep::Reject(e),
        None => store_hashed(c, true, hashed),
    }
}

/// Why the current password does not admit a change, or that it is to be
/// verified; `None` where it was verified.
pub open spec fn spec_current(
    label: Seq<char>,
    unlocked: bool,
    c: ConfigModel,
    verified: Option<bool>,
) -> Option<ConfigStepModel> {
    match refusal(label, unlocked) {
        Some(e) => Some(ConfigStepModel::Reject(e)),
        None => match c.password_phc {
            None => Some(ConfigStepModel::Reject("app lock is not enabled"@)),
            Some(phc) => match verified {
                None => Some(ConfigStepModel::Verify(phc)),
                Some(false) => Some(ConfigStepModel::Reject("current password is incorrect"@)),
                Some(true) => None,
            },
        },
    }
}

fn check_current(
    label: &str,
    unlocked: bool,
    c: &AppLockConfig,
    verified: Option<bool>,
) -> (step: Option<ConfigStep>)
    ensures
        match step {
            Some(s) => spec_current(label@, unlocked, c@, verified) == Some(s@),
            None => spec_current(label@, unlocked, c@, verified) is None,
        },
{
    if let Err(e) = guard(label, unlocked) {
        return Some(ConfigStep::Reject(e));
    }
    match &c.password_phc {
        None => Some(ConfigStep::Reject("app lock is not enabled".to_owned())),
        Some(phc) => match verified {
            None => Some(ConfigStep::Verify(phc.clone())),
            Some(ok) => if ok {
                None
            } else {
                Some(ConfigStep::Reject("current password is incorrect".to_owned()))
            },
        },
    }
}

/// The next step of changing the password.
pub open spec fn spec_change_password(
    label: Seq<char>,
    unlocked: bool,
    c: ConfigModel,
    verified: Option<bool>,
    new: Seq<char>,
    confirm: Seq<char>,
    hashed: Option<Result<Seq<char>, Seq<char>>>,
) -> ConfigStepModel {
    match spec_current(label, unlocked, c, verified) {
        Some(step) => step,
        None => match password_fault(new, confirm) {
            Some(e) => ConfigStepModel::Reject(e),
            None => store_hash(c, false, hashed),
        },
    }
}

/// Changes the password. `verified` is what came of `ConfigStep::Verify`,
/// `hashed` what came of `ConfigStep::Hash`.
pub fn change_app_lock_password(
    label: &str,
    unlocked: bool,
    c: &AppLockConfig,
    verified: Option<bool>,
    new: &str,
    confirm: &str,
    hashed: Option<Result<String, String>>,
) -> (step: ConfigStep)
    ensures
        step@ == spec_change_password(
            label@,
            unlocked,
            c@,
            verified,
            new@,
            confirm@,
            hash_view(hashed),
        ),
{
    match check_current(label, unlocked, c, verified) {
        Some(step) => step,
        None => match new_password_fault(new, confirm) {
            Some(e) => ConfigStep::Reject(e),
            None => store_hashed(c, false, hashed),
        },
    }
}

/// The next step of disabling the lock.
pub open spec fn spec_disable(
    label: Seq<char>,
    unlocked: bool,
    c: ConfigModel,
    verified: Option<bool>,
    defaults: ConfigModel,
) -> ConfigStepModel {
    match spec_current(label, unlocked, c, verified) {
        Some(step) => step,
        None => ConfigStepModel::Store(defaults),
    }
}

/// Disables the lock: the configuration goes back to `defaults`, which hold no
/// password. `verified` is what came of `ConfigStep::Verify`.
pub fn disable_app_lock(
    label: &str,
    unlocked: bool,
    c: &AppLockConfig,
    verified: Option<bool>,
    defaults: &AppLockConfig,
) -> (step: ConfigStep)
    ensures
        step@ == spec_disable(label@, unlocked, c@, verified, defaults@),
{
    match check_current(label, unlocked, c, verified) {
        Some(step) => step,
        None => ConfigStep::Store(config_copy(defaults)),
    }
}

/// The next step of setting the options of the lock.
pub open spec fn spec_set_options(
    label: Seq<char>,
    unlocked: bool,
    c: ConfigModel,
    lock_on_launch: bool,
    lock_on_hide: bool,
    idle_secs: u32,
) -> ConfigStepModel {
    match refusal(label, unlocked) {
        Some(e) => ConfigStepModel::Reject(e),
        None => ConfigStepModel::Store(
            ConfigModel { lock_on_launch, lock_on_hide, idle_secs, ..c },
        ),
    }
}

/// Sets when the app locks itself.
pub fn set_app_lock_options(
    label: &str,
    unlocked: bool,
    c: &AppLockConfig,
    lock_on_launch: bool,
    lock_on_hide: bool,
    idle_secs: u32,
) -> (step: ConfigStep)
    ensures
        step@ == spec_set_options(
            label@,
            unlocked,
            c@,
            lock_on_launch,
            lock_on_hide,
            idle_secs,
        ),
{
    if let Err(e) = guard(label, unlocked) {
        return ConfigStep::Reject(e);
    }
    let mut d: AppLockConfig = config_copy(c);
    d.lock_on_launch = lock_on_launch;
    d.lock_on_hide = lock_on_hide;
    d.idle_secs = idle_secs;
    ConfigStep::Store(d)
}

/// The next step of enabling or disabling biometric unlock.
pub open spec fn spec_set_biometric(
    label: Seq<char>,
    unlocked: bool,
    c: ConfigModel,
    active: bool,
    available: bool,
    enabled: bool,
    tested: Option<Result<bool, Seq<char>>>,
) -> ConfigStepModel {
    let stored = ConfigStepModel::Store(ConfigModel { biometric_enabled: enabled, ..c });
    match refusal(label, unlocked) {
        Some(e) => ConfigStepModel::Reject(e),
        None => if !enabled {
            stored
        } else if !active {
            ConfigStepModel::Reject("set an app-lock password first"@)
        } else if !available {
            ConfigStepModel::Reject("biometric authentication is not available on this device"@)
        } else {
            match tested {
                None => ConfigStepModel::Authenticate,
                Some(Err(e)) => ConfigStepModel::Reject(e),
                Some(Ok(false)) => ConfigStepModel::Reject("biometric test did not succeed"@),
                Some(Ok(true)) => stored,
            }
        },
    }
}

/// Enables or disables biometric unlock. Enabling it takes an active lock, a
/// platform that offers it, and one successful test; `tested` is what came of
/// `ConfigStep::Authenticate`.
pub fn set_biometric_enabled(
    label: &str,
    unlocked: bool,
    c: &AppLockConfig,
    active: bool,
    available: bool,
    enabled: bool,
    tested: Option<Result<bool, String>>,
) -> (step: ConfigStep)
    ensures
        step@ == spec_set_biometric(
            label@,
            unlocked,
            c@,
            active,
            available,
            enabled,
            test_view(tested),
        ),
{
    if let Err(e) = guard(label, unlocked) {
        return ConfigStep::Reject(e);
    }
    if enabled {
        if !active {
            return ConfigStep::Reject("set an app-lock password first".to_owned());
        }
        if !available {
            return ConfigStep::Reject(
                "biometric authentication is not available on this device".to_owned(),
            );
        }
        match tested {
            None => {
                return ConfigStep::Authenticate;
            },
            Some(Err(e)) => {
                return ConfigStep::Reject(e);
            },
            Some(Ok(ok)) => {
                if !ok {
                    return ConfigStep::Reject("biometric test did not succeed".to_owned());
                }
            },
        }
    }
    let mut d: AppLockConfig = config_copy(c);
    d.biometric_enabled = enabled;
    ConfigStep::Store(d)
}

// ---------------------------------------------------------------------------
// Locking and unlocking.
// ---------------------------------------------------------------------------

/// Why the app is not locked at the request of a window, if it is not.
pub open spec fn lock_refusal(label: Seq<char>, active: bool) -> Option<Seq<char>> {
    if spec_is_remote(label) {
        Some("forbidden"@)
    } else if !active {
        Some("app lock is not enabled"@)
    } else {
        None
    }
}

/// Whether the app is locked at the request of a window. Also a locked app may
/// be asked to lock.
pub fn lock_app(label: &str, active: bool) -> (answer: Result<(), String>)
    ensures
        match answer {
            Ok(_) => !spec_is_remote(label@) && active,
            Err(e) => if spec_is_remote(label@) {
                e@ == "forbidden"@
            } else {
                !active && e@ == "app lock is not enabled"@
            },
        },
        match answer {
            Ok(_) => lock_refusal(label@, active) is None,
            Err(e) => lock_refusal(label@, active) == Some(e@),
        },
{
    if is_remote_label(label) {
        Err("forbidden".to_owned())
    } else if !active {
        Err("app lock is not enabled".to_owned())
    } else {
        Ok(())
    }
}

/// What is to be done next for a request to unlock.
#[derive(Debug, PartialEq, Eq)]
pub enum UnlockStep {
    /// Answer with this error.
    Reject(String),
    /// Verify the password against this hash.
    Verify(String),
    /// Ask for biometric authentication.
    Authenticate,
    /// Unlock the app and answer `true`.
    Unlock,
    /// Answer `false`.
    Refuse,
}

/// The view of an `UnlockStep`.
pub enum UnlockStepModel {
    Reject(Seq<char>),
    Verify(Seq<char>),
    Authenticate,
    Unlock,
    Refuse,
}

impl View for UnlockStep {
    type V = UnlockStepModel;

    open spec fn view(&self) -> UnlockStepModel {
        match *self {
            UnlockStep::Reject(e) => UnlockStepModel::Reject(e@),
            UnlockStep::Verify(phc) => UnlockStepModel::Verify(phc@),
            UnlockStep::Authenticate => UnlockStepModel::Authenticate,
            UnlockStep::Unlock => UnlockStepModel::Unlock,
            UnlockStep::Refuse => UnlockStepModel::Refuse,
        }
    }
}

/// The next step of unlocking with the password.
pub open spec fn spec_unlock_password(
    label: Seq<char>,
    phc: Option<Seq<char>>,
    verified: Option<bool>,
) -> UnlockStepModel {
    if label != "lock"@ {
        UnlockStepModel::Reject("forbidden"@)
    } else {
        match phc {
            None => UnlockStepModel::Unlock,
            Some(phc) => match verified {
                None => UnlockStepModel::Verify(phc),
                Some(true) => UnlockStepModel::Unlock,
                Some(false) => UnlockStepModel::Refuse,
            },
        }
    }
}

/// Unlocks with the password. For the lock window only, also while the app is
/// locked. Where no password is configured there is nothing to unlock.
/// `verified` is what came of `UnlockStep::Verify`.
pub fn unlock_password(label: &str, c: &AppLockConfig, verified: Option<bool>) -> (step: UnlockStep)
    ensures
        step@ == spec_unlock_password(label@, c@.password_phc, verified),
{
    if let Err(e) = lock_window_guard(label) {
        return UnlockStep::Reject(e);
    }
    match &c.password_phc {
        None => UnlockStep::Unlock,
        Some(phc) => match verified {
            None => UnlockStep::Verify(phc.clone()),
            Some(ok) => if ok {
                UnlockStep::Unlock
            } else {
                UnlockStep::Refuse
            },
        },
    }
}

/// The next step of unlocking with biometric authentication.
pub open spec fn spec_unlock_biometric(
    label: Seq<char>,
    biometric_enabled: bool,
    tested: Option<Result<bool, Seq<char>>>,
) -> UnlockStepModel {
    if label != "lock"@ {
        UnlockStepModel::Reject("forbidden"@)
    } else if !biometric_enabled {
        UnlockStepModel::Reject("biometric unlock is not enabled"@)
    } else {
        match tested {
            None => UnlockStepModel::Authenticate,
            Some(Err(e)) => UnlockStepModel::Reject(e),
            Some(Ok(true)) => UnlockStepModel::Unlock,
            Some(Ok(false)) => UnlockStepModel::Refuse,
        }
    }
}

/// Unlocks with biometric authentication. For the lock window only, also while
/// the app is locked. `tested` is what came of `UnlockStep::Authenticate`.
pub fn unlock_biometric(
    label: &str,
    c: &AppLockConfig,
    tested: Option<Result<bool, String>>,
) -> (step: UnlockStep)
    ensures
        step@ == spec_unlock_biometric(label@, c@.biometric_enabled, test_view(tested)),
{
    if let Err(e) = lock_window_guard(label) {
        return UnlockStep::Reject(e);
    }
    if !c.biometric_enabled {
        return UnlockStep::Reject("biometric unlock is not enabled".to_owned());
    }
    match tested {
        None => UnlockStep::Authenticate,
        Some(Err(e)) => UnlockStep::Reject(e),
        Some(Ok(ok)) => if ok {
            UnlockStep::Unlock
        } else {
            UnlockStep::Refuse
        },
    }
}

} // verus!
