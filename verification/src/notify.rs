//! When a toast is raised, and what it says.
//!
//! A page may raise a toast itself; where it does not, the unread count in its
//! title is the signal of new messages. This module keeps the two from raising a
//! toast for one message. Times are nanoseconds of a clock that never goes back.

use vstd::prelude::*;
use vstd::string::*;

use crate::accounts;
use crate::accounts::{find, id_from_label, AccountsFile, FileModel};
use crate::text;
use crate::text::{decimal_string, joined};
use crate::text_map;
use crate::text_map::TextMap;

verus! {

/// How long after a page-driven toast the unread fallback stays silent, in
/// nanoseconds. Long enough to swallow the double fire of the two-second title
/// poll, short enough that a new message a few seconds later still notifies.
pub const SHIM_GRACE: u64 = 10_000_000_000;

/// How long a toast for the same count stays suppressed, in nanoseconds. The
/// title is polled every two seconds and re-rendered with the same count.
pub const SAME_COUNT_WINDOW: u64 = 90_000_000_000;

/// The toasts raised so far, per window label.
#[derive(Debug)]
pub struct ToastLog {
    /// When the page last raised a toast.
    pub shim: TextMap<u64>,
    /// When the unread fallback last raised one, and for which count.
    pub last: TextMap<(u64, u32)>,
}

/// The view of a `ToastLog`.
pub struct LogModel {
    pub shim: Map<Seq<char>, u64>,
    pub last: Map<Seq<char>, (u64, u32)>,
}

impl View for ToastLog {
    type V = LogModel;

    open spec fn view(&self) -> LogModel {
        LogModel { shim: self.shim@, last: self.last@ }
    }
}

impl ToastLog {
    /// A log without toasts.
    pub fn new() -> (log: Self)
        ensures
            log@ == (LogModel { shim: Map::empty(), last: Map::empty() }),
    {
        ToastLog { shim: TextMap::new(), last: TextMap::new() }
    }
}

/// A notification.
#[derive(Debug, PartialEq, Eq)]
pub struct Toast {
    pub title: String,
    pub body: String,
}

/// Why no toast is raised.
#[derive(Debug, Clone, Copy, PartialEq, Eq, Structural)]
pub enum Suppressed {
    /// The app is locked: no previews on the lock screen.
    Locked,
    /// Notifications are disabled in the settings.
    Disabled,
    /// The page raised a toast for this window within the grace time.
    PageNotified,
    /// A toast for this count was raised within the repeat window.
    SameCount,
    /// The window is visible and focused: the user is looking at it.
    Watched,
}

/// Whether a toast is raised.
#[derive(Debug, PartialEq, Eq)]
pub enum Decision {
    Suppress(Suppressed),
    Show(Toast),
}

/// The view of a `Decision`: a toast as its title and its body.
pub enum DecisionModel {
    Suppress(Suppressed),
    Show(Seq<char>, Seq<char>),
}

impl View for Decision {
    type V = DecisionModel;

    open spec fn view(&self) -> DecisionModel {
        match *self {
            Decision::Suppress(why) => DecisionModel::Suppress(why),
            Decision::Show(toast) => DecisionModel::Show(toast.title@, toast.body@),
        }
    }
}

// ---------------------------------------------------------------------------
// Time.
// ---------------------------------------------------------------------------

/// The time from `t` to `now`; zero where `t` is later.
pub open spec fn elapsed(now: u64, t: u64) -> int {
    if t <= now {
        now - t
    } else {
        0
    }
}

fn time_since(now: u64, t: u64) -> (d: u64)
    ensures
        d == elapsed(now, t),
{
    if t <= now {
        now - t
    } else {
        0
    }
}

// ---------------------------------------------------------------------------
// The page's own toasts.
// ---------------------------------------------------------------------------

/// The log after a page-driven toast.
pub open spec fn shim_recorded(log: LogModel, label: Seq<char>, now: u64) -> LogModel {
    LogModel { shim: log.shim.insert(label, now), ..log }
}

/// Records that the page of a window raised a toast, so that the unread fallback
/// stays quiet for `SHIM_GRACE`.
pub fn record_shim_notify(log: &mut ToastLog, label: &str, now: u64)
    ensures
        final(log)@ == shim_recorded(old(log)@, label@, now),
{
    log.shim.insert(label.to_owned(), now);
}

/// The name of the account of a window, where there are several accounts and it
/// is one of them.
pub open spec fn account_name(f: FileModel, label: Seq<char>) -> Option<Seq<char>> {
    if f.accounts.len() > 1 {
        match accounts::spec_id_from_label(label) {
            Some(id) => match accounts::spec_find(f.accounts, id) {
                Some(a) => Some(a.name),
                None => None,
            },
            None => None,
        }
    } else {
        None
    }
}

/// The title of a page's toast: with several accounts it starts with the name of
/// the account.
pub open spec fn page_title(f: FileModel, label: Seq<char>, title: Seq<char>) -> Seq<char> {
    match account_name(f, label) {
        Some(name) => name + ": "@ + title,
        None => title,
    }
}

/// The name of the account of a window, where there are several accounts and it
/// is one of them.
pub fn name_of_window(f: &AccountsFile, label: &str) -> (name: Option<String>)
    ensures
        text::opt_string_view(name) == account_name(f@, label@),
{
    if f.accounts.len() > 1 {
        match id_from_label(label) {
            Some(id) => match find(&f.accounts, id) {
                Some(a) => Some(a.name.clone()),
                None => None,
            },
            None => None,
        }
    } else {
        None
    }
}

/// What a page's request for a toast leads to.
pub open spec fn spec_page_toast(
    f: FileModel,
    label: Seq<char>,
    title: Seq<char>,
    body: Seq<char>,
    unlocked: bool,
    notifications: bool,
) -> DecisionModel {
    if !unlocked {
        DecisionModel::Suppress(Suppressed::Locked)
    } else if !notifications {
        DecisionModel::Suppress(Suppressed::Disabled)
    } else {
        DecisionModel::Show(page_title(f, label, title), body)
    }
}

// ---------------------------------------------------------------------------
// The unread fallback.
// ---------------------------------------------------------------------------

/// The entries of `shim` that are within the grace time.
pub open spec fn recent(shim: Map<Seq<char>, u64>, now: u64) -> Map<Seq<char>, u64> {
    shim.restrict(shim.dom().filter(|k: Seq<char>| elapsed(now, shim[k]) <= SHIM_GRACE))
}

/// Whether the page of a window raised a toast within the grace time.
pub open spec fn page_notified(log: LogModel, label: Seq<char>, now: u64) -> bool {
    log.shim.contains_key(label) && elapsed(now, log.shim[label]) <= SHIM_GRACE
}

/// Whether a toast for this count was raised within the repeat window.
pub open spec fn same_count(log: LogModel, label: Seq<char>, count: u32, now: u64) -> bool {
    &&& log.last.contains_key(label)
    &&& log.last[label].1 == count
    &&& elapsed(now, log.last[label].0) <= SAME_COUNT_WINDOW
}

/// The log after the fallback has looked at a risen count, and what keeps it
/// from raising a toast, if anything does. Only a toast that is raised is recorded
/// as one.
pub open spec fn spec_gate(
    log: LogModel,
    label: Seq<char>,
    count: u32,
    now: u64,
    unlocked: bool,
    notifications: bool,
    watched: bool,
) -> (LogModel, Option<Suppressed>) {
    if !unlocked {
        (log, Some(Suppressed::Locked))
    } else if !notifications {
        (log, Some(Suppressed::Disabled))
    } else if page_notified(log, label, now) {
        (log, Some(Suppressed::PageNotified))
    } else if same_count(log, label, count, now) {
        (LogModel { shim: recent(log.shim, now), ..log }, Some(Suppressed::SameCount))
    } else if watched {
        (LogModel { shim: recent(log.shim, now), ..log }, Some(Suppressed::Watched))
    } else {
        (
            LogModel {
                shim: recent(log.shim, now),
                last: log.last.insert(label, (now, count)),
            },
            None,
        )
    }
}

/// The title of a fallback toast.
pub open spec fn unread_title(f: FileModel, label: Seq<char>) -> Seq<char> {
    if f.accounts.len() > 1 {
        match account_name(f, label) {
            Some(name) => name + ": new messages"@,
            None => "WhatsApp: new messages"@,
        }
    } else {
        "WhatsApp"@
    }
}

/// The body of a fallback toast. Only the count is known, never any content.
pub open spec fn unread_body(count: u32) -> Seq<char> {
    if count == 1 {
        "You have 1 unread message."@
    } else {
        "You have "@ + text::decimal(count as nat) + " unread messages."@
    }
}

/// What a risen unread count leads to: the log after it, and the decision.
pub open spec fn spec_unread_toast(
    log: LogModel,
    f: FileModel,
    label: Seq<char>,
    count: u32,
    now: u64,
    unlocked: bool,
    notifications: bool,
    watched: bool,
) -> (LogModel, DecisionModel) {
    let (after, held) = spec_gate(log, label, count, now, unlocked, notifications, watched);
    (
        after,
        match held {
            Some(why) => DecisionModel::Suppress(why),
            None => DecisionModel::Show(unread_title(f, label), unread_body(count)),
        },
    )
}

/// Drops the entries that are past the grace time.
fn prune(shim: &TextMap<u64>, now: u64) -> (kept: TextMap<u64>)
    ensures
        kept@ == recent(shim@, now),
{
    let items: &Vec<(String, u64)> = shim.items();
    let mut kept: TextMap<u64> = TextMap::new();
    let mut i: usize = 0;
    assert(kept@ =~= recent(text_map::map_of(items@.take(0)), now));
    while i < items.len()
        invariant
            i <= items@.len(),
            text_map::keys_of(items@).no_duplicates(),
            kept@ == recent(text_map::map_of(items@.take(i as int)), now),
        decreases items@.len() - i,
    {
        let ghost before = text_map::map_of(items@.take(i as int));
        let ghost k = items@[i as int].0@;
        let ghost t = items@[i as int].1;
        proof {
            let keys = text_map::keys_of(items@);
            assert(items@.take(i + 1).drop_last() == items@.take(i as int));
            assert(text_map::keys_of(items@.take(i as int)) == keys.take(i as int));
            text_map::lemma_map_of(items@.take(i as int));
            assert(!before.contains_key(k)) by {
                if keys.take(i as int).contains(k) {
                    let j = choose|j: int| 0 <= j < i && keys.take(i as int)[j] == k;
                    assert(keys[j] == keys[i as int]);
                }
            }
            if elapsed(now, t) <= SHIM_GRACE {
                assert(recent(before.insert(k, t), now) =~= recent(before, now).insert(k, t));
            } else {
                assert(recent(before.insert(k, t), now) =~= recent(before, now));
            }
        }
        if time_since(now, items[i].1) <= SHIM_GRACE {
            kept.insert(items[i].0.clone(), items[i].1);
        }
        i += 1;
    }
    assert(items@.take(i as int) == items@);
    kept
}

/// Looks at a risen count: says what keeps the fallback from raising a toast, if
/// anything does, and records the toast otherwise.
pub fn gate_unread_toast(
    log: &mut ToastLog,
    label: &str,
    count: u32,
    now: u64,
    unlocked: bool,
    notifications: bool,
    watched: bool,
) -> (held: Option<Suppressed>)
    ensures
        (final(log)@, held) == spec_gate(
            old(log)@,
            label@,
            count,
            now,
            unlocked,
            notifications,
            watched,
        ),
{
    if !unlocked {
        return Some(Suppressed::Locked);
    }
    if !notifications {
        return Some(Suppressed::Disabled);
    }
    if let Some(t) = log.shim.get(label) {
        if time_since(now, t) <= SHIM_GRACE {
            return Some(Suppressed::PageNotified);
        }
    }
    log.shim = prune(&log.shim, now);
    if let Some(entry) = log.last.get(label) {
        if entry.1 == count && time_since(now, entry.0) <= SAME_COUNT_WINDOW {
            return Some(Suppressed::SameCount);
        }
    }
    if watched {
        return Some(Suppressed::Watched);
    }
    log.last.insert(label.to_owned(), (now, count));
    None
}

/// The toast of the unread fallback.
pub fn unread_toast(f: &AccountsFile, label: &str, count: u32) -> (toast: Toast)
    ensures
        toast.title@ == unread_title(f@, label@),
        toast.body@ == unread_body(count),
{
    let title: String = if f.accounts.len() > 1 {
        match name_of_window(f, label) {
            Some(name) => joined(&name, ": new messages"),
            None => "WhatsApp: new messages".to_owned(),
        }
    } else {
        "WhatsApp".to_owned()
    };
    let body: String = if count == 1 {
        "You have 1 unread message.".to_owned()
    } else {
        joined(&joined("You have ", &decimal_string(count)), " unread messages.")
    };
    Toast { title, body }
}

/// Decides on the toast of an account window whose unread count has risen.
///
/// None is raised while the app is locked or notifications are disabled, when
/// the page raised one for this window within `SHIM_GRACE`, when one for this
/// count was raised within `SAME_COUNT_WINDOW`, or when the user is looking at
/// the window.
pub fn maybe_unread_toast(
    log: &mut ToastLog,
    f: &AccountsFile,
    label: &str,
    count: u32,
    now: u64,
    unlocked: bool,
    notifications: bool,
    watched: bool,
) -> (d: Decision)
    ensures
        (final(log)@, d@) == spec_unread_toast(
            old(log)@,
            f@,
            label@,
            count,
            now,
            unlocked,
            notifications,
            watched,
        ),
{
    match gate_unread_toast(log, label, count, now, unlocked, notifications, watched) {
        Some(why) => Decision::Suppress(why),
        None => Decision::Show(unread_toast(f, label, count)),
    }
}

// ---------------------------------------------------------------------------
// Laws.
// ---------------------------------------------------------------------------

/// A locked app, and one with notifications disabled, shows no toast, and the
/// fallback leaves the log as it is.
pub proof fn law_no_toast_while_locked_or_disabled(
    log: LogModel,
    f: FileModel,
    label: Seq<char>,
    title: Seq<char>,
    body: Seq<char>,
    count: u32,
    now: u64,
    unlocked: bool,
    notifications: bool,
    watched: bool,
)
    requires
        !unlocked || !notifications,
    ensures
        spec_page_toast(f, label, title, body, unlocked, notifications) is Suppress,
        spec_unread_toast(log, f, label, count, now, unlocked, notifications, watched).1
            is Suppress,
        spec_unread_toast(log, f, label, count, now, unlocked, notifications, watched).0 == log,
{
}

/// A toast of the page silences the fallback for its window through the grace
/// time.
pub proof fn law_page_toast_silences_the_fallback(
    log: LogModel,
    f: FileModel,
    label: Seq<char>,
    at: u64,
    count: u32,
    now: u64,
    watched: bool,
)
    requires
        now <= at + SHIM_GRACE,
    ensures
        spec_unread_toast(
            shim_recorded(log, label, at),
            f,
            label,
            count,
            now,
            true,
            true,
            watched,
        ) == (
            shim_recorded(log, label, at),
            DecisionModel::Suppress(Suppressed::PageNotified),
        ),
{
}

/// After the grace time a count that was not just shown is shown, if nobody is
/// looking at the window.
pub proof fn law_new_count_is_shown_after_the_grace_time(
    log: LogModel,
    f: FileModel,
    label: Seq<char>,
    at: u64,
    count: u32,
    now: u64,
)
    requires
        now > at + SHIM_GRACE,
        !same_count(log, label, count, now),
    ensures
        spec_unread_toast(
            shim_recorded(log, label, at),
            f,
            label,
            count,
            now,
            true,
            true,
            false,
        ).1 == DecisionModel::Show(unread_title(f, label), unread_body(count)),
{
}

/// The record of the last toast of a window changes exactly when a toast is shown,
/// and then it holds the time and the count.
pub proof fn law_only_shown_toasts_are_recorded(
    log: LogModel,
    f: FileModel,
    label: Seq<char>,
    count: u32,
    now: u64,
    unlocked: bool,
    notifications: bool,
    watched: bool,
)
    ensures
        ({
            let (after, d) = spec_unread_toast(
                log,
                f,
                label,
                count,
                now,
                unlocked,
                notifications,
                watched,
            );
            after.last == if d is Show {
                log.last.insert(label, (now, count))
            } else {
                log.last
            }
        }),
{
}

/// A count that was held back only because the window was watched is shown once
/// nobody is looking, if the page has raised no toast and the fallback no other
/// since.
pub proof fn law_watched_count_is_shown_later(
    log: LogModel,
    f: FileModel,
    label: Seq<char>,
    count: u32,
    at: u64,
    now: u64,
)
    requires
        spec_unread_toast(log, f, label, count, at, true, true, true).1
            == DecisionModel::Suppress(Suppressed::Watched),
        at <= now,
    ensures
        spec_unread_toast(
            spec_unread_toast(log, f, label, count, at, true, true, true).0,
            f,
            label,
            count,
            now,
            true,
            true,
            false,
        ).1 == DecisionModel::Show(unread_title(f, label), unread_body(count)),
{
}

/// A count that was shown is not shown again within the repeat window:
/// re-rendered titles do not stack toasts.
pub proof fn law_same_count_does_not_stack(
    log: LogModel,
    f: FileModel,
    label: Seq<char>,
    count: u32,
    at: u64,
    now: u64,
    watched: bool,
)
    requires
        spec_unread_toast(log, f, label, count, at, true, true, false).1 is Show,
        now <= at + SAME_COUNT_WINDOW,
    ensures
        spec_unread_toast(
            spec_unread_toast(log, f, label, count, at, true, true, false).0,
            f,
            label,
            count,
            now,
            true,
            true,
            watched,
        ).1 is Suppress,
{
}

/// What the fallback does for one window does not change what it decides, then
/// or later, for another.
pub proof fn law_windows_do_not_disturb_each_other(
    log: LogModel,
    label: Seq<char>,
    count: u32,
    at: u64,
    unlocked: bool,
    notifications: bool,
    watched: bool,
    other: Seq<char>,
    other_count: u32,
    now: u64,
    other_watched: bool,
)
    requires
        other != label,
        at <= now,
    ensures
        spec_gate(
            spec_gate(log, label, count, at, unlocked, notifications, watched).0,
            other,
            other_count,
            now,
            true,
            true,
            other_watched,
        ).1 == spec_gate(log, other, other_count, now, true, true, other_watched).1,
{
    let after = spec_gate(log, label, count, at, unlocked, notifications, watched).0;
    if page_notified(log, other, now) {
        assert(elapsed(at, log.shim[other]) <= SHIM_GRACE);
        assert(recent(log.shim, at).contains_key(other));
    }
    assert(page_notified(after, other, now) == page_notified(log, other, now));
    assert(same_count(after, other, other_count, now) == same_count(log, other, other_count, now));
}

} // verus!
