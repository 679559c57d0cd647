//! What a toast decision rests on, in terms of the recorded times and counts, and
//! what the toasts say.

use vstd::prelude::*;

use crate::account_laws;
use crate::accounts::FileModel;
use crate::notify;
use crate::notify::{DecisionModel, LogModel, Suppressed};
use crate::text;
use crate::text_laws;

verus! {

/// Whether the page of a window raised a toast at most ten seconds ago.
pub open spec fn page_was_recent(log: LogModel, label: Seq<char>, now: u64) -> bool {
    log.shim.contains_key(label) && now <= log.shim[label] + 10_000_000_000
}

/// Whether the last toast of the fallback for a window was for exactly this count,
/// at most ninety seconds ago.
pub open spec fn is_repeat(log: LogModel, label: Seq<char>, count: u32, now: u64) -> bool {
    log.last.contains_key(label) && log.last[label].1 == count && now <= log.last[label].0
        + 90_000_000_000
}

/// The fallback shows a toast exactly where the app is unlocked, notifications are
/// on, the page raised none in the last ten seconds, the last toast for the window
/// was not for this very count in the last ninety seconds, and nobody is watching.
pub proof fn law_fallback_shows_exactly_when(
    log: LogModel,
    f: FileModel,
    label: Seq<char>,
    count: u32,
    now: u64,
    unlocked: bool,
    notifications: bool,
    watched: bool,
)
    ensures
        notify::spec_unread_toast(log, f, label, count, now, unlocked, notifications, watched).1
            is Show <==> unlocked && notifications && !page_was_recent(log, label, now)
            && !is_repeat(log, label, count, now) && !watched,
{
}

/// A count that is not the one last shown for the window is no repeat: where
/// nothing else holds the toast back, it is shown.
pub proof fn law_another_count_is_shown(
    log: LogModel,
    f: FileModel,
    label: Seq<char>,
    count: u32,
    now: u64,
)
    requires
        log.last.contains_key(label) ==> log.last[label].1 != count,
        log.shim.contains_key(label) ==> now > log.shim[label] + 10_000_000_000,
    ensures
        notify::spec_unread_toast(log, f, label, count, now, true, true, false).1 is Show,
{
}

/// The reason that is given for a toast that is not shown: the first of a locked
/// app, disabled notifications, a toast of the page, a repeated count and a watched
/// window.
pub proof fn law_reason_of_silence(
    log: LogModel,
    f: FileModel,
    label: Seq<char>,
    count: u32,
    now: u64,
    unlocked: bool,
    notifications: bool,
    watched: bool,
)
    ensures
        ({
            let d = notify::spec_unread_toast(
                log,
                f,
                label,
                count,
                now,
                unlocked,
                notifications,
                watched,
            ).1;
            let recent = page_was_recent(log, label, now);
            let repeat = is_repeat(log, label, count, now);
            &&& d == DecisionModel::Suppress(Suppressed::Locked) <==> !unlocked
            &&& d == DecisionModel::Suppress(Suppressed::Disabled) <==> unlocked && !notifications
            &&& d == DecisionModel::Suppress(Suppressed::PageNotified) <==> unlocked
                && notifications && recent
            &&& d == DecisionModel::Suppress(Suppressed::SameCount) <==> unlocked && notifications
                && !recent && repeat
            &&& d == DecisionModel::Suppress(Suppressed::Watched) <==> unlocked && notifications
                && !recent && !repeat && watched
        }),
{
}

/// What the fallback leaves in the log. The record of its own last toast changes
/// for the window alone, and only where a toast is shown. The record of the page's
/// toasts keeps every entry that is at most ten seconds old, unchanged; an older one
/// goes where the decision comes to look at repeats, and stays otherwise.
pub proof fn law_log_after_the_fallback(
    log: LogModel,
    f: FileModel,
    label: Seq<char>,
    count: u32,
    now: u64,
    unlocked: bool,
    notifications: bool,
    watched: bool,
    other: Seq<char>,
)
    ensures
        ({
            let (after, d) = notify::spec_unread_toast(
                log,
                f,
                label,
                count,
                now,
                unlocked,
                notifications,
                watched,
            );
            let looked = unlocked && notifications && !page_was_recent(log, label, now);
            &&& d is Show ==> after.last.contains_key(label) && after.last[label] == (now, count)
            &&& d is Suppress ==> after.last == log.last
            &&& other != label ==> after.last.contains_key(other) == log.last.contains_key(other)
                && (log.last.contains_key(other) ==> after.last[other] == log.last[other])
            &&& !looked ==> after.shim == log.shim
            &&& looked ==> after.shim.contains_key(other) == (log.shim.contains_key(other) && now
                <= log.shim[other] + 10_000_000_000)
            &&& after.shim.contains_key(other) ==> after.shim[other] == log.shim[other]
        }),
{
}

/// That the page of a window raised a toast is recorded for this window and this
/// time, and nothing else changes.
pub proof fn law_page_toast_is_recorded(log: LogModel, label: Seq<char>, now: u64, other: Seq<char>)
    ensures
        ({
            let after = notify::shim_recorded(log, label, now);
            &&& after.shim.contains_key(label) && after.shim[label] == now
            &&& other != label ==> after.shim.contains_key(other) == log.shim.contains_key(other)
                && (log.shim.contains_key(other) ==> after.shim[other] == log.shim[other])
            &&& after.last == log.last
        }),
{
}

/// Whether a window is that of the account at a position: the first one with the id
/// that follows `wa-` in the label.
pub open spec fn is_window_of(f: FileModel, label: Seq<char>, i: int) -> bool {
    &&& label.len() >= 3 && label[0] == 'w' && label[1] == 'a' && label[2] == '-'
    &&& account_laws::is_first_with(f.accounts, label.skip(3), i)
}

/// Whether a window is that of no account.
pub open spec fn is_window_of_none(f: FileModel, label: Seq<char>) -> bool {
    label.len() >= 3 && label[0] == 'w' && label[1] == 'a' && label[2] == '-'
        ==> account_laws::none_has(f.accounts, label.skip(3))
}

proof fn lemma_account_name(f: FileModel, label: Seq<char>, i: int)
    ensures
        f.accounts.len() >= 2 && is_window_of(f, label, i) ==> notify::account_name(f, label)
            == Some(f.accounts[i].name),
        f.accounts.len() <= 1 || is_window_of_none(f, label) ==> notify::account_name(f, label)
            is None,
{
    account_laws::law_window_labels(label, label);
    account_laws::law_found_account_is_the_first(f.accounts, label.skip(3), i);
}

/// A toast that the page asks for is shown exactly where the app is unlocked and
/// notifications are on, with the page's body. Its title is the page's, after the
/// name of the account and a colon where there are several accounts and the window
/// is that of one.
pub proof fn law_page_toast(
    f: FileModel,
    label: Seq<char>,
    title: Seq<char>,
    body: Seq<char>,
    unlocked: bool,
    notifications: bool,
    i: int,
)
    ensures
        ({
            let d = notify::spec_page_toast(f, label, title, body, unlocked, notifications);
            &&& !unlocked ==> d == DecisionModel::Suppress(Suppressed::Locked)
            &&& unlocked && !notifications ==> d == DecisionModel::Suppress(Suppressed::Disabled)
            &&& unlocked && notifications ==> (d matches DecisionModel::Show(t, b) && {
                &&& b == body
                &&& f.accounts.len() >= 2 && is_window_of(f, label, i) ==> t
                    == f.accounts[i].name + ": "@ + title
                &&& f.accounts.len() <= 1 || is_window_of_none(f, label) ==> t == title
            })
        }),
{
    lemma_account_name(f, label, i);
}

/// A toast of the fallback says how many messages are unread, in decimal and in the
/// singular for one. With several accounts its title names the account of the
/// window, or WhatsApp where it has none; with one account it is WhatsApp.
pub proof fn law_fallback_toast(
    log: LogModel,
    f: FileModel,
    label: Seq<char>,
    count: u32,
    now: u64,
    i: int,
)
    requires
        notify::spec_unread_toast(log, f, label, count, now, true, true, false).1 is Show,
    ensures
        notify::spec_unread_toast(log, f, label, count, now, true, true, false).1 matches
            DecisionModel::Show(t, b) && {
            &&& count == 1 ==> b == "You have 1 unread message."@
            &&& count != 1 ==> exists|numeral: Seq<char>|
                b == "You have "@ + numeral + " unread messages."@ && #[trigger]
                text_laws::value_of(numeral) == count && is_numeral(numeral)
            &&& f.accounts.len() >= 2 && is_window_of(f, label, i) ==> t == f.accounts[i].name
                + ": new messages"@
            &&& f.accounts.len() >= 2 && is_window_of_none(f, label) ==> t
                == "WhatsApp: new messages"@
            &&& f.accounts.len() <= 1 ==> t == "WhatsApp"@
        },
{
    lemma_account_name(f, label, i);
    let numeral = text::decimal(count as nat);
    text_laws::law_numeral_has_the_value(count as nat);
    assert(text_laws::value_of(numeral) == count && is_numeral(numeral));
}

/// Whether a text is decimal digits without a needless zero in front.
pub open spec fn is_numeral(s: Seq<char>) -> bool {
    &&& s.len() > 0
    &&& forall|k: int| 0 <= k < s.len() ==> '0' <= #[trigger] s[k] <= '9'
    &&& s.len() > 1 ==> s[0] != '0'
}

} // verus!
