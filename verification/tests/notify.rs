use std::time::Duration;
use whatrust::accounts::{add_with_store_uuid, AccountsFile};
use whatrust::notify::{
    gate_unread_toast, maybe_unread_toast, record_shim_notify, unread_toast, Decision, Suppressed,
    Toast, ToastLog, SAME_COUNT_WINDOW, SHIM_GRACE,
};

#[test]
fn grace_constant_is_reasonable() {
    // Long enough to swallow the 2s title-poll double fire, short enough
    // that a genuinely NEW message a few seconds later still notifies.
    assert!(Duration::from_nanos(SHIM_GRACE) >= Duration::from_secs(5));
    assert!(Duration::from_nanos(SHIM_GRACE) <= Duration::from_secs(15));
}

#[test]
fn same_count_window_is_reasonable() {
    // Must outlive the 2s title poll so repeats are collapsed, but stay
    // far below a minute so a fresh message soon after still notifies.
    assert!(Duration::from_nanos(SAME_COUNT_WINDOW) >= Duration::from_secs(30));
    assert!(Duration::from_nanos(SAME_COUNT_WINDOW) <= Duration::from_secs(120));
}

const SECOND: u64 = 1_000_000_000;

fn toast(title: &str, body: &str) -> Decision {
    Decision::Show(Toast {
        title: title.to_string(),
        body: body.to_string(),
    })
}

fn two_accounts() -> AccountsFile {
    let mut f = AccountsFile::default();
    add_with_store_uuid(&mut f, "Work", [1u8; 16]);
    f
}

#[test]
fn windows_are_ten_and_ninety_seconds() {
    assert_eq!(SHIM_GRACE, 10 * SECOND);
    assert_eq!(SAME_COUNT_WINDOW, 90 * SECOND);
}

#[test]
fn risen_count_raises_a_toast() {
    let mut log = ToastLog::new();
    let f = AccountsFile::default();
    assert_eq!(
        maybe_unread_toast(&mut log, &f, "wa-default", 1, 5, true, true, false),
        toast("WhatsApp", "You have 1 unread message.")
    );
    assert_eq!(
        maybe_unread_toast(&mut log, &f, "wa-default", 12, 6, true, true, false),
        toast("WhatsApp", "You have 12 unread messages.")
    );
    assert_eq!(log.last.get("wa-default"), Some((6, 12)));
}

#[test]
fn locked_or_disabled_suppresses() {
    let mut log = ToastLog::new();
    let f = AccountsFile::default();
    assert_eq!(
        maybe_unread_toast(&mut log, &f, "wa-default", 1, 5, false, true, false),
        Decision::Suppress(Suppressed::Locked)
    );
    assert_eq!(
        maybe_unread_toast(&mut log, &f, "wa-default", 1, 5, false, false, false),
        Decision::Suppress(Suppressed::Locked)
    );
    assert_eq!(
        maybe_unread_toast(&mut log, &f, "wa-default", 1, 5, true, false, false),
        Decision::Suppress(Suppressed::Disabled)
    );
    assert!(log.last.items().is_empty());
}

#[test]
fn page_toast_silences_the_fallback_for_its_window() {
    let mut log = ToastLog::new();
    record_shim_notify(&mut log, "wa-default", 100);
    let held = gate_unread_toast(&mut log, "wa-default", 2, 100 + SHIM_GRACE, true, true, false);
    assert_eq!(held, Some(Suppressed::PageNotified));
    let other = gate_unread_toast(&mut log, "wa-acct-1", 2, 100 + SHIM_GRACE, true, true, false);
    assert_eq!(other, None);
    let later = gate_unread_toast(&mut log, "wa-default", 2, 101 + SHIM_GRACE, true, true, false);
    assert_eq!(later, None);
    // Entries past the grace time are dropped.
    assert!(log.shim.items().is_empty());
}

#[test]
fn same_count_does_not_stack() {
    let mut log = ToastLog::new();
    let t = 7 * SECOND;
    assert_eq!(gate_unread_toast(&mut log, "wa-default", 3, t, true, true, false), None);
    assert_eq!(
        gate_unread_toast(&mut log, "wa-default", 3, t + SAME_COUNT_WINDOW, true, true, false),
        Some(Suppressed::SameCount)
    );
    assert_eq!(
        gate_unread_toast(&mut log, "wa-default", 4, t + SECOND, true, true, false),
        None
    );
    assert_eq!(
        gate_unread_toast(&mut log, "wa-default", 4, t + SECOND + SAME_COUNT_WINDOW + 1, true, true, false),
        None
    );
}

#[test]
fn watched_window_is_silent_and_not_recorded() {
    let mut log = ToastLog::new();
    let f = AccountsFile::default();
    assert_eq!(
        maybe_unread_toast(&mut log, &f, "wa-default", 3, 5, true, true, true),
        Decision::Suppress(Suppressed::Watched)
    );
    assert_eq!(log.last.get("wa-default"), None);
    // Nothing was shown, so the same count is no repeat.
    let later = 5 + 30 * SECOND;
    assert_eq!(
        maybe_unread_toast(&mut log, &f, "wa-default", 3, later, true, true, false),
        toast("WhatsApp", "You have 3 unread messages.")
    );
    assert_eq!(log.last.get("wa-default"), Some((later, 3)));
    // Now it is one, watched or not.
    assert_eq!(
        maybe_unread_toast(&mut log, &f, "wa-default", 3, later + 1, true, true, true),
        Decision::Suppress(Suppressed::SameCount)
    );
}

#[test]
fn clock_that_stands_still_counts_as_recent() {
    let mut log = ToastLog::new();
    record_shim_notify(&mut log, "wa-default", 50);
    assert_eq!(
        gate_unread_toast(&mut log, "wa-default", 1, 40, true, true, false),
        Some(Suppressed::PageNotified)
    );
}

#[test]
fn fallback_names_the_account() {
    let f = two_accounts();
    assert_eq!(unread_toast(&f, "wa-acct-1", 0).title, "Work: new messages");
    assert_eq!(unread_toast(&f, "wa-acct-9", 0).title, "WhatsApp: new messages");
    assert_eq!(unread_toast(&f, "settings", 0).title, "WhatsApp: new messages");
    assert_eq!(unread_toast(&f, "settings", 0).body, "You have 0 unread messages.");
    assert_eq!(
        unread_toast(&f, "settings", u32::MAX).body,
        "You have 4294967295 unread messages."
    );
}
