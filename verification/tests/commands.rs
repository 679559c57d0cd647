use whatrust::accounts::{add_with_store_uuid, AccountsFile, UnreadMap};
use whatrust::commands::{
    account_views, add_account, change_app_lock_password, disable_app_lock, dlog, forget_unread,
    get_lock_status, guard, is_remote_label, list_accounts, lock_app, lock_window_guard,
    new_password_fault, notify, open_account, remove_account, rename_account, set_app_lock_options,
    set_app_lock_password, set_biometric_enabled, set_unread, unlock_biometric, unlock_password,
    unread_fits, AccountView, AppLockConfig, ConfigStep, UnlockStep,
};
use whatrust::notify::{Decision, Suppressed, Toast, ToastLog};
use whatrust::store_id::StoreIds;

#[test]
fn is_remote_wa_prefix_is_true() {
    assert!(is_remote_label("wa-default"));
}

#[test]
fn is_remote_wa_acct_is_true() {
    assert!(is_remote_label("wa-acct-2"));
}

#[test]
fn is_remote_settings_is_false() {
    assert!(!is_remote_label("settings"));
}

fn err<T>(e: &str) -> Result<T, String> {
    Err(e.to_string())
}

fn reject(e: &str) -> ConfigStep {
    ConfigStep::Reject(e.to_string())
}

fn config(phc: Option<&str>) -> AppLockConfig {
    AppLockConfig {
        enabled: phc.is_some(),
        password_phc: phc.map(String::from),
        biometric_enabled: false,
        lock_on_launch: true,
        lock_on_hide: false,
        idle_secs: 300,
    }
}

fn two_accounts() -> AccountsFile {
    let mut f = AccountsFile::default();
    add_with_store_uuid(&mut f, "Work", [1u8; 16]);
    f
}

#[test]
fn guard_refuses_remote_then_locked() {
    assert_eq!(guard("settings", true), Ok(()));
    assert_eq!(guard("settings", false), err("locked"));
    assert_eq!(guard("wa-default", true), err("forbidden"));
    assert_eq!(guard("wa-default", false), err("forbidden"));
    assert_eq!(lock_window_guard("lock"), Ok(()));
    assert_eq!(lock_window_guard("settings"), err("forbidden"));
    assert_eq!(lock_window_guard("wa-lock"), err("forbidden"));
}

#[test]
fn log_line_is_capped_in_characters() {
    assert_eq!(dlog("hi"), "js: hi");
    let long = "é".repeat(301);
    assert_eq!(dlog(&long), format!("js: {}", "é".repeat(300)));
    assert_eq!(dlog(&"é".repeat(300)), format!("js: {}", "é".repeat(300)));
}

#[test]
fn page_toast_names_the_account() {
    let mut log = ToastLog::new();
    let show = |title: &str| {
        Decision::Show(Toast {
            title: title.to_string(),
            body: "hello".to_string(),
        })
    };
    let one = AccountsFile::default();
    let two = two_accounts();
    let mut ask = |f: &AccountsFile, label: &str| {
        notify(&mut log, f, label, "New message", "hello", 9, true, true)
    };
    assert_eq!(ask(&one, "wa-default"), show("New message"));
    assert_eq!(ask(&two, "wa-default"), show("WhatsApp: New message"));
    assert_eq!(ask(&two, "wa-acct-1"), show("Work: New message"));
    assert_eq!(ask(&two, "wa-gone"), show("New message"));
    assert_eq!(ask(&two, "settings"), show("New message"));
}

#[test]
fn page_toast_is_recorded_when_suppressed() {
    let mut log = ToastLog::new();
    let f = AccountsFile::default();
    assert_eq!(
        notify(&mut log, &f, "wa-default", "t", "b", 9, false, true),
        Decision::Suppress(Suppressed::Locked)
    );
    assert_eq!(
        notify(&mut log, &f, "wa-default", "t", "b", 11, true, false),
        Decision::Suppress(Suppressed::Disabled)
    );
    assert_eq!(log.shim.get("wa-default"), Some(11));
}

#[test]
fn unread_report_updates_the_sum() {
    let mut map = UnreadMap::new();
    let mut log = ToastLog::new();
    let f = two_accounts();
    let first = set_unread(&mut map, &mut log, &f, "wa-default", 2, 5, true, true, false).unwrap();
    assert_eq!(first.total, 2);
    assert_eq!(
        first.toast,
        Some(Decision::Show(Toast {
            title: "WhatsApp: new messages".to_string(),
            body: "You have 2 unread messages.".to_string(),
        }))
    );
    let same = set_unread(&mut map, &mut log, &f, "wa-default", 2, 6, true, true, false).unwrap();
    assert_eq!((same.total, same.toast), (2, None));
    let other = set_unread(&mut map, &mut log, &f, "wa-acct-1", 5, 7, false, true, false).unwrap();
    assert_eq!(
        (other.total, other.toast),
        (7, Some(Decision::Suppress(Suppressed::Locked)))
    );
    let fewer = set_unread(&mut map, &mut log, &f, "wa-acct-1", 1, 8, true, true, false).unwrap();
    assert_eq!((fewer.total, fewer.toast), (3, None));
    assert_eq!(forget_unread(&mut map, "default"), 1);
    assert_eq!(forget_unread(&mut map, "default"), 1);
}

#[test]
fn unread_report_of_another_window_changes_nothing() {
    let mut map = UnreadMap::new();
    let mut log = ToastLog::new();
    let f = AccountsFile::default();
    assert_eq!(
        set_unread(&mut map, &mut log, &f, "settings", 2, 5, true, true, false),
        None
    );
    assert!(map.items().is_empty());
}

#[test]
fn unread_sum_must_fit() {
    let mut map = UnreadMap::new();
    map.insert("default".to_string(), u32::MAX);
    assert!(unread_fits(&map, "wa-default", u32::MAX));
    assert!(unread_fits(&map, "wa-acct-1", 0));
    assert!(!unread_fits(&map, "wa-acct-1", 1));
    assert!(unread_fits(&map, "settings", 1));
}

#[test]
fn accounts_are_listed_in_order() {
    let mut f = two_accounts();
    add_with_store_uuid(&mut f, "Later", [2u8; 16]);
    f.accounts[0].order = 2;
    let mut unread = UnreadMap::new();
    unread.insert("acct-1".to_string(), 4);
    let open = vec!["settings".to_string(), "wa-default".to_string()];
    let view = |id: &str, name: &str, order: u32, unread: u32, open: bool| AccountView {
        id: id.to_string(),
        name: name.to_string(),
        order,
        unread,
        open,
    };
    let expected = vec![
        view("acct-1", "Work", 1, 4, false),
        view("default", "WhatsApp", 2, 0, true),
        view("acct-2", "Later", 2, 0, false),
    ];
    assert_eq!(account_views(&f, &unread, &open), expected);
    assert_eq!(list_accounts("settings", true, &f, &unread, &open), Ok(expected));
    assert_eq!(
        list_accounts("settings", false, &f, &unread, &open),
        err("locked")
    );
    assert_eq!(
        list_accounts("wa-default", true, &f, &unread, &open),
        err("forbidden")
    );
}

#[test]
fn listing_agrees_with_a_stable_sort() {
    let mut f = AccountsFile::default();
    f.accounts.clear();
    for (i, order) in [5u32, 3, 5, 1, 3, 0, 5, 1].iter().enumerate() {
        let a = add_with_store_uuid(&mut f, &format!("n{i}"), [1u8; 16]);
        let at = f.accounts.iter().position(|x| x.id == a.id).unwrap();
        f.accounts[at].order = *order;
    }
    let mut sorted = f.accounts.clone();
    sorted.sort_by_key(|a| a.order);
    let listed = account_views(&f, &UnreadMap::new(), &vec![]);
    let names: Vec<String> = listed.into_iter().map(|v| v.name).collect();
    let expected: Vec<String> = sorted.into_iter().map(|a| a.name).collect();
    assert_eq!(names, expected);
}

#[test]
fn adding_trims_the_name() {
    let mut ids = StoreIds::new();
    let mut f = AccountsFile::default();
    let (acct, view) =
        add_account("settings", true, None, &mut f, "\u{a0} Work\n", &mut ids).unwrap();
    assert_eq!((acct.id.as_str(), acct.name.as_str()), ("acct-1", "Work"));
    assert_eq!(f.accounts[1], acct);
    assert_eq!(
        view,
        AccountView {
            id: "acct-1".to_string(),
            name: "Work".to_string(),
            order: 1,
            unread: 0,
            open: true,
        }
    );
    assert_eq!(ids.counter, 1);
}

#[test]
fn adding_is_refused_in_turn() {
    let mut ids = StoreIds::new();
    let mut f = AccountsFile::default();
    let before = f.clone();
    let no = || Some("too old".to_string());
    let mut ask = |label: &str, unlocked: bool, isolation: Option<String>, name: &str| {
        add_account(label, unlocked, isolation, &mut f, name, &mut ids).unwrap_err()
    };
    assert_eq!(ask("wa-default", false, no(), " "), "forbidden");
    assert_eq!(ask("settings", false, no(), " "), "locked");
    assert_eq!(ask("settings", true, no(), " "), "too old");
    assert_eq!(ask("settings", true, None, " \t"), "account name cannot be empty");
    assert_eq!(f, before);
    assert_eq!(ids.counter, 0);
}

#[test]
fn removing_and_renaming_are_guarded() {
    let mut f = two_accounts();
    let before = f.clone();
    assert_eq!(
        remove_account("wa-default", true, &mut f, "acct-1"),
        err("forbidden")
    );
    assert_eq!(
        remove_account("settings", false, &mut f, "acct-1"),
        err("locked")
    );
    assert_eq!(
        remove_account("settings", true, &mut f, "x"),
        err("unknown account: x")
    );
    assert!(rename_account("wa-default", true, &mut f, "acct-1", "x").is_err());
    assert_eq!(
        rename_account("settings", true, &mut f, "acct-1", "  "),
        err("account name cannot be empty")
    );
    assert_eq!(
        rename_account("settings", true, &mut f, "x", "y"),
        err("unknown account: x")
    );
    assert_eq!(f, before);

    let w = rename_account("settings", true, &mut f, "acct-1", " Büro ").unwrap();
    assert_eq!(w.label, "wa-acct-1");
    assert_eq!(w.title, "whatRust — Büro");
    assert_eq!(f.accounts[1].name, "Büro");
    let gone = remove_account("settings", true, &mut f, "acct-1").unwrap();
    assert_eq!(gone.name, "Büro");
    assert_eq!(f.accounts.len(), 1);
    assert_eq!(
        remove_account("settings", true, &mut f, "default"),
        err("cannot remove the last account")
    );
}

#[test]
fn opening_builds_a_closed_window() {
    let f = two_accounts();
    let open = vec!["wa-default".to_string()];
    let shut = open_account("settings", true, &f, "acct-1", &open).unwrap();
    assert_eq!((shut.window.as_str(), shut.build), ("wa-acct-1", true));
    assert_eq!(shut.account, f.accounts[1]);
    assert!(!open_account("settings", true, &f, "default", &open).unwrap().build);
    assert_eq!(
        open_account("settings", true, &f, "x", &open),
        err("unknown account: x")
    );
    assert_eq!(
        open_account("settings", false, &f, "x", &open),
        err("locked")
    );
    assert_eq!(
        open_account("wa-default", true, &f, "x", &open),
        err("forbidden")
    );
}

#[test]
fn lock_status_is_for_local_windows() {
    let mut c = config(Some("$hash"));
    c.biometric_enabled = true;
    let s = get_lock_status("lock", &c, true, false, "Touch ID").unwrap();
    assert!(s.enabled);
    assert!(!s.biometric_available);
    assert!(!s.biometric_enabled);
    assert_eq!(s.biometric_label, "Touch ID");
    assert!(s.lock_on_launch);
    assert!(!s.lock_on_hide);
    assert_eq!(s.idle_secs, 300);
    assert!(get_lock_status("lock", &c, true, true, "").unwrap().biometric_enabled);
    assert_eq!(
        get_lock_status("wa-default", &c, true, true, ""),
        err("forbidden")
    );
}

#[test]
fn new_passwords_are_checked() {
    assert_eq!(new_password_fault("abcd", "abcd"), None);
    assert_eq!(
        new_password_fault("abcd", "abce").unwrap(),
        "passwords do not match"
    );
    assert_eq!(
        new_password_fault("abc", "abd").unwrap(),
        "passwords do not match"
    );
    assert_eq!(
        new_password_fault("äöü", "äöü").unwrap(),
        "password must be at least 4 characters"
    );
    assert_eq!(new_password_fault("äöüß", "äöüß"), None);
}

#[test]
fn first_password_is_hashed_then_stored() {
    let c = config(None);
    let ask = |label: &str, unlocked: bool, active: bool, new: &str, hashed| {
        set_app_lock_password(label, unlocked, &c, active, new, "secret", hashed)
    };
    assert_eq!(ask("wa-x", true, false, "secret", None), reject("forbidden"));
    assert_eq!(ask("settings", false, false, "secret", None), reject("locked"));
    assert_eq!(
        ask("settings", true, true, "secret", None),
        reject("app lock is already enabled")
    );
    assert_eq!(
        ask("settings", true, false, "other", None),
        reject("passwords do not match")
    );
    assert_eq!(ask("settings", true, false, "secret", None), ConfigStep::Hash);
    assert_eq!(
        ask("settings", true, false, "secret", Some(Err("no salt".to_string()))),
        reject("no salt")
    );
    let mut stored = config(Some("$new"));
    stored.enabled = true;
    assert_eq!(
        ask("settings", true, false, "secret", Some(Ok("$new".to_string()))),
        ConfigStep::Store(stored)
    );
}

#[test]
fn changed_password_needs_the_current_one() {
    let c = config(Some("$old"));
    let ask = |c: &AppLockConfig, verified, new: &str, hashed| {
        change_app_lock_password("settings", true, c, verified, new, "secret", hashed)
    };
    assert_eq!(
        ask(&config(None), None, "secret", None),
        reject("app lock is not enabled")
    );
    assert_eq!(
        ask(&c, None, "other", None),
        ConfigStep::Verify("$old".to_string())
    );
    assert_eq!(
        ask(&c, Some(false), "other", None),
        reject("current password is incorrect")
    );
    assert_eq!(
        ask(&c, Some(true), "other", None),
        reject("passwords do not match")
    );
    assert_eq!(ask(&c, Some(true), "secret", None), ConfigStep::Hash);
    assert_eq!(
        ask(&c, Some(true), "secret", Some(Ok("$new".to_string()))),
        ConfigStep::Store(config(Some("$new")))
    );
    assert_eq!(
        change_app_lock_password("wa-x", true, &c, Some(true), "abcd", "abcd", None),
        reject("forbidden")
    );
}

#[test]
fn disabling_stores_the_defaults() {
    let c = config(Some("$old"));
    let defaults = AppLockConfig {
        enabled: false,
        password_phc: None,
        biometric_enabled: false,
        lock_on_launch: false,
        lock_on_hide: true,
        idle_secs: 0,
    };
    let ask = |c: &AppLockConfig, unlocked: bool, verified| {
        disable_app_lock("settings", unlocked, c, verified, &defaults)
    };
    assert_eq!(ask(&c, false, Some(true)), reject("locked"));
    assert_eq!(
        ask(&config(None), true, Some(true)),
        reject("app lock is not enabled")
    );
    assert_eq!(ask(&c, true, None), ConfigStep::Verify("$old".to_string()));
    assert_eq!(
        ask(&c, true, Some(false)),
        reject("current password is incorrect")
    );
    assert_eq!(
        ask(&c, true, Some(true)),
        ConfigStep::Store(defaults.clone())
    );
}

#[test]
fn options_are_stored() {
    let c = config(Some("$old"));
    let mut d = config(Some("$old"));
    d.lock_on_launch = false;
    d.lock_on_hide = true;
    d.idle_secs = 60;
    assert_eq!(
        set_app_lock_options("settings", true, &c, false, true, 60),
        ConfigStep::Store(d)
    );
    assert_eq!(
        set_app_lock_options("settings", false, &c, false, true, 60),
        reject("locked")
    );
}

#[test]
fn biometric_unlock_is_tested_first() {
    let c = config(Some("$old"));
    let mut on = config(Some("$old"));
    on.biometric_enabled = true;
    let ask = |active: bool, available: bool, tested| {
        set_biometric_enabled("settings", true, &c, active, available, true, tested)
    };
    assert_eq!(
        ask(false, false, None),
        reject("set an app-lock password first")
    );
    assert_eq!(
        ask(true, false, None),
        reject("biometric authentication is not available on this device")
    );
    assert_eq!(ask(true, true, None), ConfigStep::Authenticate);
    assert_eq!(
        ask(true, true, Some(Ok(false))),
        reject("biometric test did not succeed")
    );
    assert_eq!(
        ask(true, true, Some(Err("cancelled".to_string()))),
        reject("cancelled")
    );
    assert_eq!(
        ask(true, true, Some(Ok(true))),
        ConfigStep::Store(on.clone())
    );
    assert_eq!(
        set_biometric_enabled("settings", true, &on, false, false, false, None),
        ConfigStep::Store(c)
    );
}

#[test]
fn only_an_active_lock_locks() {
    assert_eq!(lock_app("settings", true), Ok(()));
    assert_eq!(lock_app("settings", false), err("app lock is not enabled"));
    assert_eq!(lock_app("wa-default", true), err("forbidden"));
}

#[test]
fn only_the_lock_window_unlocks() {
    let no = || UnlockStep::Reject("forbidden".to_string());
    let c = config(Some("$hash"));
    assert_eq!(unlock_password("settings", &c, Some(true)), no());
    assert_eq!(unlock_password("wa-default", &config(None), None), no());
    assert_eq!(unlock_password("lock", &config(None), None), UnlockStep::Unlock);
    assert_eq!(
        unlock_password("lock", &c, None),
        UnlockStep::Verify("$hash".to_string())
    );
    assert_eq!(unlock_password("lock", &c, Some(false)), UnlockStep::Refuse);
    assert_eq!(unlock_password("lock", &c, Some(true)), UnlockStep::Unlock);

    let mut b = config(Some("$hash"));
    assert_eq!(
        unlock_biometric("lock", &b, Some(Ok(true))),
        UnlockStep::Reject("biometric unlock is not enabled".to_string())
    );
    b.biometric_enabled = true;
    assert_eq!(unlock_biometric("settings", &b, Some(Ok(true))), no());
    assert_eq!(unlock_biometric("lock", &b, None), UnlockStep::Authenticate);
    assert_eq!(unlock_biometric("lock", &b, Some(Ok(false))), UnlockStep::Refuse);
    assert_eq!(unlock_biometric("lock", &b, Some(Ok(true))), UnlockStep::Unlock);
    assert_eq!(
        unlock_biometric("lock", &b, Some(Err("timeout".to_string()))),
        UnlockStep::Reject("timeout".to_string())
    );
}
