use whatrust::lock::{
    is_lock_label, is_unlocked, lock_now, lock_window_built, mark_locked, record_hidden, refuses_close, require_unlocked,
    should_hide, show_lock_window, unlock, BuiltStep, LockState, LockWindowStep, OpenWindow,
    Restore,
};

#[test]
fn should_hide_covers_accounts_and_settings() {
    assert!(should_hide("wa-default"));
    assert!(should_hide("wa-acct-3"));
    assert!(should_hide("settings"));
}

#[test]
fn should_hide_never_hides_the_lock_window() {
    assert!(!should_hide("lock"));
    assert!(!should_hide("some-future-internal-panel"));
}

#[test]
fn is_lock_label_matches_only_lock() {
    assert!(is_lock_label("lock"));
    assert!(!is_lock_label("settings"));
    assert!(!is_lock_label("wa-default"));
}

fn window(label: &str, visible: bool) -> OpenWindow {
    OpenWindow {
        label: label.to_string(),
        visible,
    }
}

fn windows() -> Vec<OpenWindow> {
    vec![
        window("wa-default", true),
        window("wa-acct-1", false),
        window("panel", true),
        window("settings", true),
        window("lock", true),
    ]
}

#[test]
fn unmanaged_state_counts_as_unlocked() {
    assert!(is_unlocked(None));
    assert!(is_unlocked(Some(&LockState::new(true))));
    assert!(!is_unlocked(Some(&LockState::new(false))));
}

#[test]
fn locked_app_is_refused() {
    assert_eq!(require_unlocked(true), Ok(()));
    assert_eq!(require_unlocked(false), Err("locked".to_string()));
}

#[test]
fn locking_hides_what_is_visible() {
    let mut state = LockState::new(true);
    let hidden = lock_now(&mut state, &windows());
    assert_eq!(hidden, vec!["wa-default".to_string(), "settings".to_string()]);
    assert_eq!(state.hidden, hidden);
    assert!(!state.unlocked);
}

#[test]
fn locking_twice_keeps_what_was_hidden() {
    let mut state = LockState::new(true);
    lock_now(&mut state, &windows());
    let again = lock_now(&mut state, &vec![window("wa-acct-1", true)]);
    assert!(again.is_empty());
    assert_eq!(
        state.hidden,
        vec!["wa-default".to_string(), "settings".to_string()]
    );
}

#[test]
fn unlocking_restores_what_locking_hid() {
    let mut state = LockState::new(true);
    let hidden = lock_now(&mut state, &windows());
    assert_eq!(unlock(&mut state), Restore::Windows(hidden));
    assert!(state.unlocked);
    assert!(state.hidden.is_empty());
    assert_eq!(unlock(&mut state), Restore::ActiveAccount);
}

#[test]
fn unlocking_without_hidden_windows_shows_the_active_account() {
    let mut state = LockState::new(true);
    lock_now(&mut state, &vec![window("wa-default", false)]);
    assert_eq!(unlock(&mut state), Restore::ActiveAccount);
}

#[test]
fn lock_window_is_shown_or_built_while_locked() {
    assert_eq!(show_lock_window(true, true), LockWindowStep::Leave);
    assert_eq!(show_lock_window(true, false), LockWindowStep::Leave);
    assert_eq!(show_lock_window(false, true), LockWindowStep::Show);
    assert_eq!(show_lock_window(false, false), LockWindowStep::Build);
}

#[test]
fn stale_lock_window_is_destroyed() {
    assert_eq!(lock_window_built(false, false), BuiltStep::Leave);
    assert_eq!(lock_window_built(false, true), BuiltStep::Leave);
    assert_eq!(lock_window_built(true, true), BuiltStep::Destroy);
    assert_eq!(lock_window_built(true, false), BuiltStep::Guard);
    assert!(refuses_close(false));
    assert!(!refuses_close(true));
}

#[test]
fn locking_in_two_steps_is_locking() {
    let mut whole = LockState::new(true);
    let hidden = lock_now(&mut whole, &windows());
    let mut state = LockState::new(true);
    assert!(mark_locked(&mut state));
    assert!(!state.unlocked);
    assert!(state.hidden.is_empty());
    assert_eq!(record_hidden(&mut state, &windows()), hidden);
    assert_eq!(state.hidden, whole.hidden);
    assert!(!state.unlocked);
    assert!(!mark_locked(&mut state));
}
