use whatrust::settings::{
    apply_flatpak_autostart, flatpak_autostart_entry, flatpak_entry_name, flatpak_id,
    is_valid_flatpak_id, ApplyAction, ApplyEvent, ApplyRun, EntryStep, Preferences,
};

#[test]
fn flatpak_id_validation_blocks_path_and_desktop_entry_injection() {
    assert!(is_valid_flatpak_id("io.github.karem505.whatRust"));
    assert!(!is_valid_flatpak_id("../../autostart"));
    assert!(!is_valid_flatpak_id("io.github.karem505.whatRust\nExec=sh"));
    assert!(!is_valid_flatpak_id("io..whatRust"));
    assert!(!is_valid_flatpak_id("io.github.505whatRust"));
}

#[test]
fn flatpak_autostart_entry_reenters_the_sandbox() {
    let entry = flatpak_autostart_entry("io.github.karem505.whatRust");
    assert!(entry.contains(
        "Exec=flatpak run --command=whatrust io.github.karem505.whatRust --minimized"
    ));
    assert!(entry.contains("Icon=io.github.karem505.whatRust"));
    assert!(entry.contains("X-Flatpak=io.github.karem505.whatRust"));
    assert!(!entry.contains("Exec=/app/bin/whatrust"));
}

#[test]
fn autostart_entry_is_exact() {
    let expected = "[Desktop Entry]\n\
                    Type=Application\n\
                    Version=1.0\n\
                    Name=whatRust\n\
                    Comment=Start whatRust minimized\n\
                    Exec=flatpak run --command=whatrust a.b.c --minimized\n\
                    Icon=a.b.c\n\
                    Terminal=false\n\
                    X-GNOME-Autostart-enabled=true\n\
                    X-Flatpak=a.b.c\n";
    assert_eq!(flatpak_autostart_entry("a.b.c"), expected);
    assert_eq!(flatpak_entry_name("a.b.c"), "a.b.c.desktop");
}

#[test]
fn defaults_are_sane() {
    let p = Preferences::default();
    assert!(p.close_to_tray);
    assert!(!p.start_minimized);
    assert!(!p.autostart);
    assert!(p.hotkey_enabled);
    assert_eq!(p.hotkey, "CmdOrCtrl+Shift+W");
    assert!(p.notifications);
}

#[test]
fn flatpak_ids_have_three_plain_parts() {
    assert!(is_valid_flatpak_id("_a.b-c.D9_"));
    assert!(!is_valid_flatpak_id(""));
    assert!(!is_valid_flatpak_id("a.b"));
    assert!(!is_valid_flatpak_id("a.b.-c"));
    assert!(!is_valid_flatpak_id("a.b.c."));
    assert!(!is_valid_flatpak_id("a.b.é"));
    let long = format!("a.b.{}", "c".repeat(251));
    assert!(is_valid_flatpak_id(&long));
    assert!(!is_valid_flatpak_id(&format!("{long}c")));
}

#[test]
fn flatpak_id_is_taken_when_valid() {
    assert_eq!(flatpak_id(None), None);
    assert_eq!(flatpak_id(Some("a/b".to_string())), None);
    assert_eq!(
        flatpak_id(Some("a.b.c".to_string())),
        Some("a.b.c".to_string())
    );
}

#[test]
fn autostart_entry_follows_the_setting() {
    assert_eq!(
        apply_flatpak_autostart("a.b.c", true, true),
        EntryStep::Write("a.b.c.desktop".to_string(), flatpak_autostart_entry("a.b.c"))
    );
    assert_eq!(
        apply_flatpak_autostart("a.b.c", false, true),
        EntryStep::Remove("a.b.c.desktop".to_string())
    );
    assert_eq!(
        apply_flatpak_autostart("a.b.c", false, false),
        EntryStep::Leave
    );
}

fn failed(e: &str) -> ApplyEvent {
    ApplyEvent::Failed(e.to_string())
}

#[test]
fn applying_enables_and_registers() {
    let mut p = Preferences::default();
    p.autostart = true;
    let (mut run, first) = ApplyRun::start(&p, None);
    assert_eq!(first, ApplyAction::EnableAutostart);
    assert_eq!(run.next(ApplyEvent::Succeeded), ApplyAction::UnregisterShortcuts);
    assert_eq!(
        run.next(failed("ignored")),
        ApplyAction::RegisterShortcut("CmdOrCtrl+Shift+W".to_string())
    );
    assert_eq!(run.next(ApplyEvent::Succeeded), ApplyAction::Done(None));
}

#[test]
fn disabled_autostart_is_left_alone() {
    let mut p = Preferences::default();
    p.hotkey = " \t".to_string();
    let (mut run, first) = ApplyRun::start(&p, None);
    assert_eq!(first, ApplyAction::QueryAutostart);
    assert_eq!(
        run.next(ApplyEvent::AutostartIs(false)),
        ApplyAction::UnregisterShortcuts
    );
    assert_eq!(run.next(ApplyEvent::Succeeded), ApplyAction::Done(None));
}

#[test]
fn failures_become_one_warning() {
    let mut p = Preferences::default();
    p.hotkey = " Ctrl+Alt+W ".to_string();
    let (mut run, first) = ApplyRun::start(&p, None);
    assert_eq!(first, ApplyAction::QueryAutostart);
    assert_eq!(
        run.next(ApplyEvent::AutostartIs(true)),
        ApplyAction::DisableAutostart
    );
    assert_eq!(run.next(failed("denied")), ApplyAction::UnregisterShortcuts);
    assert_eq!(
        run.next(ApplyEvent::Succeeded),
        ApplyAction::RegisterShortcut(" Ctrl+Alt+W ".to_string())
    );
    assert_eq!(
        run.next(failed("taken")),
        ApplyAction::Done(Some(
            "autostart could not be updated: denied; \
             shortcut not registered (it may be in use): taken"
                .to_string()
        ))
    );
}

#[test]
fn failed_query_is_a_warning() {
    let mut p = Preferences::default();
    p.hotkey_enabled = false;
    let (mut run, _) = ApplyRun::start(&p, None);
    assert_eq!(run.next(failed("no bus")), ApplyAction::UnregisterShortcuts);
    assert_eq!(
        run.next(ApplyEvent::Succeeded),
        ApplyAction::Done(Some("autostart could not be updated: no bus".to_string()))
    );
}

#[test]
fn flatpak_handles_autostart_itself() {
    let mut p = Preferences::default();
    p.hotkey_enabled = false;
    let (mut run, first) = ApplyRun::start(&p, Some("a.b.c".to_string()));
    assert_eq!(first, ApplyAction::FlatpakAutostart("a.b.c".to_string(), false));
    assert_eq!(run.next(ApplyEvent::Succeeded), ApplyAction::UnregisterShortcuts);
    assert_eq!(run.next(ApplyEvent::Succeeded), ApplyAction::Done(None));
}
