use whatrust::accounts::{
    add, add_with_store_uuid, aggregate_unread, can_add, checked_unread, copy_of, find,
    gen_store_uuid, id_from_label, position, remove, rename, set_startup_account, startup_account,
    window_label, Account, AccountsFile, UnreadMap,
};
use whatrust::store_id::StoreIds;

#[test]
fn missing_or_stale_startup_preference_uses_ui_order() {
    let mut ids = StoreIds::new();
    let mut f = AccountsFile::default();
    add(&mut f, "Work", &mut ids);
    f.accounts.reverse();
    assert_eq!(startup_account(&f).unwrap().id, "default");
    f.startup_account = Some("removed-id".into());
    assert_eq!(startup_account(&f).unwrap().id, "default");
}

#[test]
fn removing_preferred_account_selects_remaining_account() {
    let mut ids = StoreIds::new();
    let mut f = AccountsFile::default();
    let second = add(&mut f, "Work", &mut ids);
    set_startup_account(&mut f, &second.id).unwrap();
    remove(&mut f, &second.id).unwrap();
    assert_eq!(startup_account(&f).unwrap().id, "default");
    assert_eq!(f.startup_account, None);
}

#[test]
fn startup_selection_rejects_unknown_id_without_mutating_state() {
    let mut f = AccountsFile::default();
    let before = f.clone();
    assert!(set_startup_account(&mut f, "missing").is_err());
    assert_eq!(f, before);
}

#[test]
fn no_startup_account_when_list_is_empty() {
    let mut f = AccountsFile::default();
    f.accounts.clear();
    assert!(startup_account(&f).is_none());
}

#[test]
fn default_file_has_single_default_account() {
    let f = AccountsFile::default();
    assert_eq!(f.accounts.len(), 1);
    let a = &f.accounts[0];
    assert_eq!(a.id, "default");
    assert_eq!(a.name, "WhatsApp");
    assert_eq!(a.order, 0);
    assert_eq!(a.store_uuid, None);
    assert_eq!(f.next_seq, 1);
}

#[test]
fn add_increments_seq_and_order() {
    let mut ids = StoreIds::new();
    let mut f = AccountsFile::default();
    let a = add(&mut f, "Work", &mut ids);
    assert_eq!(a.id, "acct-1");
    assert_eq!(a.name, "Work");
    assert_eq!(a.order, 1);
    assert_eq!(f.next_seq, 2);

    let b = add(&mut f, "Personal", &mut ids);
    assert_eq!(b.id, "acct-2");
    assert_eq!(b.order, 2);
    assert_eq!(f.next_seq, 3);
    assert_eq!(f.accounts.len(), 3);
}

#[test]
fn added_account_has_non_nil_store_uuid() {
    let mut ids = StoreIds::new();
    let mut f = AccountsFile::default();
    let a = add(&mut f, "Work", &mut ids);
    let uuid = a.store_uuid.expect("non-default account has a store_uuid");
    assert_ne!(uuid, [0u8; 16]);
}

#[test]
fn gen_store_uuid_is_non_nil_and_v4_shaped() {
    let mut ids = StoreIds::new();
    let b = gen_store_uuid(&mut ids);
    assert_ne!(b, [0u8; 16]);
    assert_eq!(b[6] & 0xF0, 0x40, "version nibble must be 4");
    assert_eq!(b[8] & 0xC0, 0x80, "variant bits must be 10xxxxxx");
}

#[test]
fn gen_store_uuid_differs_across_calls() {
    let mut ids = StoreIds::new();
    let a = gen_store_uuid(&mut ids);
    let b = gen_store_uuid(&mut ids);
    assert_ne!(a, b);
}

#[test]
fn remove_works_and_preserves_others() {
    let mut ids = StoreIds::new();
    let mut f = AccountsFile::default();
    let a = add(&mut f, "Work", &mut ids);
    let _b = add(&mut f, "Personal", &mut ids);
    let removed = remove(&mut f, &a.id).unwrap();
    assert_eq!(removed.id, a.id);
    assert_eq!(f.accounts.len(), 2);
    assert!(f.accounts.iter().any(|x| x.id == "default"));
    assert!(f.accounts.iter().any(|x| x.id == "acct-2"));
    assert!(!f.accounts.iter().any(|x| x.id == "acct-1"));
}

#[test]
fn cannot_remove_last_account() {
    let mut f = AccountsFile::default();
    let err = remove(&mut f, "default").unwrap_err();
    assert!(err.contains("last account"));
    assert_eq!(f.accounts.len(), 1);
}

#[test]
fn remove_unknown_id_is_err() {
    let mut ids = StoreIds::new();
    let mut f = AccountsFile::default();
    add(&mut f, "Work", &mut ids);
    let err = remove(&mut f, "nope").unwrap_err();
    assert!(err.contains("unknown account"));
    assert_eq!(f.accounts.len(), 2);
}

#[test]
fn rename_updates_name() {
    let mut f = AccountsFile::default();
    rename(&mut f, "default", "Primary").unwrap();
    assert_eq!(f.accounts[0].name, "Primary");
}

#[test]
fn rename_unknown_id_is_err() {
    let mut f = AccountsFile::default();
    let err = rename(&mut f, "nope", "x").unwrap_err();
    assert!(err.contains("unknown account"));
}

#[test]
fn window_label_format() {
    assert_eq!(window_label("default"), "wa-default");
    assert_eq!(window_label("acct-2"), "wa-acct-2");
}

#[test]
fn id_from_label_round_trips() {
    assert_eq!(id_from_label("wa-default"), Some("default"));
    assert_eq!(id_from_label("wa-acct-2"), Some("acct-2"));
    assert_eq!(id_from_label("settings"), None);
    for id in ["default", "acct-7"] {
        assert_eq!(id_from_label(&window_label(id)), Some(id));
    }
}

#[test]
fn aggregate_unread_sums_all() {
    let mut m = UnreadMap::new();
    m.insert("default".to_string(), 3);
    m.insert("acct-1".to_string(), 4);
    m.insert("acct-2".to_string(), 0);
    assert_eq!(aggregate_unread(&m), 7);
}

#[test]
fn aggregate_unread_zero_when_all_clear() {
    let mut m = UnreadMap::new();
    m.insert("default".to_string(), 0);
    m.insert("acct-1".to_string(), 0);
    assert_eq!(aggregate_unread(&m), 0);
    assert_eq!(aggregate_unread(&UnreadMap::new()), 0);
}

#[test]
fn error_texts_are_exact() {
    let mut ids = StoreIds::new();
    let mut f = AccountsFile::default();
    assert_eq!(
        remove(&mut f, "default"),
        Err("cannot remove the last account".to_string())
    );
    // With one account the last-account rule comes before the id is looked up.
    assert_eq!(
        remove(&mut f, "nope"),
        Err("cannot remove the last account".to_string())
    );
    add(&mut f, "Work", &mut ids);
    assert_eq!(
        remove(&mut f, "nope"),
        Err("unknown account: nope".to_string())
    );
    assert_eq!(
        rename(&mut f, "nope", "x"),
        Err("unknown account: nope".to_string())
    );
    assert_eq!(
        set_startup_account(&mut f, "nope"),
        Err("unknown account: nope".to_string())
    );
}

#[test]
fn ids_are_never_given_twice() {
    let mut ids = StoreIds::new();
    let mut f = AccountsFile::default();
    let a = add(&mut f, "Work", &mut ids);
    remove(&mut f, &a.id).unwrap();
    let b = add(&mut f, "Work", &mut ids);
    assert_eq!(a.id, "acct-1");
    assert_eq!(b.id, "acct-2");
    assert_eq!(b.order, 1);
}

#[test]
fn removing_what_was_added_leaves_the_list() {
    let mut f = AccountsFile::default();
    let before = f.clone();
    let a = add_with_store_uuid(&mut f, "Work", [7u8; 16]);
    assert_eq!(
        a,
        Account {
            id: "acct-1".to_string(),
            name: "Work".to_string(),
            order: 1,
            store_uuid: Some([7u8; 16]),
        }
    );
    assert_eq!(remove(&mut f, "acct-1"), Ok(a));
    assert_eq!(f.accounts, before.accounts);
    assert_eq!(f.next_seq, 2);
}

#[test]
fn other_preference_survives_a_removal() {
    let mut ids = StoreIds::new();
    let mut f = AccountsFile::default();
    add(&mut f, "Work", &mut ids);
    add(&mut f, "Personal", &mut ids);
    set_startup_account(&mut f, "acct-2").unwrap();
    remove(&mut f, "acct-1").unwrap();
    assert_eq!(f.startup_account, Some("acct-2".to_string()));
    assert_eq!(startup_account(&f).unwrap().name, "Personal");
}

#[test]
fn first_of_equal_orders_starts() {
    let mut f = AccountsFile::default();
    f.accounts[0].order = 3;
    let mut twin = copy_of(&f.accounts[0]);
    twin.id = "twin".to_string();
    f.accounts.push(twin);
    assert_eq!(startup_account(&f).unwrap().id, "default");
}

#[test]
fn added_account_goes_after_the_highest_order() {
    let mut f = AccountsFile::default();
    f.accounts[0].order = 41;
    assert_eq!(add_with_store_uuid(&mut f, "Work", [1u8; 16]).order, 42);
    f.accounts.clear();
    assert_eq!(add_with_store_uuid(&mut f, "Only", [1u8; 16]).order, 0);
}

#[test]
fn full_file_takes_no_account() {
    let mut f = AccountsFile::default();
    assert!(can_add(&f));
    f.next_seq = u32::MAX;
    assert!(!can_add(&f));
    f.next_seq = 1;
    f.accounts[0].order = u32::MAX;
    assert!(!can_add(&f));
}

#[test]
fn accounts_are_found_by_id() {
    let mut ids = StoreIds::new();
    let mut f = AccountsFile::default();
    add(&mut f, "Work", &mut ids);
    assert_eq!(position(&f.accounts, "acct-1"), Some(1));
    assert_eq!(position(&f.accounts, "acct-9"), None);
    assert_eq!(find(&f.accounts, "acct-1").unwrap().name, "Work");
    assert!(find(&f.accounts, "acct-9").is_none());
}

#[test]
fn rename_touches_one_account() {
    let mut ids = StoreIds::new();
    let mut f = AccountsFile::default();
    add(&mut f, "Work", &mut ids);
    let before = f.clone();
    rename(&mut f, "acct-1", "Büro").unwrap();
    assert_eq!(f.accounts[0], before.accounts[0]);
    assert_eq!(f.accounts[1].name, "Büro");
    assert_eq!(f.accounts[1].store_uuid, before.accounts[1].store_uuid);
    assert_eq!(f.next_seq, before.next_seq);
}

#[test]
fn unread_sum_that_does_not_fit_is_none() {
    let mut m = UnreadMap::new();
    m.insert("a".to_string(), u32::MAX);
    assert_eq!(checked_unread(&m), Some(u32::MAX));
    m.insert("b".to_string(), 1);
    assert_eq!(checked_unread(&m), None);
}

#[test]
fn unread_count_is_replaced_and_removed() {
    let mut m = UnreadMap::new();
    m.insert("a".to_string(), 3);
    m.insert("b".to_string(), 4);
    m.insert("a".to_string(), 5);
    assert_eq!(m.get("a"), Some(5));
    assert_eq!(aggregate_unread(&m), 9);
    let copy = m.clone();
    m.remove("a");
    m.remove("missing");
    assert_eq!(m.get("a"), None);
    assert_eq!(aggregate_unread(&m), 4);
    assert_eq!(m.items().len(), 1);
    assert_eq!(aggregate_unread(&copy), 9);
}

#[test]
fn no_id_is_given_twice_in_any_file() {
    // A file that was edited by hand: its ids are not from its sequence.
    let mut f = AccountsFile::default();
    f.accounts[0].id = "mine".to_string();
    f.next_seq = 7;
    let first = add_with_store_uuid(&mut f, "Work", [1u8; 16]);
    set_startup_account(&mut f, "acct-7").unwrap();
    rename(&mut f, "acct-7", "Later").unwrap();
    remove(&mut f, &first.id).unwrap();
    assert_eq!(add_with_store_uuid(&mut f, "Work", [1u8; 16]).id, "acct-8");
    assert_eq!(first.id, "acct-7");
}
