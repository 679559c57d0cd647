//! The list of accounts: adding, removing, renaming, the startup account, the
//! unread counts, and the labels of the account windows.

use vstd::prelude::*;
use vstd::string::*;

use crate::store_id::StoreIds;
use crate::text;
use crate::text::{after_prefix, decimal_string, joined, same_text};
use crate::text_map;
use crate::text_map::TextMap;

pub use crate::store_id::gen_store_uuid;

verus! {

/// Per-account unread counts, keyed by account id.
pub type UnreadMap = TextMap<u32>;

/// A single WhatsApp account.
///
/// `store_uuid` is `Some` only for accounts that were added: the `default`
/// account keeps `None`, so it uses the default webview store.
#[derive(Debug, Clone, PartialEq, Eq)]
pub struct Account {
    pub id: String,
    pub name: String,
    pub order: u32,
    pub store_uuid: Option<[u8; 16]>,
}

/// The persisted accounts file. `next_seq` only grows, so the id of a removed
/// account is not given to another one.
#[derive(Debug, Clone, PartialEq, Eq)]
pub struct AccountsFile {
    pub accounts: Vec<Account>,
    pub next_seq: u32,
    /// The preferred startup account; independent of the `default` profile id.
    pub startup_account: Option<String>,
}

/// The view of an `Account`.
pub struct AccountModel {
    pub id: Seq<char>,
    pub name: Seq<char>,
    pub order: nat,
    pub store_uuid: Option<Seq<u8>>,
}

/// The view of an `AccountsFile`.
pub struct FileModel {
    pub accounts: Seq<AccountModel>,
    pub next_seq: nat,
    pub startup_account: Option<Seq<char>>,
}

/// The view of an optional store identifier.
pub open spec fn uuid_view(uuid: Option<[u8; 16]>) -> Option<Seq<u8>> {
    match uuid {
        Some(b) => Some(b@),
        None => None,
    }
}

impl View for Account {
    type V = AccountModel;

    open spec fn view(&self) -> AccountModel {
        AccountModel {
            id: self.id@,
            name: self.name@,
            order: self.order as nat,
            store_uuid: uuid_view(self.store_uuid),
        }
    }
}

/// The views of a list of accounts.
pub open spec fn account_models(accounts: Seq<Account>) -> Seq<AccountModel> {
    accounts.map_values(|a: Account| a@)
}

impl View for AccountsFile {
    type V = FileModel;

    open spec fn view(&self) -> FileModel {
        FileModel {
            accounts: account_models(self.accounts@),
            next_seq: self.next_seq as nat,
            startup_account: text::opt_string_view(self.startup_account),
        }
    }
}

// ---------------------------------------------------------------------------
// The file of a fresh installation.
// ---------------------------------------------------------------------------

/// The account of a fresh installation.
pub open spec fn default_account() -> AccountModel {
    AccountModel { id: "default"@, name: "WhatsApp"@, order: 0, store_uuid: None }
}

/// The file of a fresh installation.
pub open spec fn default_file() -> FileModel {
    FileModel { accounts: seq![default_account()], next_seq: 1, startup_account: None }
}

impl Default for AccountsFile {
    fn default() -> (f: Self)
        ensures
            f@ == default_file(),
    {
        let mut accounts: Vec<Account> = Vec::new();
        accounts.push(
            Account {
                id: "default".to_owned(),
                name: "WhatsApp".to_owned(),
                order: 0,
                store_uuid: None,
            },
        );
        assert(account_models(accounts@) == seq![default_account()]);
        AccountsFile { accounts, next_seq: 1, startup_account: None }
    }
}

// ---------------------------------------------------------------------------
// Looking accounts up.
// ---------------------------------------------------------------------------

/// The position of the first account with this id, or the number of accounts.
pub open spec fn index_of(accounts: Seq<AccountModel>, id: Seq<char>) -> nat
    decreases accounts.len(),
{
    if accounts.len() == 0 || accounts[0].id == id {
        0
    } else {
        1 + index_of(accounts.skip(1), id)
    }
}

/// Whether an account with this id is listed.
pub open spec fn is_listed(accounts: Seq<AccountModel>, id: Seq<char>) -> bool {
    index_of(accounts, id) < accounts.len()
}

/// The first account with this id.
pub open spec fn spec_find(accounts: Seq<AccountModel>, id: Seq<char>) -> Option<AccountModel> {
    if is_listed(accounts, id) {
        Some(accounts[index_of(accounts, id) as int])
    } else {
        None
    }
}

/// `index_of` is the least position of an account with this id.
pub proof fn lemma_index_of(accounts: Seq<AccountModel>, id: Seq<char>)
    ensures
        index_of(accounts, id) <= accounts.len(),
        is_listed(accounts, id) ==> accounts[index_of(accounts, id) as int].id == id,
        forall|j: int| 0 <= j < index_of(accounts, id) ==> (#[trigger] accounts[j]).id != id,
    decreases accounts.len(),
{
    if accounts.len() > 0 && accounts[0].id != id {
        lemma_index_of(accounts.skip(1), id);
        assert forall|j: int| 0 <= j < index_of(accounts, id) implies (
        #[trigger] accounts[j]).id != id by {
            if j > 0 {
                assert(accounts[j] == accounts.skip(1)[j - 1]);
            }
        }
    }
}

/// A position with this id and none before it is `index_of`.
pub proof fn lemma_index_of_is(accounts: Seq<AccountModel>, id: Seq<char>, i: int)
    requires
        0 <= i <= accounts.len(),
        i < accounts.len() ==> accounts[i].id == id,
        forall|j: int| 0 <= j < i ==> (#[trigger] accounts[j]).id != id,
    ensures
        index_of(accounts, id) == i,
{
    lemma_index_of(accounts, id);
    if index_of(accounts, id) < i {
        assert(accounts[index_of(accounts, id) as int].id == id);
    } else if index_of(accounts, id) > i {
        assert(accounts[i].id != id);
    }
}

/// The position of the first account with this id.
pub fn position(accounts: &Vec<Account>, id: &str) -> (at: Option<usize>)
    ensures
        match at {
            Some(i) => i < accounts@.len() && i == index_of(account_models(accounts@), id@),
            None => !is_listed(account_models(accounts@), id@),
        },
{
    let ghost models = account_models(accounts@);
    let mut i: usize = 0;
    while i < accounts.len()
        invariant
            i <= accounts@.len(),
            models == account_models(accounts@),
            forall|j: int| 0 <= j < i ==> (#[trigger] models[j]).id != id@,
        decreases accounts@.len() - i,
    {
        assert(models[i as int] == accounts@[i as int]@);
        if same_text(&accounts[i].id, id) {
            proof {
                lemma_index_of_is(models, id@, i as int);
            }
            return Some(i);
        }
        i += 1;
    }
    proof {
        lemma_index_of_is(models, id@, i as int);
    }
    None
}

/// The first account with this id.
pub fn find<'a>(accounts: &'a Vec<Account>, id: &str) -> (found: Option<&'a Account>)
    ensures
        match found {
            Some(a) => spec_find(account_models(accounts@), id@) == Some(a@),
            None => spec_find(account_models(accounts@), id@) is None,
        },
{
    match position(accounts, id) {
        Some(i) => Some(&accounts[i]),
        None => None,
    }
}

/// A copy of an account.
pub fn copy_of(a: &Account) -> (b: Account)
    ensures
        b@ == a@,
{
    Account {
        id: a.id.clone(),
        name: a.name.clone(),
        order: a.order,
        store_uuid: a.store_uuid,
    }
}

/// The message for an id that is not listed.
pub open spec fn unknown_account(id: Seq<char>) -> Seq<char> {
    "unknown account: "@ + id
}

// ---------------------------------------------------------------------------
// Adding.
// ---------------------------------------------------------------------------

/// The id of the account that is added with sequence number `n`.
pub open spec fn acct_id(n: nat) -> Seq<char> {
    "acct-"@ + text::decimal(n)
}

/// The order after the highest one; zero for no accounts.
pub open spec fn next_order(accounts: Seq<AccountModel>) -> nat
    decreases accounts.len(),
{
    if accounts.len() == 0 {
        0
    } else if next_order(accounts.drop_last()) <= accounts.last().order {
        accounts.last().order + 1
    } else {
        next_order(accounts.drop_last())
    }
}

/// `next_order` is above every order, and no higher than it must be.
pub proof fn lemma_next_order(accounts: Seq<AccountModel>)
    ensures
        forall|i: int| 0 <= i < accounts.len() ==> (#[trigger] accounts[i]).order < next_order(
            accounts,
        ),
        accounts.len() == 0 ==> next_order(accounts) == 0,
        accounts.len() > 0 ==> exists|i: int|
            0 <= i < accounts.len() && (#[trigger] accounts[i]).order + 1 == next_order(accounts),
    decreases accounts.len(),
{
    if accounts.len() > 0 {
        let init = accounts.drop_last();
        lemma_next_order(init);
        assert forall|i: int| 0 <= i < accounts.len() implies (#[trigger] accounts[i]).order
            < next_order(accounts) by {
            if i < init.len() {
                assert(init[i] == accounts[i]);
            }
        }
        if next_order(init) <= accounts.last().order {
            assert(accounts[accounts.len() - 1].order + 1 == next_order(accounts));
        } else {
            let i = choose|i: int|
                0 <= i < init.len() && (#[trigger] init[i]).order + 1 == next_order(init);
            assert(accounts[i].order + 1 == next_order(accounts));
        }
    }
}

/// The account that is added to `f`.
pub open spec fn new_account(f: FileModel, name: Seq<char>, uuid: Seq<u8>) -> AccountModel {
    AccountModel {
        id: acct_id(f.next_seq),
        name,
        order: next_order(f.accounts),
        store_uuid: Some(uuid),
    }
}

/// `f` with an account added.
pub open spec fn file_added(f: FileModel, name: Seq<char>, uuid: Seq<u8>) -> FileModel {
    FileModel {
        accounts: f.accounts.push(new_account(f, name, uuid)),
        next_seq: f.next_seq + 1,
        startup_account: f.startup_account,
    }
}

/// Whether the next sequence number and the next order fit their fields.
pub open spec fn has_room(f: FileModel) -> bool {
    f.next_seq < u32::MAX && next_order(f.accounts) <= u32::MAX
}

/// The order after the highest one, if it fits.
fn order_after(accounts: &Vec<Account>) -> (order: Option<u32>)
    ensures
        match order {
            Some(o) => o == next_order(account_models(accounts@)),
            None => next_order(account_models(accounts@)) > u32::MAX,
        },
{
    let ghost models = account_models(accounts@);
    let mut next: u64 = 0;
    let mut i: usize = 0;
    while i < accounts.len()
        invariant
            i <= accounts@.len(),
            models == account_models(accounts@),
            next == next_order(models.take(i as int)),
            next <= 0x1_0000_0000,
        decreases accounts@.len() - i,
    {
        assert(models.take(i + 1).drop_last() == models.take(i as int));
        assert(models.take(i + 1).last() == accounts@[i as int]@);
        let order: u64 = accounts[i].order as u64;
        if next <= order {
            next = order + 1;
        }
        i += 1;
    }
    assert(models.take(i as int) == models);
    if next <= u32::MAX as u64 {
        Some(next as u32)
    } else {
        None
    }
}

/// Whether an account can be added: the next sequence number and the next order
/// fit their fields.
pub fn can_add(f: &AccountsFile) -> (room: bool)
    ensures
        room == has_room(f@),
{
    f.next_seq < u32::MAX && order_after(&f.accounts).is_some()
}

/// Appends an account with this store identifier. Its id is `acct-` and the next
/// sequence number, its order comes after the highest one.
pub fn add_with_store_uuid(f: &mut AccountsFile, name: &str, uuid: [u8; 16]) -> (acct: Account)
    requires
        has_room(old(f)@),
    ensures
        acct@ == new_account(old(f)@, name@, uuid@),
        final(f)@ == file_added(old(f)@, name@, uuid@),
{
    let order: u32 = match order_after(&f.accounts) {
        Some(o) => o,
        None => 0,
    };
    let acct: Account = Account {
        id: joined("acct-", &decimal_string(f.next_seq)),
        name: name.to_owned(),
        order,
        store_uuid: Some(uuid),
    };
    let listed: Account = copy_of(&acct);
    let ghost before = f.accounts@;
    f.next_seq = f.next_seq + 1;
    f.accounts.push(listed);
    assert(account_models(f.accounts@) == account_models(before).push(acct@));
    acct
}

/// Appends an account with a fresh store identifier.
///
/// The identifier depends on the clock, so the contract says which accounts can
/// come out; `add_with_store_uuid` says what is added for each identifier.
pub fn add(f: &mut AccountsFile, name: &str, ids: &mut StoreIds) -> (acct: Account)
    requires
        has_room(old(f)@),
    ensures
        acct@.store_uuid matches Some(uuid) && {
            &&& acct@ == new_account(old(f)@, name@, uuid)
            &&& final(f)@ == file_added(old(f)@, name@, uuid)
            &&& crate::store_id::is_v4_shaped(uuid)
            &&& !crate::store_id::is_nil(uuid)
            &&& exists|reading: Option<u128>|
                uuid == crate::store_id::store_uuid(
                    #[trigger] crate::store_id::spec_clock_word(reading),
                    old(ids).counter,
                )
        },
        final(ids).counter == vstd::wrapping::u64_specs::wrapping_add(old(ids).counter, 1),
{
    let uuid: [u8; 16] = gen_store_uuid(ids);
    add_with_store_uuid(f, name, uuid)
}

// ---------------------------------------------------------------------------
// Removing.
// ---------------------------------------------------------------------------

/// `f` without the first account with this id. A preference for the id is
/// dropped with it.
pub open spec fn file_removed(f: FileModel, id: Seq<char>) -> FileModel {
    FileModel {
        accounts: f.accounts.remove(index_of(f.accounts, id) as int),
        next_seq: f.next_seq,
        startup_account: if f.startup_account == Some(id) {
            None
        } else {
            f.startup_account
        },
    }
}

/// What `remove` does: the file after it and the removed account, or the error.
pub open spec fn spec_remove(f: FileModel, id: Seq<char>) -> Result<
    (FileModel, AccountModel),
    Seq<char>,
> {
    if f.accounts.len() <= 1 {
        Err("cannot remove the last account"@)
    } else if !is_listed(f.accounts, id) {
        Err(unknown_account(id))
    } else {
        Ok((file_removed(f, id), f.accounts[index_of(f.accounts, id) as int]))
    }
}

/// Whether an optional string holds `s`.
fn holds(o: &Option<String>, s: &str) -> (same: bool)
    ensures
        same == (text::opt_string_view(*o) == Some(s@)),
{
    match o {
        Some(t) => same_text(t, s),
        None => false,
    }
}

/// Removes an account by id. Refuses to remove the last remaining account, and
/// an id that is not listed.
pub fn remove(f: &mut AccountsFile, id: &str) -> (removed: Result<Account, String>)
    ensures
        match removed {
            Ok(a) => spec_remove(old(f)@, id@) == Ok::<_, Seq<char>>((final(f)@, a@)),
            Err(e) => spec_remove(old(f)@, id@) == Err::<(FileModel, AccountModel), _>(e@)
                && *final(f) == *old(f),
        },
{
    if f.accounts.len() <= 1 {
        return Err("cannot remove the last account".to_owned());
    }
    match position(&f.accounts, id) {
        None => Err(joined("unknown account: ", id)),
        Some(pos) => {
            let ghost before = f.accounts@;
            let a: Account = f.accounts.remove(pos);
            assert(account_models(f.accounts@) == account_models(before).remove(pos as int));
            if holds(&f.startup_account, id) {
                f.startup_account = None;
            }
            Ok(a)
        },
    }
}

// ---------------------------------------------------------------------------
// The startup account.
// ---------------------------------------------------------------------------

/// The first account of the lowest order.
pub open spec fn first_in_order(accounts: Seq<AccountModel>) -> Option<AccountModel>
    decreases accounts.len(),
{
    if accounts.len() == 0 {
        None
    } else {
        match first_in_order(accounts.drop_last()) {
            Some(a) => if accounts.last().order < a.order {
                Some(accounts.last())
            } else {
                Some(a)
            },
            None => Some(accounts.last()),
        }
    }
}

/// The account that is opened at startup: the preferred one, or the first one in
/// UI order where there is no preference or it is not listed.
pub open spec fn spec_startup(f: FileModel) -> Option<AccountModel> {
    match f.startup_account {
        Some(id) => match spec_find(f.accounts, id) {
            Some(a) => Some(a),
            None => first_in_order(f.accounts),
        },
        None => first_in_order(f.accounts),
    }
}

/// The first account of the lowest order.
fn lowest_order<'a>(accounts: &'a Vec<Account>) -> (lowest: Option<&'a Account>)
    ensures
        match lowest {
            Some(a) => first_in_order(account_models(accounts@)) == Some(a@),
            None => first_in_order(account_models(accounts@)) is None,
        },
{
    if accounts.len() == 0 {
        return None;
    }
    let ghost models = account_models(accounts@);
    let mut best: usize = 0;
    let mut i: usize = 1;
    assert(models.take(1).last() == accounts@[0]@);
    assert(first_in_order(models.take(1).drop_last()) is None);
    while i < accounts.len()
        invariant
            best < i <= accounts@.len(),
            models == account_models(accounts@),
            first_in_order(models.take(i as int)) == Some(accounts@[best as int]@),
        decreases accounts@.len() - i,
    {
        assert(models.take(i + 1).drop_last() == models.take(i as int));
        assert(models.take(i + 1).last() == accounts@[i as int]@);
        if accounts[i].order < accounts[best].order {
            best = i;
        }
        i += 1;
    }
    assert(models.take(i as int) == models);
    Some(&accounts[best])
}

/// The account that is opened at startup. A missing preference, and one that is
/// not listed, fall back to the first account in UI order.
pub fn startup_account(f: &AccountsFile) -> (a: Option<&Account>)
    ensures
        match a {
            Some(a) => spec_startup(f@) == Some(a@),
            None => spec_startup(f@) is None,
        },
{
    match &f.startup_account {
        Some(id) => match find(&f.accounts, id) {
            Some(a) => Some(a),
            None => lowest_order(&f.accounts),
        },
        None => lowest_order(&f.accounts),
    }
}

/// What `set_startup_account` does: the file after it, or the error.
pub open spec fn spec_set_startup(f: FileModel, id: Seq<char>) -> Result<FileModel, Seq<char>> {
    if is_listed(f.accounts, id) {
        Ok(FileModel { startup_account: Some(id), ..f })
    } else {
        Err(unknown_account(id))
    }
}

/// Prefers an account at startup. Refuses an id that is not listed.
pub fn set_startup_account(f: &mut AccountsFile, id: &str) -> (done: Result<(), String>)
    ensures
        match done {
            Ok(_) => spec_set_startup(old(f)@, id@) == Ok::<_, Seq<char>>(final(f)@),
            Err(e) => spec_set_startup(old(f)@, id@) == Err::<FileModel, _>(e@) && *final(f)
                == *old(f),
        },
{
    match position(&f.accounts, id) {
        None => Err(joined("unknown account: ", id)),
        Some(_) => {
            f.startup_account = Some(id.to_owned());
            Ok(())
        },
    }
}

// ---------------------------------------------------------------------------
// Renaming.
// ---------------------------------------------------------------------------

/// `f` with another name for the first account with this id.
pub open spec fn file_renamed(f: FileModel, id: Seq<char>, name: Seq<char>) -> FileModel {
    let i = index_of(f.accounts, id) as int;
    FileModel {
        accounts: f.accounts.update(i, AccountModel { name, ..f.accounts[i] }),
        ..f
    }
}

/// What `rename` does: the file after it, or the error.
pub open spec fn spec_rename(f: FileModel, id: Seq<char>, name: Seq<char>) -> Result<
    FileModel,
    Seq<char>,
> {
    if is_listed(f.accounts, id) {
        Ok(file_renamed(f, id, name))
    } else {
        Err(unknown_account(id))
    }
}

/// Renames an account by id. Refuses an id that is not listed.
pub fn rename(f: &mut AccountsFile, id: &str, name: &str) -> (done: Result<(), String>)
    ensures
        match done {
            Ok(_) => spec_rename(old(f)@, id@, name@) == Ok::<_, Seq<char>>(final(f)@),
            Err(e) => spec_rename(old(f)@, id@, name@) == Err::<FileModel, _>(e@) && *final(f)
                == *old(f),
        },
{
    match position(&f.accounts, id) {
        None => Err(joined("unknown account: ", id)),
        Some(pos) => {
            let ghost before = account_models(f.accounts@);
            let mut a: Account = copy_of(&f.accounts[pos]);
            a.name = name.to_owned();
            f.accounts.set(pos, a);
            assert(account_models(f.accounts@) == before.update(pos as int, a@));
            Ok(())
        },
    }
}

// ---------------------------------------------------------------------------
// Unread counts.
// ---------------------------------------------------------------------------

/// The sum of the values of a map.
pub open spec fn map_total(m: Map<Seq<char>, u32>) -> nat
    decreases m.dom().len(),
    when m.dom().finite()
{
    if m.dom().len() == 0 {
        0
    } else {
        let k = m.dom().choose();
        m[k] as nat + map_total(m.remove(k))
    }
}

/// Any key can be taken out of the sum.
pub proof fn lemma_map_total_remove(m: Map<Seq<char>, u32>, k: Seq<char>)
    requires
        m.dom().finite(),
        m.contains_key(k),
    ensures
        map_total(m) == m[k] + map_total(m.remove(k)),
    decreases m.dom().len(),
{
    let c = m.dom().choose();
    assert(m.dom().contains(c)) by {
        assert(m.dom().contains(k));
    }
    if c != k {
        lemma_map_total_remove(m.remove(c), k);
        lemma_map_total_remove(m.remove(k), c);
        assert(m.remove(c).remove(k) =~= m.remove(k).remove(c));
    }
}

/// The sum of the values of a list of entries.
pub open spec fn entries_total(entries: Seq<(String, u32)>) -> nat
    decreases entries.len(),
{
    if entries.len() == 0 {
        0
    } else {
        entries_total(entries.drop_last()) + entries.last().1 as nat
    }
}

proof fn lemma_entries_total(entries: Seq<(String, u32)>)
    requires
        text_map::keys_of(entries).no_duplicates(),
    ensures
        entries_total(entries) == map_total(text_map::map_of(entries)),
    decreases entries.len(),
{
    text_map::lemma_map_of(entries);
    if entries.len() > 0 {
        let init = entries.drop_last();
        let k = entries.last().0@;
        let keys = text_map::keys_of(entries);
        assert(text_map::keys_of(init) == keys.drop_last());
        text_map::lemma_map_of(init);
        lemma_entries_total(init);
        assert(!text_map::map_of(init).contains_key(k)) by {
            if text_map::keys_of(init).contains(k) {
                let j = choose|j: int| 0 <= j < init.len() && text_map::keys_of(init)[j] == k;
                assert(keys[j] == keys[entries.len() - 1]);
            }
        }
        lemma_map_total_remove(text_map::map_of(entries), k);
        assert(text_map::map_of(entries).remove(k) =~= text_map::map_of(init));
    }
}

proof fn lemma_entries_total_take(entries: Seq<(String, u32)>, i: int)
    requires
        0 <= i <= entries.len(),
    ensures
        entries_total(entries.take(i)) <= entries_total(entries),
    decreases entries.len(),
{
    if i < entries.len() {
        assert(entries.drop_last().take(i) == entries.take(i));
        lemma_entries_total_take(entries.drop_last(), i);
    } else {
        assert(entries.take(i) == entries);
    }
}

/// The sum of unread over all accounts, if it fits.
pub fn checked_unread(map: &UnreadMap) -> (total: Option<u32>)
    ensures
        match total {
            Some(t) => t == map_total(map@),
            None => map_total(map@) > u32::MAX,
        },
{
    let items: &Vec<(String, u32)> = map.items();
    let mut sum: u32 = 0;
    let mut i: usize = 0;
    proof {
        lemma_entries_total(items@);
    }
    while i < items.len()
        invariant
            i <= items@.len(),
            entries_total(items@) == map_total(map@),
            sum == entries_total(items@.take(i as int)),
        decreases items@.len() - i,
    {
        assert(items@.take(i + 1).drop_last() == items@.take(i as int));
        proof {
            lemma_entries_total_take(items@, i + 1);
        }
        match sum.checked_add(items[i].1) {
            Some(s) => {
                sum = s;
            },
            None => {
                return None;
            },
        }
        i += 1;
    }
    assert(items@.take(i as int) == items@);
    Some(sum)
}

/// The sum of unread over all accounts.
pub fn aggregate_unread(map: &UnreadMap) -> (total: u32)
    requires
        map_total(map@) <= u32::MAX,
    ensures
        total == map_total(map@),
{
    match checked_unread(map) {
        Some(t) => t,
        None => 0,
    }
}

// ---------------------------------------------------------------------------
// Window labels.
// ---------------------------------------------------------------------------

/// The window label of an account.
pub open spec fn spec_window_label(id: Seq<char>) -> Seq<char> {
    "wa-"@ + id
}

/// The account id of a window label; `None` for the label of another window.
pub open spec fn spec_id_from_label(label: Seq<char>) -> Option<Seq<char>> {
    text::spec_after_prefix(label, "wa-"@)
}

/// The window label of an account, such as `wa-default`.
pub fn window_label(id: &str) -> (label: String)
    ensures
        label@ == spec_window_label(id@),
{
    joined("wa-", id)
}

/// The account id of a window label; `None` for the label of another window.
pub fn id_from_label(label: &str) -> (id: Option<&str>)
    ensures
        text::opt_str_view(id) == spec_id_from_label(label@),
{
    after_prefix(label, "wa-")
}

} // verus!
