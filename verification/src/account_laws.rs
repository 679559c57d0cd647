//! What holds of the accounts over several operations.

use vstd::prelude::*;
use vstd::string::*;

use crate::accounts;
use crate::accounts::{AccountModel, FileModel};
use crate::text;
use crate::text_laws;

verus! {

/// Whether the ids of a file come from its sequence numbers: each is `default`
/// or `acct-` and a number that has been given, and none occurs twice.
pub open spec fn well_numbered(f: FileModel) -> bool {
    &&& forall|i: int| 0 <= i < f.accounts.len() ==> is_given(f, (#[trigger] f.accounts[i]).id)
    &&& ids_are_distinct(f.accounts)
}

/// Whether no id occurs twice.
pub open spec fn ids_are_distinct(accts: Seq<AccountModel>) -> bool {
    forall|i: int, j: int|
        0 <= i < j < accts.len() ==> (#[trigger] accts[i]).id != (#[trigger] accts[j]).id
}

/// Whether an id is `default` or has been given by the sequence of `f`.
pub open spec fn is_given(f: FileModel, id: Seq<char>) -> bool {
    id == "default"@ || exists|k: nat| k < f.next_seq && id == #[trigger] accounts::acct_id(k)
}

/// Whether the startup preference, if there is one, is a listed account.
pub open spec fn preference_is_listed(f: FileModel) -> bool {
    f.startup_account matches Some(id) ==> accounts::is_listed(f.accounts, id)
}

proof fn lemma_acct_ids_differ(m: nat, n: nat)
    requires
        m != n,
    ensures
        accounts::acct_id(m) != accounts::acct_id(n),
{
    if accounts::acct_id(m) == accounts::acct_id(n) {
        let p = "acct-"@.len() as int;
        assert(accounts::acct_id(m).skip(p) == text::decimal(m));
        assert(accounts::acct_id(n).skip(p) == text::decimal(n));
        text::lemma_decimal_injective(m, n);
    }
}

proof fn lemma_acct_id_is_not_default(n: nat)
    ensures
        accounts::acct_id(n) != "default"@,
{
    reveal_strlit("acct-");
    reveal_strlit("default");
    assert(accounts::acct_id(n)[0] == 'a');
    assert("default"@[0] == 'd');
}

proof fn lemma_listed_at(accounts: Seq<AccountModel>, i: int)
    requires
        0 <= i < accounts.len(),
    ensures
        accounts::is_listed(accounts, accounts[i].id),
{
    accounts::lemma_index_of(accounts, accounts[i].id);
}

/// The file of a fresh installation is numbered from its sequence.
pub proof fn law_default_file_is_well_numbered()
    ensures
        well_numbered(accounts::default_file()),
        preference_is_listed(accounts::default_file()),
{
}

/// The id of an added account is not in use, and is not `default`.
pub proof fn law_added_id_is_new(f: FileModel)
    requires
        well_numbered(f),
    ensures
        !accounts::is_listed(f.accounts, accounts::acct_id(f.next_seq)),
        accounts::acct_id(f.next_seq) != "default"@,
{
    let id = accounts::acct_id(f.next_seq);
    accounts::lemma_index_of(f.accounts, id);
    lemma_acct_id_is_not_default(f.next_seq);
    if accounts::is_listed(f.accounts, id) {
        let i = accounts::index_of(f.accounts, id) as int;
        assert(is_given(f, f.accounts[i].id));
        let k = choose|k: nat| k < f.next_seq && id == #[trigger] accounts::acct_id(k);
        lemma_acct_ids_differ(k, f.next_seq);
    }
}

/// Adding an account keeps the numbering.
pub proof fn law_add_keeps_numbering(f: FileModel, name: Seq<char>, uuid: Seq<u8>)
    requires
        well_numbered(f),
    ensures
        well_numbered(accounts::file_added(f, name, uuid)),
        accounts::file_added(f, name, uuid).next_seq > f.next_seq,
{
    let g = accounts::file_added(f, name, uuid);
    let n = f.accounts.len() as int;
    law_added_id_is_new(f);
    assert forall|i: int| 0 <= i < g.accounts.len() implies is_given(
        g,
        (#[trigger] g.accounts[i]).id,
    ) by {
        if i < n {
            assert(is_given(f, f.accounts[i].id));
        } else {
            assert(g.accounts[i].id == accounts::acct_id(f.next_seq));
        }
    }
    assert forall|i: int, j: int| 0 <= i < j < g.accounts.len() implies (
    #[trigger] g.accounts[i]).id != (#[trigger] g.accounts[j]).id by {
        if j == n {
            lemma_listed_at(f.accounts, i);
        }
    }
}

/// Removing an account keeps the numbering.
pub proof fn law_remove_keeps_numbering(f: FileModel, id: Seq<char>)
    requires
        well_numbered(f),
        accounts::spec_remove(f, id) is Ok,
    ensures
        well_numbered(accounts::file_removed(f, id)),
        accounts::file_removed(f, id).next_seq == f.next_seq,
{
    let g = accounts::file_removed(f, id);
    let p = accounts::index_of(f.accounts, id) as int;
    assert forall|i: int| 0 <= i < g.accounts.len() implies is_given(
        g,
        (#[trigger] g.accounts[i]).id,
    ) by {
        if i < p {
            assert(is_given(f, f.accounts[i].id));
        } else {
            assert(is_given(f, f.accounts[i + 1].id));
        }
    }
    assert forall|i: int, j: int| 0 <= i < j < g.accounts.len() implies (
    #[trigger] g.accounts[i]).id != (#[trigger] g.accounts[j]).id by {
        let a = if i < p {
            i
        } else {
            i + 1
        };
        let b = if j < p {
            j
        } else {
            j + 1
        };
        assert(f.accounts[a].id != f.accounts[b].id);
    }
}

/// Renaming an account keeps the numbering.
pub proof fn law_rename_keeps_numbering(f: FileModel, id: Seq<char>, name: Seq<char>)
    requires
        well_numbered(f),
        accounts::spec_rename(f, id, name) is Ok,
    ensures
        well_numbered(accounts::file_renamed(f, id, name)),
        accounts::file_renamed(f, id, name).next_seq == f.next_seq,
{
    let g = accounts::file_renamed(f, id, name);
    assert forall|i: int| 0 <= i < g.accounts.len() implies is_given(
        g,
        (#[trigger] g.accounts[i]).id,
    ) by {
        assert(is_given(f, f.accounts[i].id));
    }
    assert forall|i: int, j: int| 0 <= i < j < g.accounts.len() implies (
    #[trigger] g.accounts[i]).id != (#[trigger] g.accounts[j]).id by {
        assert(f.accounts[i].id != f.accounts[j].id);
    }
}

/// Preferring an account at startup keeps the numbering.
pub proof fn law_set_startup_keeps_numbering(f: FileModel, id: Seq<char>)
    requires
        well_numbered(f),
        accounts::spec_set_startup(f, id) is Ok,
    ensures
        well_numbered(accounts::spec_set_startup(f, id)->Ok_0),
        accounts::spec_set_startup(f, id)->Ok_0.next_seq == f.next_seq,
{
    let g = accounts::spec_set_startup(f, id)->Ok_0;
    assert forall|i: int| 0 <= i < g.accounts.len() implies is_given(
        g,
        (#[trigger] g.accounts[i]).id,
    ) by {
        assert(is_given(f, f.accounts[i].id));
    }
}

/// An operation on the accounts file.
pub enum Operation {
    Add { name: Seq<char>, uuid: Seq<u8> },
    Remove { id: Seq<char> },
    Rename { id: Seq<char>, name: Seq<char> },
    SetStartup { id: Seq<char> },
}

/// The file after an operation. One that is refused changes nothing.
pub open spec fn operated(f: FileModel, op: Operation) -> FileModel {
    match op {
        Operation::Add { name, uuid } => accounts::file_added(f, name, uuid),
        Operation::Remove { id } => match accounts::spec_remove(f, id) {
            Ok((g, _)) => g,
            Err(_) => f,
        },
        Operation::Rename { id, name } => match accounts::spec_rename(f, id, name) {
            Ok(g) => g,
            Err(_) => f,
        },
        Operation::SetStartup { id } => match accounts::spec_set_startup(f, id) {
            Ok(g) => g,
            Err(_) => f,
        },
    }
}

/// The file after a list of operations.
pub open spec fn after_all(f: FileModel, ops: Seq<Operation>) -> FileModel
    decreases ops.len(),
{
    if ops.len() == 0 {
        f
    } else {
        operated(after_all(f, ops.drop_last()), ops.last())
    }
}

proof fn lemma_sequence_never_goes_back(f: FileModel, ops: Seq<Operation>)
    ensures
        f.next_seq <= after_all(f, ops).next_seq,
    decreases ops.len(),
{
    if ops.len() > 0 {
        lemma_sequence_never_goes_back(f, ops.drop_last());
    }
}

/// No id is given twice: whatever is done to whatever file after an account was
/// added, removing it among that, the next account that is added has another id.
pub proof fn law_id_is_never_given_again(
    f: FileModel,
    name: Seq<char>,
    uuid: Seq<u8>,
    ops: Seq<Operation>,
    later_name: Seq<char>,
    later_uuid: Seq<u8>,
)
    ensures
        ({
            let later = after_all(accounts::file_added(f, name, uuid), ops);
            accounts::new_account(later, later_name, later_uuid).id != accounts::new_account(
                f,
                name,
                uuid,
            ).id
        }),
{
    let added = accounts::file_added(f, name, uuid);
    lemma_sequence_never_goes_back(added, ops);
    lemma_acct_ids_differ(f.next_seq, after_all(added, ops).next_seq);
}

/// An id that has been given, and `default`, is not given to an account that is
/// added after any operations, whether or not it is still listed.
pub proof fn law_given_id_is_not_given_again(f: FileModel, id: Seq<char>, ops: Seq<Operation>)
    requires
        is_given(f, id),
    ensures
        accounts::acct_id(after_all(f, ops).next_seq) != id,
{
    let n = after_all(f, ops).next_seq;
    lemma_sequence_never_goes_back(f, ops);
    lemma_acct_id_is_not_default(n);
    if id != "default"@ {
        let k = choose|k: nat| k < f.next_seq && id == #[trigger] accounts::acct_id(k);
        lemma_acct_ids_differ(k, n);
    }
}

/// Any operations keep the numbering.
pub proof fn law_operations_keep_numbering(f: FileModel, ops: Seq<Operation>)
    requires
        well_numbered(f),
    ensures
        well_numbered(after_all(f, ops)),
    decreases ops.len(),
{
    if ops.len() > 0 {
        let g = after_all(f, ops.drop_last());
        law_operations_keep_numbering(f, ops.drop_last());
        match ops.last() {
            Operation::Add { name, uuid } => {
                law_add_keeps_numbering(g, name, uuid);
            },
            Operation::Remove { id } => {
                if accounts::spec_remove(g, id) is Ok {
                    law_remove_keeps_numbering(g, id);
                }
            },
            Operation::Rename { id, name } => {
                if accounts::spec_rename(g, id, name) is Ok {
                    law_rename_keeps_numbering(g, id, name);
                }
            },
            Operation::SetStartup { id } => {
                if accounts::spec_set_startup(g, id) is Ok {
                    law_set_startup_keeps_numbering(g, id);
                }
            },
        }
    }
}

/// Removing the account that was just added gives back the accounts and the
/// preference, where its id was neither listed nor preferred before; only the
/// sequence has moved on. An account that was added to an empty file is the last
/// one, and stays.
pub proof fn law_remove_undoes_add(f: FileModel, name: Seq<char>, uuid: Seq<u8>)
    requires
        !accounts::is_listed(f.accounts, accounts::acct_id(f.next_seq)),
        f.startup_account != Some(accounts::acct_id(f.next_seq)),
        f.accounts.len() > 0,
    ensures
        accounts::spec_remove(
            accounts::file_added(f, name, uuid),
            accounts::acct_id(f.next_seq),
        ) == Ok::<(FileModel, AccountModel), Seq<char>>(
            (
                FileModel { next_seq: f.next_seq + 1, ..f },
                accounts::new_account(f, name, uuid),
            ),
        ),
{
    let id = accounts::acct_id(f.next_seq);
    let g = accounts::file_added(f, name, uuid);
    accounts::lemma_index_of(f.accounts, id);
    assert forall|j: int| 0 <= j < f.accounts.len() implies (#[trigger] g.accounts[j]).id != id by {
        assert(g.accounts[j] == f.accounts[j]);
    }
    accounts::lemma_index_of_is(g.accounts, id, f.accounts.len() as int);
    assert(g.accounts.remove(f.accounts.len() as int) == f.accounts);
}

/// A successful removal leaves at least one account, one fewer than before.
pub proof fn law_last_account_stays(f: FileModel, id: Seq<char>)
    requires
        accounts::spec_remove(f, id) is Ok,
    ensures
        accounts::file_removed(f, id).accounts.len() == f.accounts.len() - 1,
        accounts::file_removed(f, id).accounts.len() >= 1,
{
}

/// Removing an account changes no account with another id.
pub proof fn law_remove_keeps_others(f: FileModel, id: Seq<char>, other: Seq<char>)
    requires
        accounts::spec_remove(f, id) is Ok,
        other != id,
    ensures
        accounts::spec_find(accounts::file_removed(f, id).accounts, other) == accounts::spec_find(
            f.accounts,
            other,
        ),
{
    let g = accounts::file_removed(f, id);
    let p = accounts::index_of(f.accounts, id) as int;
    accounts::lemma_index_of(f.accounts, id);
    accounts::lemma_index_of(f.accounts, other);
    let q = accounts::index_of(f.accounts, other) as int;
    let r = if q < p {
        q
    } else {
        q - 1
    };
    assert(q != p);
    assert forall|j: int| 0 <= j < r implies (#[trigger] g.accounts[j]).id != other by {
        if j < p {
            assert(g.accounts[j] == f.accounts[j]);
        } else {
            assert(g.accounts[j] == f.accounts[j + 1]);
        }
    }
    accounts::lemma_index_of_is(g.accounts, other, r);
}

/// With distinct ids, a removed account is not listed any more.
pub proof fn law_removed_account_is_gone(f: FileModel, id: Seq<char>)
    requires
        ids_are_distinct(f.accounts),
        accounts::spec_remove(f, id) is Ok,
    ensures
        !accounts::is_listed(accounts::file_removed(f, id).accounts, id),
{
    let g = accounts::file_removed(f, id);
    let p = accounts::index_of(f.accounts, id) as int;
    accounts::lemma_index_of(f.accounts, id);
    assert forall|j: int| 0 <= j < g.accounts.len() implies (#[trigger] g.accounts[j]).id != id by {
        if j < p {
            assert(f.accounts[j].id != f.accounts[p].id);
        } else {
            assert(f.accounts[p].id != f.accounts[j + 1].id);
        }
    }
    accounts::lemma_index_of_is(g.accounts, id, g.accounts.len() as int);
}

/// Renaming gives the account its new name and changes nothing else: not its id,
/// order or store, not another account, not which one is preferred.
pub proof fn law_rename_changes_one_name(
    f: FileModel,
    id: Seq<char>,
    name: Seq<char>,
    other: Seq<char>,
)
    requires
        accounts::spec_rename(f, id, name) is Ok,
        other != id,
    ensures
        accounts::spec_find(accounts::file_renamed(f, id, name).accounts, id) == Some(
            AccountModel { name, ..accounts::spec_find(f.accounts, id)->0 },
        ),
        accounts::spec_find(accounts::file_renamed(f, id, name).accounts, other)
            == accounts::spec_find(f.accounts, other),
        accounts::file_renamed(f, id, name).startup_account == f.startup_account,
{
    let g = accounts::file_renamed(f, id, name);
    accounts::lemma_index_of(f.accounts, id);
    accounts::lemma_index_of(f.accounts, other);
    let p = accounts::index_of(f.accounts, id) as int;
    let q = accounts::index_of(f.accounts, other) as int;
    assert forall|j: int| 0 <= j < p implies (#[trigger] g.accounts[j]).id != id by {
        assert(f.accounts[j].id != id);
    }
    assert forall|j: int| 0 <= j < q implies (#[trigger] g.accounts[j]).id != other by {
        assert(f.accounts[j].id != other);
    }
    accounts::lemma_index_of_is(g.accounts, id, p);
    accounts::lemma_index_of_is(g.accounts, other, q);
}

/// The first account in UI order is a listed one, none has a lower order, and
/// those before it have a higher one.
pub proof fn law_first_in_order(accounts: Seq<AccountModel>)
    ensures
        match accounts::first_in_order(accounts) {
            None => accounts.len() == 0,
            Some(a) => exists|i: int|
                {
                    &&& 0 <= i < accounts.len()
                    &&& #[trigger] accounts[i] == a
                    &&& forall|j: int|
                        0 <= j < accounts.len() ==> a.order <= (#[trigger] accounts[j]).order
                    &&& forall|j: int| 0 <= j < i ==> a.order < (#[trigger] accounts[j]).order
                },
        },
    decreases accounts.len(),
{
    if accounts.len() > 0 {
        let init = accounts.drop_last();
        let last = accounts.len() - 1;
        law_first_in_order(init);
        match accounts::first_in_order(init) {
            None => {
                assert(accounts[last] == accounts.last());
            },
            Some(a) => {
                let i = choose|i: int|
                    {
                        &&& 0 <= i < init.len()
                        &&& #[trigger] init[i] == a
                        &&& forall|j: int|
                            0 <= j < init.len() ==> a.order <= (#[trigger] init[j]).order
                        &&& forall|j: int| 0 <= j < i ==> a.order < (#[trigger] init[j]).order
                    };
                assert forall|j: int| 0 <= j < init.len() implies a.order <= (
                #[trigger] accounts[j]).order by {
                    assert(init[j] == accounts[j]);
                }
                assert forall|j: int| 0 <= j < i implies a.order < (
                #[trigger] accounts[j]).order by {
                    assert(init[j] == accounts[j]);
                }
                assert(accounts[i] == a);
                assert(accounts[last] == accounts.last());
            },
        }
    }
}

/// There is a startup account exactly when there is an account.
pub proof fn law_startup_account_exists(f: FileModel)
    ensures
        accounts::spec_startup(f) is Some <==> f.accounts.len() > 0,
{
    law_first_in_order(f.accounts);
}

/// A preferred account is the one that is opened at startup.
pub proof fn law_preferred_account_is_opened(f: FileModel, id: Seq<char>)
    requires
        accounts::spec_set_startup(f, id) is Ok,
    ensures
        accounts::spec_startup(accounts::spec_set_startup(f, id)->Ok_0) == accounts::spec_find(
            f.accounts,
            id,
        ),
        accounts::spec_find(f.accounts, id) matches Some(a) && a.id == id,
        accounts::spec_set_startup(f, id)->Ok_0.accounts == f.accounts,
{
    accounts::lemma_index_of(f.accounts, id);
}

/// Removing the preferred account drops the preference: the first remaining
/// account in UI order is opened.
pub proof fn law_removing_the_preferred_account_falls_back(f: FileModel, id: Seq<char>)
    requires
        accounts::spec_remove(f, id) is Ok,
        f.startup_account == Some(id),
    ensures
        accounts::file_removed(f, id).startup_account is None,
        accounts::spec_startup(accounts::file_removed(f, id)) == accounts::first_in_order(
            accounts::file_removed(f, id).accounts,
        ),
        accounts::spec_startup(accounts::file_removed(f, id)) is Some,
{
    law_startup_account_exists(accounts::file_removed(f, id));
}

/// No operation leaves a preference for an account that is not listed.
pub proof fn law_preference_stays_listed(
    f: FileModel,
    id: Seq<char>,
    name: Seq<char>,
    uuid: Seq<u8>,
)
    requires
        preference_is_listed(f),
    ensures
        preference_is_listed(accounts::file_added(f, name, uuid)),
        accounts::spec_remove(f, id) is Ok ==> preference_is_listed(accounts::file_removed(f, id)),
        accounts::spec_rename(f, id, name) is Ok ==> preference_is_listed(
            accounts::file_renamed(f, id, name),
        ),
        accounts::spec_set_startup(f, id) matches Ok(g) ==> preference_is_listed(g),
{
    if let Some(p) = f.startup_account {
        let g = accounts::file_added(f, name, uuid);
        let i = accounts::index_of(f.accounts, p) as int;
        accounts::lemma_index_of(f.accounts, p);
        assert(g.accounts[i] == f.accounts[i]);
        lemma_listed_at(g.accounts, i);
        if accounts::spec_remove(f, id) is Ok && p != id {
            law_remove_keeps_others(f, id, p);
        }
        if accounts::spec_rename(f, id, name) is Ok {
            let h = accounts::file_renamed(f, id, name);
            accounts::lemma_index_of(f.accounts, id);
            assert(h.accounts[i].id == p);
            lemma_listed_at(h.accounts, i);
        }
    }
}

/// The label of an account window gives back the account id.
pub proof fn law_label_gives_back_id(id: Seq<char>)
    ensures
        accounts::spec_id_from_label(accounts::spec_window_label(id)) == Some(id),
{
    let label = accounts::spec_window_label(id);
    assert("wa-"@.is_prefix_of(label));
    assert(label.skip("wa-"@.len() as int) == id);
}

/// A label that gives an account id is the window label of that id.
pub proof fn law_id_gives_back_label(label: Seq<char>)
    ensures
        accounts::spec_id_from_label(label) matches Some(id) ==> accounts::spec_window_label(id)
            == label,
{
    if "wa-"@.is_prefix_of(label) {
        assert("wa-"@ + label.skip("wa-"@.len() as int) == label);
    }
}

/// Setting the count of one account moves the sum by the difference.
pub proof fn law_total_follows_one_count(m: Map<Seq<char>, u32>, id: Seq<char>, count: u32)
    requires
        m.dom().finite(),
    ensures
        accounts::map_total(m.insert(id, count)) == accounts::map_total(m.remove(id)) + count,
        m.contains_key(id) ==> accounts::map_total(m) == accounts::map_total(m.remove(id)) + m[id],
{
    accounts::lemma_map_total_remove(m.insert(id, count), id);
    assert(m.insert(id, count).remove(id) =~= m.remove(id));
    if m.contains_key(id) {
        accounts::lemma_map_total_remove(m, id);
    }
}

/// The sum is zero exactly when every count is.
pub proof fn law_total_is_zero_when_all_clear(m: Map<Seq<char>, u32>)
    requires
        m.dom().finite(),
    ensures
        accounts::map_total(m) == 0 <==> forall|k: Seq<char>|
            m.contains_key(k) ==> #[trigger] m[k] == 0,
    decreases m.dom().len(),
{
    if m.dom().len() > 0 {
        let c = m.dom().choose();
        law_total_is_zero_when_all_clear(m.remove(c));
        assert forall|k: Seq<char>|
            accounts::map_total(m) == 0 && m.contains_key(k) implies #[trigger] m[k] == 0 by {
            if k != c {
                assert(m.remove(c)[k] == m[k]);
            }
        }
        if forall|k: Seq<char>| m.contains_key(k) ==> #[trigger] m[k] == 0 {
            assert(m.contains_key(c));
            assert forall|k: Seq<char>| m.remove(c).contains_key(k) implies #[trigger] m.remove(
                c,
            )[k] == 0 by {
                assert(m[k] == 0);
            }
        }
    } else {
        assert(m.dom() =~= Set::empty());
    }
}

// ---------------------------------------------------------------------------
// What each operation does, in terms of the accounts themselves.
// ---------------------------------------------------------------------------

/// Whether the account at a position is the first one with this id.
pub open spec fn is_first_with(accts: Seq<AccountModel>, id: Seq<char>, i: int) -> bool {
    &&& 0 <= i < accts.len()
    &&& accts[i].id == id
    &&& forall|j: int| 0 <= j < i ==> (#[trigger] accts[j]).id != id
}

/// Whether no account has this id.
pub open spec fn none_has(accts: Seq<AccountModel>, id: Seq<char>) -> bool {
    forall|j: int| 0 <= j < accts.len() ==> (#[trigger] accts[j]).id != id
}

proof fn lemma_first_with(accts: Seq<AccountModel>, id: Seq<char>)
    ensures
        accounts::is_listed(accts, id) ==> is_first_with(
            accts,
            id,
            accounts::index_of(accts, id) as int,
        ),
        !accounts::is_listed(accts, id) ==> none_has(accts, id),
{
    accounts::lemma_index_of(accts, id);
}

/// Looking an id up gives the first account that has it, and nothing where none
/// has.
pub proof fn law_found_account_is_the_first(accts: Seq<AccountModel>, id: Seq<char>, i: int)
    ensures
        is_first_with(accts, id, i) ==> accounts::spec_find(accts, id) == Some(accts[i]),
        none_has(accts, id) <==> accounts::spec_find(accts, id) is None,
{
    lemma_first_with(accts, id);
    if is_first_with(accts, id, i) {
        accounts::lemma_index_of_is(accts, id, i);
    }
    if none_has(accts, id) && accounts::is_listed(accts, id) {
        assert(accts[accounts::index_of(accts, id) as int].id != id);
    }
}

/// The file of a fresh installation holds one account, `default`, named WhatsApp,
/// first in order and without a store identifier; the sequence starts at one and
/// no account is preferred.
pub proof fn law_fresh_file()
    ensures
        ({
            let f = accounts::default_file();
            &&& f.accounts.len() == 1
            &&& f.accounts[0].id == "default"@
            &&& f.accounts[0].name == "WhatsApp"@
            &&& f.accounts[0].order == 0
            &&& f.accounts[0].store_uuid is None
            &&& f.next_seq == 1
            &&& f.startup_account is None
        }),
{
}

/// An added account stands after the others, which are as before. Its id is
/// `acct-` and the numeral of the sequence number, it has the name and the store
/// identifier that were given, and its order is the lowest above all others. The
/// sequence moves on by one and the preference stays.
pub proof fn law_added_account(f: FileModel, name: Seq<char>, uuid: Seq<u8>)
    ensures
        ({
            let g = accounts::file_added(f, name, uuid);
            let a = accounts::new_account(f, name, uuid);
            &&& g.accounts.len() == f.accounts.len() + 1
            &&& forall|i: int| 0 <= i < f.accounts.len() ==> #[trigger] g.accounts[i]
                == f.accounts[i]
            &&& g.accounts[f.accounts.len() as int] == a
            &&& g.next_seq == f.next_seq + 1
            &&& g.startup_account == f.startup_account
            &&& a.name == name
            &&& a.store_uuid == Some(uuid)
            &&& a.id.len() > 5
            &&& a.id[0] == 'a' && a.id[1] == 'c' && a.id[2] == 'c' && a.id[3] == 't' && a.id[4]
                == '-'
            &&& text_laws::value_of(a.id.skip(5)) == f.next_seq
            &&& forall|k: int| 5 <= k < a.id.len() ==> '0' <= #[trigger] a.id[k] <= '9'
            &&& f.next_seq > 0 ==> a.id[5] != '0'
            &&& f.accounts.len() == 0 ==> a.order == 0
            &&& forall|i: int| 0 <= i < f.accounts.len() ==> (#[trigger] f.accounts[i]).order
                < a.order
            &&& f.accounts.len() > 0 ==> exists|i: int|
                0 <= i < f.accounts.len() && (#[trigger] f.accounts[i]).order + 1 == a.order
        }),
{
    let a = accounts::new_account(f, name, uuid);
    let d = text::decimal(f.next_seq);
    reveal_strlit("acct-");
    text_laws::law_numeral_has_the_value(f.next_seq);
    accounts::lemma_next_order(f.accounts);
    assert(a.id == "acct-"@ + d);
    assert(a.id.skip(5) == d);
    assert forall|k: int| 5 <= k < a.id.len() implies '0' <= #[trigger] a.id[k] <= '9' by {
        assert(a.id[k] == d[k - 5]);
    }
    assert(a.id[5] == d[0]);
}

/// There is room for an account exactly where the next sequence number is one that
/// can be counted on, and no account has the highest order.
pub proof fn law_room_for_an_account(f: FileModel)
    ensures
        accounts::has_room(f) <==> f.next_seq + 1 <= 4294967295 && forall|i: int|
            0 <= i < f.accounts.len() ==> (#[trigger] f.accounts[i]).order + 1 <= 4294967295,
{
    accounts::lemma_next_order(f.accounts);
}

/// Removing takes the first account with the id away and gives it back. The other
/// accounts and the sequence stay; a preference for the id is dropped, and any
/// other kept.
pub proof fn law_removed_account(f: FileModel, id: Seq<char>, i: int)
    requires
        f.accounts.len() >= 2,
        is_first_with(f.accounts, id, i),
    ensures
        accounts::spec_remove(f, id) matches Ok((g, a)) && {
            &&& a == f.accounts[i]
            &&& g.accounts.len() == f.accounts.len() - 1
            &&& forall|j: int| 0 <= j < i ==> #[trigger] g.accounts[j] == f.accounts[j]
            &&& forall|j: int| i <= j < g.accounts.len() ==> #[trigger] g.accounts[j]
                == f.accounts[j + 1]
            &&& g.next_seq == f.next_seq
            &&& f.startup_account == Some(id) ==> g.startup_account is None
            &&& f.startup_account != Some(id) ==> g.startup_account == f.startup_account
        },
{
    accounts::lemma_index_of_is(f.accounts, id, i);
}

/// The last account cannot be removed, nor an id that no account has.
pub proof fn law_refused_removal(f: FileModel, id: Seq<char>)
    ensures
        f.accounts.len() <= 1 ==> accounts::spec_remove(f, id) == Err::<
            (FileModel, AccountModel),
            _,
        >("cannot remove the last account"@),
        f.accounts.len() >= 2 && none_has(f.accounts, id) ==> accounts::spec_remove(f, id)
            == Err::<(FileModel, AccountModel), _>("unknown account: "@ + id),
{
    law_found_account_is_the_first(f.accounts, id, 0);
}

/// Renaming gives the first account with the id the name. Every other field of
/// every account, the sequence and the preference stay.
pub proof fn law_renamed_account(f: FileModel, id: Seq<char>, name: Seq<char>, i: int)
    ensures
        is_first_with(f.accounts, id, i) ==> (accounts::spec_rename(f, id, name) matches Ok(g) && {
            &&& g.accounts.len() == f.accounts.len()
            &&& g.accounts[i].name == name
            &&& g.accounts[i].id == f.accounts[i].id
            &&& g.accounts[i].order == f.accounts[i].order
            &&& g.accounts[i].store_uuid == f.accounts[i].store_uuid
            &&& forall|j: int| 0 <= j < f.accounts.len() && j != i ==> #[trigger] g.accounts[j]
                == f.accounts[j]
            &&& g.next_seq == f.next_seq
            &&& g.startup_account == f.startup_account
        }),
        none_has(f.accounts, id) ==> accounts::spec_rename(f, id, name) == Err::<FileModel, _>(
            "unknown account: "@ + id,
        ),
{
    law_found_account_is_the_first(f.accounts, id, i);
    if is_first_with(f.accounts, id, i) {
        accounts::lemma_index_of_is(f.accounts, id, i);
    }
}

/// An account that is listed can be preferred, and no other id; nothing else
/// changes.
pub proof fn law_preference(f: FileModel, id: Seq<char>)
    ensures
        !none_has(f.accounts, id) ==> (accounts::spec_set_startup(f, id) matches Ok(g)
            && g.startup_account == Some(id) && g.accounts == f.accounts && g.next_seq
            == f.next_seq),
        none_has(f.accounts, id) ==> accounts::spec_set_startup(f, id) == Err::<FileModel, _>(
            "unknown account: "@ + id,
        ),
{
    law_found_account_is_the_first(f.accounts, id, 0);
}

/// At startup the first account with the preferred id is opened. Without a
/// preference, or where no account has the id, it is the first of those with the
/// lowest order.
pub proof fn law_startup_account(f: FileModel, i: int)
    requires
        0 <= i < f.accounts.len(),
    ensures
        f.startup_account matches Some(id) && is_first_with(f.accounts, id, i)
            ==> accounts::spec_startup(f) == Some(f.accounts[i]),
        (f.startup_account matches Some(id) ==> none_has(f.accounts, id)) && (forall|j: int|
            0 <= j < f.accounts.len() ==> f.accounts[i].order <= (#[trigger] f.accounts[j]).order)
            && (forall|j: int|
            0 <= j < i ==> f.accounts[i].order < (#[trigger] f.accounts[j]).order)
            ==> accounts::spec_startup(f) == Some(f.accounts[i]),
{
    law_first_in_order(f.accounts);
    if let Some(id) = f.startup_account {
        law_found_account_is_the_first(f.accounts, id, i);
    }
    if let Some(a) = accounts::first_in_order(f.accounts) {
        let k = choose|k: int|
            {
                &&& 0 <= k < f.accounts.len()
                &&& #[trigger] f.accounts[k] == a
                &&& forall|j: int|
                    0 <= j < f.accounts.len() ==> a.order <= (#[trigger] f.accounts[j]).order
                &&& forall|j: int| 0 <= j < k ==> a.order < (#[trigger] f.accounts[j]).order
            };
        assert(f.accounts[i].order >= a.order);
        assert(f.accounts[k].order == a.order);
    }
}

/// The window label of an account is `wa-` and its id, and only a label that starts
/// so gives an id: what follows.
pub proof fn law_window_labels(id: Seq<char>, label: Seq<char>)
    ensures
        ({
            let l = accounts::spec_window_label(id);
            &&& l.len() == id.len() + 3
            &&& l[0] == 'w' && l[1] == 'a' && l[2] == '-'
            &&& l.skip(3) == id
        }),
        label.len() >= 3 && label[0] == 'w' && label[1] == 'a' && label[2] == '-'
            ==> accounts::spec_id_from_label(label) == Some(label.skip(3)),
        !(label.len() >= 3 && label[0] == 'w' && label[1] == 'a' && label[2] == '-')
            ==> accounts::spec_id_from_label(label) is None,
{
    reveal_strlit("wa-");
    let l = accounts::spec_window_label(id);
    assert(l.skip(3) == id);
    if label.len() >= 3 && label[0] == 'w' && label[1] == 'a' && label[2] == '-' {
        assert("wa-"@.is_prefix_of(label));
    } else if "wa-"@.is_prefix_of(label) {
        assert(label[0] == "wa-"@[0] && label[1] == "wa-"@[1] && label[2] == "wa-"@[2]);
    }
}

/// The sum over no counts is zero, and every count that is added to a map without
/// it raises the sum by itself.
pub proof fn law_sum_of_counts(m: Map<Seq<char>, u32>, id: Seq<char>, count: u32)
    requires
        m.dom().finite(),
        !m.contains_key(id),
    ensures
        accounts::map_total(Map::empty()) == 0,
        accounts::map_total(m.insert(id, count)) == accounts::map_total(m) + count,
{
    law_total_follows_one_count(m, id, count);
    assert(m.remove(id) =~= m);
    law_total_is_zero_when_all_clear(Map::empty());
}

} // verus!
