//! What the operations on accounts, links, texts, toasts and the desktop give back,
//! stated of their own arguments and results.

use vstd::prelude::*;
use vstd::utf8::*;

use crate::account_laws;
use crate::accounts;
use crate::accounts::{Account, AccountsFile, UnreadMap};
use crate::aumid;
use crate::command_laws;
use crate::commands;
use crate::deeplink;
use crate::deeplink::DeepLink;
use crate::link_laws;
use crate::lock;
use crate::lock::{BuiltStep, LockState, LockWindowStep, OpenWindow, Restore};
use crate::notify;
use crate::notify::{Decision, Suppressed, Toast, ToastLog};
use crate::notify_laws;
use crate::settings;
use crate::settings::{ApplyAction, ApplyEvent, ApplyRun, EntryStep, Phase, Preferences};
use crate::settings_laws;
use crate::store_id;
use crate::store_id::StoreIds;
use crate::text;
use crate::text_laws;
use crate::text_map::TextMap;

verus! {

// ---------------------------------------------------------------------------
// Texts.
// ---------------------------------------------------------------------------

/// Whether an optional text is that of an optional string.
pub open spec fn opt_is(o: Option<String>, t: Option<Seq<char>>) -> bool {
    match (o, t) {
        (Some(s), Some(t)) => s@ == t,
        (None, None) => true,
        _ => false,
    }
}

/// Whether two optional strings have the same text, or both are missing.
pub open spec fn same_opt(a: Option<String>, b: Option<String>) -> bool {
    match (a, b) {
        (Some(s), Some(t)) => s@ == t@,
        (None, None) => true,
        _ => false,
    }
}

/// `trim` takes away the white space around a text, and nothing else.
pub proof fn law_of_trim(s: &str, t: &str, before: Seq<char>, core: Seq<char>, after: Seq<char>)
    requires
        call_ensures(text::trim, (s,), t),
        s@ == before + core + after,
        text_laws::all_white(before),
        text_laws::has_firm_ends(core),
        text_laws::all_white(after),
    ensures
        t@ == core,
{
    text_laws::law_trimming_takes_the_white_space_around(before, core, after);
}

/// `split_string` gives back the pieces that were joined by the separator.
pub proof fn law_of_split_string(s: &str, c: char, r: Vec<String>, pieces: Seq<Seq<char>>)
    requires
        call_ensures(text::split_string, (s, c), r),
        pieces.len() > 0,
        forall|i: int, k: int|
            0 <= i < pieces.len() && 0 <= k < pieces[i].len() ==> #[trigger] pieces[i][k] != c,
        s@ == text_laws::joined_by(pieces, c),
    ensures
        r@.len() == pieces.len(),
        forall|i: int| 0 <= i < pieces.len() ==> (#[trigger] r@[i])@ == pieces[i],
{
    text_laws::law_splitting_undoes_joining(pieces, c);
    assert(text::views(r@) == pieces);
    assert forall|i: int| 0 <= i < pieces.len() implies (#[trigger] r@[i])@ == pieces[i] by {
        assert(text::views(r@)[i] == r@[i]@);
    }
}

/// `split_once` cuts a text at its first separator.
pub proof fn law_of_split_once(
    s: &str,
    c: char,
    r: Option<(String, String)>,
    before: Seq<char>,
    after: Seq<char>,
)
    requires
        call_ensures(text::split_once, (s, c), r),
        forall|i: int| 0 <= i < before.len() ==> #[trigger] before[i] != c,
    ensures
        s@ == before.push(c) + after ==> (r matches Some(p) && p.0@ == before && p.1@ == after),
        s@ == before ==> r is None,
{
    text_laws::law_cut_at_the_first(before, c, after);
}

/// `decimal_string` writes a number in decimal digits, without a needless zero.
pub proof fn law_of_decimal_string(n: u32, s: String)
    requires
        call_ensures(text::decimal_string, (n,), s),
    ensures
        text_laws::value_of(s@) == n,
        notify_laws::is_numeral(s@),
{
    text_laws::law_numeral_has_the_value(n as nat);
}

// ---------------------------------------------------------------------------
// Accounts.
// ---------------------------------------------------------------------------

/// Whether two accounts agree in every field.
pub open spec fn same_account(a: Account, b: Account) -> bool {
    &&& a.id@ == b.id@
    &&& a.name@ == b.name@
    &&& a.order == b.order
    &&& same_store(a.store_uuid, b.store_uuid)
}

/// Whether two store identifiers are the same bytes, or both are missing.
pub open spec fn same_store(a: Option<[u8; 16]>, b: Option<[u8; 16]>) -> bool {
    match (a, b) {
        (Some(x), Some(y)) => x@ == y@,
        (None, None) => true,
        _ => false,
    }
}

/// Whether the account at a position is the first one with this id.
pub open spec fn is_first(accts: Seq<Account>, id: Seq<char>, i: int) -> bool {
    &&& 0 <= i < accts.len()
    &&& accts[i].id@ == id
    &&& forall|j: int| 0 <= j < i ==> (#[trigger] accts[j]).id@ != id
}

/// Whether no account has this id.
pub open spec fn no_account_has(accts: Seq<Account>, id: Seq<char>) -> bool {
    forall|j: int| 0 <= j < accts.len() ==> (#[trigger] accts[j]).id@ != id
}

/// An account is the first with an id in a file exactly where it is in the view.
pub proof fn lemma_first(f: AccountsFile, id: Seq<char>, i: int)
    ensures
        is_first(f.accounts@, id, i) <==> account_laws::is_first_with(f@.accounts, id, i),
        no_account_has(f.accounts@, id) <==> account_laws::none_has(f@.accounts, id),
        f@.accounts.len() == f.accounts@.len(),
{
    assert forall|j: int| 0 <= j < f.accounts@.len() implies (#[trigger] f@.accounts[j]).id
        == f.accounts@[j].id@ by {}
    if is_first(f.accounts@, id, i) {
        assert(f@.accounts[i].id == id);
    }
    if account_laws::is_first_with(f@.accounts, id, i) {
        assert forall|j: int| 0 <= j < i implies (#[trigger] f.accounts@[j]).id@ != id by {
            assert(f@.accounts[j].id != id);
        }
    }
    if account_laws::none_has(f@.accounts, id) {
        assert forall|j: int| 0 <= j < f.accounts@.len() implies (
        #[trigger] f.accounts@[j]).id@ != id by {
            assert(f@.accounts[j].id != id);
        }
    }
}

/// Accounts with equal views agree in every field.
pub proof fn lemma_same_account(a: Account, b: Account)
    requires
        a@ == b@,
    ensures
        same_account(a, b),
{
}

/// Whether two files hold the same accounts, sequence number and preference.
pub open spec fn same_file(f: AccountsFile, g: AccountsFile) -> bool {
    &&& f.accounts@.len() == g.accounts@.len()
    &&& forall|j: int|
        0 <= j < f.accounts@.len() ==> same_account(#[trigger] f.accounts@[j], g.accounts@[j])
    &&& f.next_seq == g.next_seq
    &&& same_opt(f.startup_account, g.startup_account)
}

/// Files with equal views are the same.
pub proof fn lemma_same_file(f: AccountsFile, g: AccountsFile)
    requires
        f@ == g@,
    ensures
        same_file(f, g),
{
    assert(f@.accounts.len() == f.accounts@.len() && g@.accounts.len() == g.accounts@.len());
    assert forall|j: int| 0 <= j < f.accounts@.len() implies same_account(
        #[trigger] f.accounts@[j],
        g.accounts@[j],
    ) by {
        assert(f@.accounts[j] == f.accounts@[j]@ && g@.accounts[j] == g.accounts@[j]@);
        lemma_same_account(f.accounts@[j], g.accounts@[j]);
    }
}

/// `add_with_store_uuid` appends an account with the name and the identifier, under
/// the id `acct-` and the sequence number and after the highest order; the accounts
/// before it, and the preference, stay.
pub proof fn law_of_adding(f: &mut AccountsFile, name: &str, uuid: [u8; 16], acct: Account)
    requires
        call_ensures(accounts::add_with_store_uuid, (f, name, uuid), acct),
    ensures
        acct.name@ == name@,
        acct.store_uuid matches Some(u) && u@ == uuid@,
        acct.id@.len() > 5,
        acct.id@.take(5) == "acct-"@,
        text_laws::value_of(acct.id@.skip(5)) == old(f).next_seq,
        notify_laws::is_numeral(acct.id@.skip(5)),
        forall|i: int| 0 <= i < old(f).accounts@.len() ==> (#[trigger] old(f).accounts@[i]).order
            < acct.order,
        old(f).accounts@.len() == 0 ==> acct.order == 0,
        old(f).accounts@.len() > 0 ==> exists|i: int|
            0 <= i < old(f).accounts@.len() && (#[trigger] old(f).accounts@[i]).order + 1
                == acct.order,
        final(f).accounts@.len() == old(f).accounts@.len() + 1,
        forall|i: int|
            0 <= i < old(f).accounts@.len() ==> same_account(
                #[trigger] final(f).accounts@[i],
                old(f).accounts@[i],
            ),
        same_account(final(f).accounts@[old(f).accounts@.len() as int], acct),
        final(f).next_seq == old(f).next_seq + 1,
        same_opt(final(f).startup_account, old(f).startup_account),
{
    let g = *final(f);
    let o = *old(f);
    reveal_strlit("acct-");
    account_laws::law_added_account(o@, name@, uuid@);
    text_laws::law_numeral_has_the_value(o.next_seq as nat);
    let d = text::decimal(o.next_seq as nat);
    assert(acct@.id == "acct-"@ + d);
    assert(acct.id@.take(5) == "acct-"@);
    assert(acct.id@.skip(5) == d);
    assert(g@.accounts.len() == g.accounts@.len() && o@.accounts.len() == o.accounts@.len());
    assert forall|i: int| 0 <= i < o.accounts@.len() implies (#[trigger] o.accounts@[i]).order
        < acct.order by {
        assert(o@.accounts[i].order < acct@.order);
    }
    assert forall|i: int| 0 <= i < o.accounts@.len() implies same_account(
        #[trigger] g.accounts@[i],
        o.accounts@[i],
    ) by {
        assert(g@.accounts[i] == o@.accounts[i]);
        lemma_same_account(g.accounts@[i], o.accounts@[i]);
    }
    let n = o.accounts@.len() as int;
    assert(g@.accounts[n] == acct@);
    lemma_same_account(g.accounts@[n], acct);
    if n > 0 {
        let i = choose|i: int|
            0 <= i < o@.accounts.len() && (#[trigger] o@.accounts[i]).order + 1 == acct@.order;
        assert(o.accounts@[i].order + 1 == acct.order);
    }
}

/// `remove` takes the first account with the id away and gives it back; the others,
/// the sequence and a preference for another account stay. It refuses the last
/// account and an id that no account has, and then changes nothing.
pub proof fn law_of_removing(f: &mut AccountsFile, id: &str, r: Result<Account, String>, i: int)
    requires
        call_ensures(accounts::remove, (f, id), r),
    ensures
        old(f).accounts@.len() <= 1 ==> (r matches Err(e) && e@
            == "cannot remove the last account"@),
        old(f).accounts@.len() >= 2 && no_account_has(old(f).accounts@, id@) ==> (r matches Err(e)
            && e@ == "unknown account: "@ + id@),
        r is Err ==> *final(f) == *old(f),
        old(f).accounts@.len() >= 2 && is_first(old(f).accounts@, id@, i) ==> {
            &&& r matches Ok(a) && same_account(a, old(f).accounts@[i])
            &&& final(f).accounts@.len() == old(f).accounts@.len() - 1
            &&& forall|j: int|
                0 <= j < i ==> same_account(#[trigger] final(f).accounts@[j], old(f).accounts@[j])
            &&& forall|j: int|
                i <= j < final(f).accounts@.len() ==> same_account(
                    #[trigger] final(f).accounts@[j],
                    old(f).accounts@[j + 1],
                )
            &&& final(f).next_seq == old(f).next_seq
            &&& (old(f).startup_account matches Some(p) && p@ == id@) ==> final(f).startup_account
                is None
            &&& !(old(f).startup_account matches Some(p) && p@ == id@) ==> same_opt(final(f).startup_account, old(f).startup_account)
        },
{
    let g = *final(f);
    let o = *old(f);
    lemma_first(o, id@, i);
    account_laws::law_refused_removal(o@, id@);
    if o.accounts@.len() >= 2 && is_first(o.accounts@, id@, i) {
        account_laws::law_removed_account(o@, id@, i);
        let a = r->Ok_0;
        assert(a@ == o@.accounts[i]);
        lemma_same_account(a, o.accounts@[i]);
        assert(g@.accounts.len() == g.accounts@.len());
        assert forall|j: int| 0 <= j < i implies same_account(
            #[trigger] g.accounts@[j],
            o.accounts@[j],
        ) by {
            assert(g@.accounts[j] == o@.accounts[j]);
            lemma_same_account(g.accounts@[j], o.accounts@[j]);
        }
        assert forall|j: int| i <= j < g.accounts@.len() implies same_account(
            #[trigger] g.accounts@[j],
            o.accounts@[j + 1],
        ) by {
            assert(g@.accounts[j] == o@.accounts[j + 1]);
            lemma_same_account(g.accounts@[j], o.accounts@[j + 1]);
        }
    }
}

/// `rename` gives the first account with the id the name and changes nothing else.
/// It refuses an id that no account has, and then changes nothing.
pub proof fn law_of_renaming(
    f: &mut AccountsFile,
    id: &str,
    name: &str,
    r: Result<(), String>,
    i: int,
)
    requires
        call_ensures(accounts::rename, (f, id, name), r),
    ensures
        no_account_has(old(f).accounts@, id@) ==> (r matches Err(e) && e@ == "unknown account: "@
            + id@),
        r is Err ==> *final(f) == *old(f),
        is_first(old(f).accounts@, id@, i) ==> {
            &&& r is Ok
            &&& final(f).accounts@.len() == old(f).accounts@.len()
            &&& final(f).accounts@[i].name@ == name@
            &&& final(f).accounts@[i].id@ == id@
            &&& final(f).accounts@[i].order == old(f).accounts@[i].order
            &&& same_store(final(f).accounts@[i].store_uuid, old(f).accounts@[i].store_uuid)
            &&& forall|j: int|
                0 <= j < old(f).accounts@.len() && j != i ==> same_account(
                    #[trigger] final(f).accounts@[j],
                    old(f).accounts@[j],
                )
            &&& final(f).next_seq == old(f).next_seq
            &&& same_opt(final(f).startup_account, old(f).startup_account)
        },
{
    let g = *final(f);
    let o = *old(f);
    lemma_first(o, id@, i);
    account_laws::law_renamed_account(o@, id@, name@, i);
    if is_first(o.accounts@, id@, i) {
        assert(g@.accounts.len() == g.accounts@.len());
        assert(g@.accounts[i] == g.accounts@[i]@);
        assert(o@.accounts[i] == o.accounts@[i]@);
        assert forall|j: int| 0 <= j < o.accounts@.len() && j != i implies same_account(
            #[trigger] g.accounts@[j],
            o.accounts@[j],
        ) by {
            assert(g@.accounts[j] == o@.accounts[j]);
            lemma_same_account(g.accounts@[j], o.accounts@[j]);
        }
    }
}

/// `set_startup_account` prefers an id that an account has, and changes nothing
/// else; it refuses any other.
pub proof fn law_of_preferring(f: &mut AccountsFile, id: &str, r: Result<(), String>)
    requires
        call_ensures(accounts::set_startup_account, (f, id), r),
    ensures
        no_account_has(old(f).accounts@, id@) ==> (r matches Err(e) && e@ == "unknown account: "@
            + id@) && *final(f) == *old(f),
        !no_account_has(old(f).accounts@, id@) ==> r is Ok && opt_is(
            final(f).startup_account,
            Some(id@),
        ) && final(f).next_seq == old(f).next_seq && final(f).accounts@.len()
            == old(f).accounts@.len() && forall|j: int|
            0 <= j < old(f).accounts@.len() ==> same_account(
                #[trigger] final(f).accounts@[j],
                old(f).accounts@[j],
            ),
{
    let g = *final(f);
    let o = *old(f);
    lemma_first(o, id@, 0);
    account_laws::law_preference(o@, id@);
    if !no_account_has(o.accounts@, id@) {
        assert(g@.accounts.len() == g.accounts@.len());
        assert forall|j: int| 0 <= j < o.accounts@.len() implies same_account(
            #[trigger] g.accounts@[j],
            o.accounts@[j],
        ) by {
            assert(g@.accounts[j] == o@.accounts[j]);
            lemma_same_account(g.accounts@[j], o.accounts@[j]);
        }
    }
}

/// `startup_account` gives the first account with the preferred id, and where there
/// is none the first of those with the lowest order.
pub proof fn law_of_startup(f: &AccountsFile, r: Option<&Account>, i: int)
    requires
        call_ensures(accounts::startup_account, (f,), r),
        0 <= i < f.accounts@.len(),
    ensures
        (f.startup_account matches Some(id) && is_first(f.accounts@, id@, i)) ==> (r matches Some(a)
            && same_account(*a, f.accounts@[i])),
        (f.startup_account matches Some(id) ==> no_account_has(f.accounts@, id@)) && (forall|j: int|
            0 <= j < f.accounts@.len() ==> f.accounts@[i].order <= (
            #[trigger] f.accounts@[j]).order) && (forall|j: int|
            0 <= j < i ==> f.accounts@[i].order < (#[trigger] f.accounts@[j]).order) ==> (
        r matches Some(a) && same_account(*a, f.accounts@[i])),
{
    let m = f@;
    assert(m.accounts.len() == f.accounts@.len());
    account_laws::law_startup_account(m, i);
    if let Some(id) = f.startup_account {
        lemma_first(*f, id@, i);
    }
    assert(m.accounts[i] == f.accounts@[i]@);
    if r is Some && r->0@ == m.accounts[i] {
        lemma_same_account(*r->0, f.accounts@[i]);
    }
    if (forall|j: int|
        0 <= j < f.accounts@.len() ==> f.accounts@[i].order <= (#[trigger] f.accounts@[j]).order)
        && (forall|j: int|
        0 <= j < i ==> f.accounts@[i].order < (#[trigger] f.accounts@[j]).order) {
        assert forall|j: int| 0 <= j < m.accounts.len() implies m.accounts[i].order <= (
        #[trigger] m.accounts[j]).order by {
            assert(f.accounts@[i].order <= f.accounts@[j].order);
        }
        assert forall|j: int| 0 <= j < i implies m.accounts[i].order < (
        #[trigger] m.accounts[j]).order by {
            assert(f.accounts@[i].order < f.accounts@[j].order);
        }
    }
}

/// `window_label` is `wa-` and the id, and `id_from_label` takes that off again.
pub proof fn law_of_labels(id: &str, l: String, label: &str, r: Option<&str>)
    requires
        call_ensures(accounts::window_label, (id,), l),
        call_ensures(accounts::id_from_label, (label,), r),
    ensures
        command_laws::is_label_of(l@, id@),
        l@.len() == id@.len() + 3,
        command_laws::is_wa(label@) ==> (r matches Some(s) && s@ == label@.skip(3)),
        !command_laws::is_wa(label@) ==> r is None,
{
    account_laws::law_window_labels(id@, label@);
}

/// `can_add` says whether the next sequence number can be counted on and no account
/// has the highest order.
pub proof fn law_of_room(f: &AccountsFile, room: bool)
    requires
        call_ensures(accounts::can_add, (f,), room),
    ensures
        room <==> f.next_seq < 4294967295 && forall|i: int|
            0 <= i < f.accounts@.len() ==> (#[trigger] f.accounts@[i]).order < 4294967295,
{
    account_laws::law_room_for_an_account(f@);
    assert(f@.accounts.len() == f.accounts@.len());
    assert forall|i: int| 0 <= i < f.accounts@.len() implies (#[trigger] f@.accounts[i]).order
        == f.accounts@[i].order by {}
    if f.next_seq < 4294967295 && (forall|i: int|
        0 <= i < f.accounts@.len() ==> (#[trigger] f.accounts@[i]).order < 4294967295) {
        assert forall|i: int| 0 <= i < f@.accounts.len() implies (#[trigger] f@.accounts[i]).order
            + 1 <= 4294967295 by {
            assert(f.accounts@[i].order < 4294967295);
        }
    }
    if room {
        assert forall|i: int| 0 <= i < f.accounts@.len() implies (#[trigger] f.accounts@[i]).order
            < 4294967295 by {
            assert(f@.accounts[i].order + 1 <= 4294967295);
        }
    }
}

/// Two sums of unread counts differ by the count that one map has more.
pub proof fn law_of_unread_sums(
    m: &UnreadMap,
    n: &UnreadMap,
    id: Seq<char>,
    count: u32,
    a: Option<u32>,
    b: Option<u32>,
)
    requires
        call_ensures(accounts::checked_unread, (m,), a),
        call_ensures(accounts::checked_unread, (n,), b),
        m@.dom().finite(),
        !m@.contains_key(id),
        n@ == m@.insert(id, count),
    ensures
        m@ == Map::<Seq<char>, u32>::empty() ==> a == Some(0u32),
        a matches Some(x) ==> x + count <= u32::MAX ==> b == Some((x + count) as u32),
        a matches Some(x) ==> x + count > u32::MAX ==> b is None,
        a is None ==> b is None,
{
    account_laws::law_sum_of_counts(m@, id, count);
}

// ---------------------------------------------------------------------------
// Links.
// ---------------------------------------------------------------------------

/// `is_whatsapp_url` and `parse` take a string exactly where, white space around it
/// aside, it starts with `whatsapp://` in any case.
pub proof fn law_of_schemes(
    raw: &str,
    is_url: bool,
    link: Option<DeepLink>,
    before: Seq<char>,
    t: Seq<char>,
    after: Seq<char>,
)
    requires
        call_ensures(deeplink::is_whatsapp_url, (raw,), is_url),
        call_ensures(deeplink::parse, (raw,), link),
        raw@ == before + t + after,
        text_laws::all_white(before),
        text_laws::has_firm_ends(t),
        text_laws::all_white(after),
    ensures
        is_url <==> link_laws::has_scheme(t),
        link is Some <==> link_laws::has_scheme(t),
{
    link_laws::law_scheme_decides(before, t, after);
}

/// `parse` gives another link where the first path segment that is not empty is not
/// `send`, and a send link where it is.
pub proof fn law_of_actions(
    raw: &str,
    link: Option<DeepLink>,
    slashes: Seq<char>,
    segment: Seq<char>,
    tail: Seq<char>,
    query: Seq<char>,
)
    requires
        call_ensures(deeplink::parse, (raw,), link),
        link_laws::is_slashes(slashes),
        link_laws::has_no_slash(segment),
        segment.len() > 0 || tail.len() == 0,
        tail.len() == 0 || tail[0] == '/' || tail[0] == '\\',
        forall|i: int| 0 <= i < segment.len() ==> #[trigger] segment[i] != '?',
        forall|i: int| 0 <= i < tail.len() ==> #[trigger] tail[i] != '?',
        query.len() > 0,
        !text_laws::is_space(query.last()),
        raw@ == "whatsapp://"@ + ((slashes + segment + tail).push('?') + query),
    ensures
        link_laws::is_send(segment) <==> (link matches Some(DeepLink::Send { .. })),
        !link_laws::is_send(segment) <==> link == Some(DeepLink::Other),
{
    let rest = (slashes + segment + tail).push('?') + query;
    lemma_rest(rest);
    link_laws::law_first_segment_decides(raw@, slashes, segment, tail, query, true);
}

proof fn lemma_rest(rest: Seq<char>)
    requires
        rest.len() > 0,
        !text::spec_is_white_space(rest.last()),
    ensures
        deeplink::after_scheme("whatsapp://"@ + rest) == Some(rest),
{
    assert(deeplink::same_but_case("whatsapp://"@, "whatsapp://"@));
    link_laws::law_scheme_in_any_case("whatsapp://"@, rest);
}

/// `parse` gives back the phone number and the text of a send link, whatever the text
/// holds, with its escapes in capitals or small letters.
pub proof fn law_of_parsing(raw: &str, link: Option<DeepLink>, phone: Seq<char>, t: Seq<char>)
    requires
        call_ensures(deeplink::parse, (raw,), link),
        phone.len() > 0,
        forall|i: int| 0 <= i < phone.len() ==> '0' <= #[trigger] phone[i] <= '9',
        t.len() > 0,
        raw@ == "whatsapp://"@ + ("send?"@ + ("phone="@ + phone + "&text="@ + link_laws::escaped(
            encode_utf8(t),
        ))) || raw@ == "whatsapp://"@ + ("send?"@ + ("phone="@ + phone + "&text="@
            + link_laws::escaped_small(encode_utf8(t)))),
    ensures
        link matches Some(DeepLink::Send { phone: p, text: x }) && opt_is(p, Some(phone)) && opt_is(
            x,
            Some(t),
        ),
{
    assert forall|i: int| 0 <= i < phone.len() implies deeplink::is_digit(#[trigger] phone[i]) by {}
    link_laws::law_link_gives_back_phone_and_text(phone, t);
    link_laws::law_small_link_gives_back_phone_and_text(phone, t);
}

/// `parse_query` gives back the pairs of an escaped query.
pub proof fn law_of_queries(
    query: &str,
    r: Vec<(String, String)>,
    pairs: Seq<(Seq<char>, Seq<char>)>,
)
    requires
        call_ensures(deeplink::parse_query, (query,), r),
        query@ == link_laws::escaped_query(pairs),
    ensures
        r@.len() == pairs.len(),
        forall|i: int|
            0 <= i < pairs.len() ==> (#[trigger] r@[i]).0@ == pairs[i].0 && r@[i].1@ == pairs[i].1,
{
    link_laws::law_escaped_pairs_come_back(pairs);
    assert(deeplink::pair_views(r@) == pairs);
    assert forall|i: int| 0 <= i < pairs.len() implies (#[trigger] r@[i]).0@ == pairs[i].0
        && r@[i].1@ == pairs[i].1 by {
        assert(deeplink::pair_views(r@)[i] == (r@[i].0@, r@[i].1@));
    }
}

/// `form_decode` undoes escapes in capitals and in small letters, makes a space of a
/// `+`, and keeps everything else.
pub proof fn law_of_decoding(s: &str, r: String, t: Seq<char>)
    requires
        call_ensures(deeplink::form_decode, (s,), r),
    ensures
        s@ == link_laws::escaped(encode_utf8(t)) ==> r@ == t,
        s@ == link_laws::escaped_small(encode_utf8(t)) ==> r@ == t,
        link_laws::no_escape(s@) ==> r@.len() == s@.len() && forall|i: int|
            0 <= i < s@.len() ==> #[trigger] r@[i] == (if s@[i] == '+' {
                ' '
            } else {
                s@[i]
            }),
{
    link_laws::law_escaping_is_undone(t);
    link_laws::law_small_escapes_are_undone(t);
    if link_laws::no_escape(s@) {
        link_laws::law_plus_is_a_space(s@);
    }
}

// ---------------------------------------------------------------------------
// Toasts.
// ---------------------------------------------------------------------------

/// `maybe_unread_toast` shows a toast exactly where the app is unlocked,
/// notifications are on, the page raised none for the window in the last ten
/// seconds, the last toast for it was not for this very count in the last ninety
/// seconds, and nobody is watching. Only a toast that is shown is recorded.
pub proof fn law_of_the_fallback(
    log: &mut ToastLog,
    f: &AccountsFile,
    label: &str,
    count: u32,
    now: u64,
    unlocked: bool,
    notifications: bool,
    watched: bool,
    d: Decision,
)
    requires
        call_ensures(
            notify::maybe_unread_toast,
            (log, f, label, count, now, unlocked, notifications, watched),
            d,
        ),
    ensures
        ({
            let recent = old(log).shim@.contains_key(label@) && now <= old(log).shim@[label@]
                + 10_000_000_000;
            let repeat = old(log).last@.contains_key(label@) && old(log).last@[label@].1 == count
                && now <= old(log).last@[label@].0 + 90_000_000_000;
            &&& d is Show <==> unlocked && notifications && !recent && !repeat && !watched
            &&& d is Show ==> final(log).last@ == old(log).last@.insert(label@, (now, count))
            &&& d is Suppress ==> final(log).last@ == old(log).last@
            &&& d is Show ==> (d matches Decision::Show(toast) && {
                &&& count == 1 ==> toast.body@ == "You have 1 unread message."@
                &&& f.accounts@.len() <= 1 ==> toast.title@ == "WhatsApp"@
            })
            &&& d == Decision::Suppress(Suppressed::SameCount) <==> unlocked && notifications
                && !recent && repeat
        }),
{
    let o = *old(log);
    assert(f@.accounts.len() == f.accounts@.len());
    notify_laws::law_fallback_shows_exactly_when(
        o@,
        f@,
        label@,
        count,
        now,
        unlocked,
        notifications,
        watched,
    );
    notify_laws::law_reason_of_silence(
        o@,
        f@,
        label@,
        count,
        now,
        unlocked,
        notifications,
        watched,
    );
    notify::law_only_shown_toasts_are_recorded(
        o@,
        f@,
        label@,
        count,
        now,
        unlocked,
        notifications,
        watched,
    );
    if d is Show {
        notify_laws::law_fallback_toast(o@, f@, label@, count, now, 0);
    }
}

/// `unread_toast` writes the count in decimal, and names the account of the window
/// where there are several accounts.
pub proof fn law_of_fallback_texts(
    f: &AccountsFile,
    label: &str,
    count: u32,
    toast: Toast,
    i: int,
)
    requires
        call_ensures(notify::unread_toast, (f, label, count), toast),
    ensures
        count == 1 ==> toast.body@ == "You have 1 unread message."@,
        count != 1 ==> exists|numeral: Seq<char>|
            toast.body@ == "You have "@ + numeral + " unread messages."@ && #[trigger]
            text_laws::value_of(numeral) == count && notify_laws::is_numeral(numeral),
        f.accounts@.len() <= 1 ==> toast.title@ == "WhatsApp"@,
        f.accounts@.len() >= 2 && command_laws::is_wa(label@) && is_first(
            f.accounts@,
            label@.skip(3),
            i,
        ) ==> toast.title@ == f.accounts@[i].name@ + ": new messages"@,
        f.accounts@.len() >= 2 && (command_laws::is_wa(label@) ==> no_account_has(
            f.accounts@,
            label@.skip(3),
        )) ==> toast.title@ == "WhatsApp: new messages"@,
{
    let m = f@;
    assert(m.accounts.len() == f.accounts@.len());
    lemma_first(*f, label@.skip(3), i);
    account_laws::law_window_labels(label@, label@);
    account_laws::law_found_account_is_the_first(m.accounts, label@.skip(3), i);
    text_laws::law_numeral_has_the_value(count as nat);
    assert(text_laws::value_of(text::decimal(count as nat)) == count && notify_laws::is_numeral(
        text::decimal(count as nat),
    ));
    if is_first(f.accounts@, label@.skip(3), i) {
        assert(m.accounts[i].name == f.accounts@[i].name@);
    }
}

// ---------------------------------------------------------------------------
// Locking.
// ---------------------------------------------------------------------------

/// `should_hide` takes the account windows and the settings window, and no other.
pub proof fn law_of_hiding(label: &str, hide: bool)
    requires
        call_ensures(lock::should_hide, (label,), hide),
    ensures
        hide <==> command_laws::is_wa(label@) || label@ == "settings"@,
{
    lock::law_windows_behind_the_lock_screen(label@);
}

/// `lock_now` locks an unlocked app and returns the labels of the visible account and
/// settings windows, which it records; a locked app it leaves as it is.
pub proof fn law_of_locking(
    state: &mut LockState,
    windows: &Vec<OpenWindow>,
    labels: Vec<String>,
    label: Seq<char>,
)
    requires
        call_ensures(lock::lock_now, (state, windows), labels),
    ensures
        !final(state).unlocked,
        old(state).unlocked ==> final(state).hidden@.len() == labels@.len() && forall|k: int|
            0 <= k < labels@.len() ==> (#[trigger] final(state).hidden@[k])@ == labels@[k]@,
        !old(state).unlocked ==> labels@.len() == 0 && final(state).hidden@.len()
            == old(state).hidden@.len() && forall|k: int|
            0 <= k < old(state).hidden@.len() ==> (#[trigger] final(state).hidden@[k])@
                == old(state).hidden@[k]@,
        old(state).unlocked ==> ((exists|k: int|
            0 <= k < labels@.len() && (#[trigger] labels@[k])@ == label) <==> (
        command_laws::is_wa(label) || label == "settings"@) && (exists|k: int|
            0 <= k < windows@.len() && (#[trigger] windows@[k]).label@ == label
                && windows@[k].visible)),
{
    let o = *old(state);
    let g = *final(state);
    let all = lock::window_views(windows@);
    lock::law_locking_records_what_it_hides(o@, all);
    assert(text::views(g.hidden@).len() == g.hidden@.len());
    assert(text::views(labels@).len() == labels@.len());
    assert(text::views(o.hidden@).len() == o.hidden@.len());
    assert forall|k: int| 0 <= k < g.hidden@.len() implies text::views(g.hidden@)[k] == (
    #[trigger] g.hidden@[k])@ by {}
    if o.unlocked {
        assert(text::views(g.hidden@) == text::views(labels@));
        assert forall|k: int| 0 <= k < labels@.len() implies (#[trigger] g.hidden@[k])@
            == labels@[k]@ by {
            assert(text::views(labels@)[k] == labels@[k]@);
        }
        lock::law_lock_hides_user_windows(o@, all);
        lock::law_windows_behind_the_lock_screen(label);
        let names = text::views(labels@);
        assert(names.contains(label) <==> lock::is_to_hide(all, label));
        if exists|k: int| 0 <= k < labels@.len() && (#[trigger] labels@[k])@ == label {
            let k = choose|k: int| 0 <= k < labels@.len() && (#[trigger] labels@[k])@ == label;
            assert(names[k] == label);
            let w = choose|w: int| 0 <= w < all.len() && all[w] == (label, true);
            assert(windows@[w].label@ == label && windows@[w].visible);
        }
        if (command_laws::is_wa(label) || label == "settings"@) && (exists|k: int|
            0 <= k < windows@.len() && (#[trigger] windows@[k]).label@ == label
                && windows@[k].visible) {
            let w = choose|w: int|
                0 <= w < windows@.len() && (#[trigger] windows@[w]).label@ == label
                    && windows@[w].visible;
            assert(all[w] == (label, true));
            assert(names.contains(label));
            let k = choose|k: int| 0 <= k < names.len() && names[k] == label;
            assert(labels@[k]@ == label);
        }
    } else {
        assert(text::views(g.hidden@) == text::views(o.hidden@));
        assert forall|k: int| 0 <= k < o.hidden@.len() implies (#[trigger] g.hidden@[k])@
            == o.hidden@[k]@ by {
            assert(text::views(o.hidden@)[k] == o.hidden@[k]@);
        }
    }
}

/// `unlock` opens the app and shows what was recorded, in order, or the active
/// account.
pub proof fn law_of_unlocking(state: &mut LockState, restore: Restore)
    requires
        call_ensures(lock::unlock, (state,), restore),
    ensures
        final(state).unlocked,
        final(state).hidden@.len() == 0,
        old(state).hidden@.len() == 0 ==> restore == Restore::ActiveAccount,
        old(state).hidden@.len() > 0 ==> (restore matches Restore::Windows(labels) && labels@.len()
            == old(state).hidden@.len() && forall|k: int|
            0 <= k < labels@.len() ==> (#[trigger] labels@[k])@ == old(state).hidden@[k]@),
{
    let o = *old(state);
    let g = *final(state);
    lock::law_unlocking(o@);
    assert(text::views(g.hidden@).len() == g.hidden@.len());
    assert(text::views(o.hidden@).len() == o.hidden@.len());
    if let Restore::Windows(labels) = restore {
        assert(text::views(labels@) == text::views(o.hidden@));
        assert(text::views(labels@).len() == labels@.len());
        assert forall|k: int| 0 <= k < labels@.len() implies (#[trigger] labels@[k])@
            == o.hidden@[k]@ by {
            assert(text::views(labels@)[k] == labels@[k]@);
            assert(text::views(o.hidden@)[k] == o.hidden@[k]@);
        }
    }
}

// ---------------------------------------------------------------------------
// The desktop.
// ---------------------------------------------------------------------------

/// `is_valid_flatpak_id` takes three or more dotted words of at most 255 bytes, and
/// `flatpak_id` gives such a value as it stands and no other.
pub proof fn law_of_flatpak_ids(
    id: &str,
    valid: bool,
    variable: Option<String>,
    r: Option<String>,
    parts: Seq<Seq<char>>,
)
    requires
        call_ensures(settings::is_valid_flatpak_id, (id,), valid),
        call_ensures(settings::flatpak_id, (variable,), r),
        opt_is(variable, Some(id@)),
        parts.len() > 0,
        forall|i: int, k: int|
            0 <= i < parts.len() && 0 <= k < parts[i].len() ==> #[trigger] parts[i][k] != '.',
        id@ == text_laws::joined_by(parts, '.'),
    ensures
        valid <==> parts.len() >= 3 && encode_utf8(id@).len() <= 255 && (forall|i: int|
            0 <= i < parts.len() ==> settings_laws::is_word(#[trigger] parts[i])),
        valid ==> opt_is(r, Some(id@)),
        !valid ==> r is None,
{
    settings_laws::law_flatpak_ids_are_dotted_words(parts);
    settings_laws::law_flatpak_id_of_the_process(id@);
}

/// `apply_flatpak_autostart` writes the entry of the id where autostart is wanted,
/// removes it where it is not and the file is there, and else does nothing.
pub proof fn law_of_entries(
    id: &str,
    enabled: bool,
    present: bool,
    step: EntryStep,
    entry: String,
)
    requires
        call_ensures(settings::apply_flatpak_autostart, (id, enabled, present), step),
        call_ensures(settings::flatpak_autostart_entry, (id,), entry),
    ensures
        enabled ==> (step matches EntryStep::Write(name, t) && name@ == id@ + ".desktop"@ && t@
            == entry@),
        !enabled && present ==> (step matches EntryStep::Remove(name) && name@ == id@
            + ".desktop"@),
        !enabled && !present ==> step == EntryStep::Leave,
        entry@ == settings::lines_text(
            seq![
                "[Desktop Entry]"@,
                "Type=Application"@,
                "Version=1.0"@,
                "Name=whatRust"@,
                "Comment=Start whatRust minimized"@,
                "Exec=flatpak run --command=whatrust "@ + id@ + " --minimized"@,
                "Icon="@ + id@,
                "Terminal=false"@,
                "X-GNOME-Autostart-enabled=true"@,
                "X-Flatpak="@ + id@,
            ],
        ),
{
    settings_laws::law_entry_follows_the_setting(id@, present);
    settings_laws::law_lines_of_the_entry(id@);
    assert(settings::entry_lines(id@) == seq![
        "[Desktop Entry]"@,
        "Type=Application"@,
        "Version=1.0"@,
        "Name=whatRust"@,
        "Comment=Start whatRust minimized"@,
        "Exec=flatpak run --command=whatrust "@ + id@ + " --minimized"@,
        "Icon="@ + id@,
        "Terminal=false"@,
        "X-GNOME-Autostart-enabled=true"@,
        "X-Flatpak="@ + id@,
    ]);
}

/// The first step of applying the settings carries the autostart setting, and the run
/// the shortcut that is wanted, as it is written.
pub proof fn law_of_starting(p: &Preferences, flatpak: Option<String>, r: (ApplyRun, ApplyAction))
    requires
        call_ensures(ApplyRun::start, (p, flatpak), r),
    ensures
        flatpak matches Some(id) ==> (r.1 matches ApplyAction::FlatpakAutostart(i, on) && i@ == id@
            && on == p.autostart),
        flatpak is None && p.autostart ==> r.1 == ApplyAction::EnableAutostart,
        flatpak is None && !p.autostart ==> r.1 == ApplyAction::QueryAutostart,
        p.hotkey_enabled && settings_laws::is_visible(p.hotkey@) ==> opt_is(
            r.0.shortcut,
            Some(p.hotkey@),
        ),
        !(p.hotkey_enabled && settings_laws::is_visible(p.hotkey@)) ==> r.0.shortcut is None,
        r.0.warnings@.len() == 0,
        r.0.phase == if flatpak is None && !p.autostart {
            Phase::Querying
        } else {
            Phase::Autostart
        },
{
    let fp = text::opt_string_view(flatpak);
    settings_laws::law_first_step(p.autostart, p.hotkey_enabled, p.hotkey@, fp);
    settings_laws::law_autostart_failure_is_noted(
        p.autostart,
        p.hotkey_enabled,
        p.hotkey@,
        fp,
        settings::EventModel::Succeeded,
        settings::EventModel::Succeeded,
    );
    assert(text::views(r.0.warnings@).len() == r.0.warnings@.len());
}

/// Each further step: autostart that is enabled and not wanted is disabled; then the
/// shortcuts are unregistered; then the wanted one is registered, if any; then the
/// run is done.
pub proof fn law_of_continuing(run: &mut ApplyRun, event: ApplyEvent, action: ApplyAction)
    requires
        call_ensures(ApplyRun::next, (run, event), action),
    ensures
        old(run).phase == Phase::Querying && event == ApplyEvent::AutostartIs(true) ==> action
            == ApplyAction::DisableAutostart && final(run).phase == Phase::Autostart,
        old(run).phase == Phase::Querying && event != ApplyEvent::AutostartIs(true) ==> action
            == ApplyAction::UnregisterShortcuts && final(run).phase == Phase::Unregistering,
        old(run).phase == Phase::Autostart ==> action == ApplyAction::UnregisterShortcuts
            && final(run).phase == Phase::Unregistering,
        old(run).phase == Phase::Unregistering && old(run).shortcut is Some ==> (
        action matches ApplyAction::RegisterShortcut(hotkey) && hotkey@ == old(run).shortcut->0@)
            && final(run).phase == Phase::Registering,
        old(run).phase == Phase::Unregistering && old(run).shortcut is None ==> action is Done
            && final(run).phase == Phase::Finished,
        old(run).phase == Phase::Registering ==> action is Done && final(run).phase
            == Phase::Finished,
        same_opt(final(run).shortcut, old(run).shortcut),
        action matches ApplyAction::Done(w) ==> opt_is(
            w,
            settings::warning_text(text::views(final(run).warnings@)),
        ),
        event !is Failed || old(run).phase == Phase::Unregistering || old(run).phase
            == Phase::Finished ==> final(run).warnings@.len() == old(run).warnings@.len(),
        forall|k: int|
            0 <= k < old(run).warnings@.len() ==> (#[trigger] final(run).warnings@[k])@ == old(run).warnings@[k]@,
        old(run).phase == Phase::Finished ==> action is Done && final(run).phase == Phase::Finished,
        event matches ApplyEvent::Failed(e) ==> (old(run).phase == Phase::Querying || old(run).phase
            == Phase::Autostart) ==> final(run).warnings@.len() == old(run).warnings@.len() + 1
            && final(run).warnings@.last()@ == "autostart could not be updated: "@ + e@,
        event matches ApplyEvent::Failed(e) ==> old(run).phase == Phase::Registering ==> final(run).warnings@.len() == old(run).warnings@.len() + 1 && final(run).warnings@.last()@
            == "shortcut not registered (it may be in use): "@ + e@,
{
    let o = *old(run);
    let g = *final(run);
    assert(text::views(g.warnings@).len() == g.warnings@.len());
    assert(text::views(o.warnings@).len() == o.warnings@.len());
    if g.warnings@.len() > 0 {
        assert(text::views(g.warnings@).last() == g.warnings@.last()@);
    }
    assert forall|k: int| 0 <= k < o.warnings@.len() implies (#[trigger] g.warnings@[k])@
        == o.warnings@[k]@ by {
        assert(text::views(g.warnings@)[k] == g.warnings@[k]@);
        assert(text::views(o.warnings@)[k] == o.warnings@[k]@);
    }
}

/// `wide` is the UTF-16 encoding and a NUL, `registry_bytes` its bytes, and the key
/// and the shown name are as given.
pub proof fn law_of_registration(
    s: &str,
    units: Vec<u16>,
    bytes: Vec<u8>,
    key: String,
    i: int,
)
    requires
        call_ensures(aumid::wide, (s,), units),
        call_ensures(aumid::registry_bytes, (&units,), bytes),
        call_ensures(aumid::registry_key, (s,), key),
        0 <= i < units@.len(),
    ensures
        units@.len() == aumid::utf16(s@).len() + 1,
        units@.last() == 0,
        units@.drop_last() == aumid::utf16(s@),
        bytes@.len() == 2 * units@.len(),
        bytes@[2 * i] + 256 * bytes@[2 * i + 1] == units@[i],
        key@ == "Software\\Classes\\AppUserModelId\\"@ + s@,
{
    aumid::law_wide_ends_with_nul(s@);
    aumid::law_unit_is_two_bytes(units@, i);
    assert(units@.drop_last() == aumid::utf16(s@));
}

// ---------------------------------------------------------------------------
// Store identifiers.
// ---------------------------------------------------------------------------

/// Two identifiers made one after the other differ, whatever the clock reads.
pub proof fn law_of_fresh_identifiers(
    ids: &mut StoreIds,
    later: &mut StoreIds,
    a: [u8; 16],
    b: [u8; 16],
)
    requires
        call_ensures(store_id::gen_store_uuid, (ids,), a),
        call_ensures(store_id::gen_store_uuid, (later,), b),
        old(later).counter == final(ids).counter,
    ensures
        a@ != b@,
{
    let c = old(ids).counter;
    let r1 = choose|r: Option<u128>|
        a@ == store_id::store_uuid(#[trigger] store_id::spec_clock_word(r), c);
    let r2 = choose|r: Option<u128>|
        b@ == store_id::store_uuid(#[trigger] store_id::spec_clock_word(r), old(later).counter);
    store_id::law_successive_identifiers_differ(
        store_id::spec_clock_word(r1),
        store_id::spec_clock_word(r2),
        c,
    );
}

// ---------------------------------------------------------------------------
// Parts of texts, and maps keyed by texts.
// ---------------------------------------------------------------------------

/// The operations on texts that look at characters: equality, joining, prefixes, and
/// taking a text apart and putting it together.
pub proof fn law_of_characters(
    a: &str,
    b: &str,
    same: bool,
    sum: String,
    found: bool,
    rest: Option<&str>,
    chars: Vec<char>,
    from: usize,
    to: usize,
    part: String,
)
    requires
        call_ensures(text::same_text, (a, b), same),
        call_ensures(text::joined, (a, b), sum),
        call_ensures(text::has_prefix, (a, b), found),
        call_ensures(text::after_prefix, (a, b), rest),
        call_ensures(text::chars_of, (a,), chars),
        from <= to <= chars@.len(),
        call_ensures(text::string_of, (&chars, from, to), part),
    ensures
        same <==> a@ == b@,
        sum@ == a@ + b@,
        found <==> b@.len() <= a@.len() && a@.take(b@.len() as int) == b@,
        found ==> (rest matches Some(r) && r@ == a@.skip(b@.len() as int)),
        !found ==> rest is None,
        chars@ == a@,
        part@ == a@.subrange(from as int, to as int),
{
    assert(found <==> b@.is_prefix_of(a@));
    if b@.is_prefix_of(a@) {
        assert(a@.take(b@.len() as int) == b@);
    }
    if found {
        assert(a@ == b@ + a@.skip(b@.len() as int));
        text_laws::law_prefix_is_taken_off(b@, a@.skip(b@.len() as int), a@);
    }
}

/// An empty map holds nothing; what was put at a key is found there and was removed is
/// not, and the other keys keep what they had.
pub proof fn law_of_maps(
    empty: TextMap<u32>,
    key: &str,
    other: &str,
    nothing: Option<u32>,
    m: &mut TextMap<u32>,
    k: String,
    value: u32,
    inserted: Option<u32>,
    before: Option<u32>,
    after: Option<u32>,
    n: &mut TextMap<u32>,
    removed: Option<u32>,
    still: Option<u32>,
    later: Option<u32>,
)
    requires
        call_ensures(TextMap::<u32>::new, (), empty),
        call_ensures(TextMap::<u32>::get, (&empty, key), nothing),
        call_ensures(TextMap::<u32>::insert, (m, k, value), ()),
        k@ == key@,
        other@ != key@,
        call_ensures(TextMap::<u32>::get, (&*final(m), key), inserted),
        call_ensures(TextMap::<u32>::get, (&*old(m), other), before),
        call_ensures(TextMap::<u32>::get, (&*final(m), other), after),
        call_ensures(TextMap::<u32>::remove, (n, key), ()),
        call_ensures(TextMap::<u32>::get, (&*final(n), key), removed),
        call_ensures(TextMap::<u32>::get, (&*old(n), other), still),
        call_ensures(TextMap::<u32>::get, (&*final(n), other), later),
    ensures
        nothing is None,
        inserted == Some(value),
        after == before,
        removed is None,
        later == still,
{
}

// ---------------------------------------------------------------------------
// Finding accounts.
// ---------------------------------------------------------------------------

/// `position` and `find` give the first account with the id, and `copy_of` an account
/// that agrees in every field.
pub proof fn law_of_finding(
    accts: &Vec<Account>,
    id: &str,
    at: Option<usize>,
    found: Option<&Account>,
    i: int,
    a: &Account,
    b: Account,
)
    requires
        call_ensures(accounts::position, (accts, id), at),
        call_ensures(accounts::find, (accts, id), found),
        call_ensures(accounts::copy_of, (a,), b),
    ensures
        no_account_has(accts@, id@) ==> at is None && found is None,
        is_first(accts@, id@, i) ==> at == Some(i as usize) && (found matches Some(x)
            && same_account(*x, accts@[i])),
        same_account(*a, b),
{
    let models = accounts::account_models(accts@);
    assert(models.len() == accts@.len());
    assert forall|j: int| 0 <= j < accts@.len() implies (#[trigger] models[j]).id
        == accts@[j].id@ by {}
    if no_account_has(accts@, id@) {
        assert(account_laws::none_has(models, id@)) by {
            assert forall|j: int| 0 <= j < models.len() implies (#[trigger] models[j]).id
                != id@ by {
                assert(accts@[j].id@ != id@);
            }
        }
    }
    if is_first(accts@, id@, i) {
        assert(account_laws::is_first_with(models, id@, i)) by {
            assert(models[i].id == id@);
            assert forall|j: int| 0 <= j < i implies (#[trigger] models[j]).id != id@ by {
                assert(accts@[j].id@ != id@);
            }
        }
    }
    account_laws::law_found_account_is_the_first(models, id@, i);
    if is_first(accts@, id@, i) {
        assert(models[i] == accts@[i]@);
        accounts::lemma_index_of_is(models, id@, i);
        lemma_same_account(*found->0, accts@[i]);
    }
    lemma_same_account(*a, b);
}

// ---------------------------------------------------------------------------
// The parts of a link.
// ---------------------------------------------------------------------------

/// A send link says what its query parameters say.
pub proof fn law_of_send_links(
    raw: &str,
    link: Option<DeepLink>,
    query: &str,
    pairs: Vec<(String, String)>,
    made: DeepLink,
)
    requires
        call_ensures(deeplink::parse, (raw,), link),
        call_ensures(deeplink::parse_query, (query,), pairs),
        call_ensures(deeplink::send_link, (&pairs,), made),
        query@.len() > 0,
        !text_laws::is_space(query@.last()),
        raw@ == "whatsapp://"@ + ("send?"@ + query@),
    ensures
        link matches Some(DeepLink::Send { phone, text }) && made matches DeepLink::Send {
            phone: made_phone,
            text: made_text,
        } && same_opt(phone, made_phone) && same_opt(text, made_text),
{
    text_laws::law_white_space(query@.last());
    link_laws::law_send_link_is_its_query(query@);
}

/// The parameters of a query are those of its parts, in order; one part is a key and
/// a value, both decoded.
pub proof fn law_of_query_parts(
    whole: &str,
    a: &str,
    b: &str,
    all: Vec<(String, String)>,
    first: Vec<(String, String)>,
    second: Vec<(String, String)>,
    key: &str,
    value: &str,
    decoded_key: String,
    decoded_value: String,
)
    requires
        call_ensures(deeplink::parse_query, (whole,), all),
        call_ensures(deeplink::parse_query, (a,), first),
        call_ensures(deeplink::parse_query, (b,), second),
        call_ensures(deeplink::form_decode, (key,), decoded_key),
        call_ensures(deeplink::form_decode, (value,), decoded_value),
        whole@ == a@.push('&') + b@,
        a@ == key@.push('=') + value@,
        forall|i: int| 0 <= i < key@.len() ==> #[trigger] key@[i] != '=' && key@[i] != '&',
        forall|i: int| 0 <= i < value@.len() ==> #[trigger] value@[i] != '&',
    ensures
        first@.len() == 1,
        first@[0].0@ == decoded_key@,
        first@[0].1@ == decoded_value@,
        all@.len() == 1 + second@.len(),
        all@[0].0@ == decoded_key@,
        all@[0].1@ == decoded_value@,
        forall|i: int|
            0 <= i < second@.len() ==> (#[trigger] second@[i]).0@ == all@[i + 1].0@
                && second@[i].1@ == all@[i + 1].1@,
{
    link_laws::law_joined_queries(a@, b@);
    link_laws::law_query_of_one_pair(key@, value@);
    let x = deeplink::pair_views(all@);
    let y = deeplink::pair_views(first@);
    let z = deeplink::pair_views(second@);
    assert(x == y + z);
    assert(y == seq![(decoded_key@, decoded_value@)]);
    assert(x.len() == all@.len() && y.len() == first@.len() && z.len() == second@.len());
    assert(y[0] == (first@[0].0@, first@[0].1@));
    assert(x[0] == (all@[0].0@, all@[0].1@));
    assert forall|i: int| 0 <= i < second@.len() implies (#[trigger] second@[i]).0@
        == all@[i + 1].0@ && second@[i].1@ == all@[i + 1].1@ by {
        assert(x[i + 1] == z[i]);
        assert(x[i + 1] == (all@[i + 1].0@, all@[i + 1].1@));
        assert(z[i] == (second@[i].0@, second@[i].1@));
    }
}

/// What one more parameter does to a send link. A phone parameter with digits sets
/// the phone number to these, a text that is not empty sets the text, and any other
/// changes nothing.
pub proof fn law_of_parameters(
    pairs: Vec<(String, String)>,
    more: Vec<(String, String)>,
    link: DeepLink,
    next: DeepLink,
)
    requires
        call_ensures(deeplink::send_link, (&pairs,), link),
        call_ensures(deeplink::send_link, (&more,), next),
        more@.len() == pairs@.len() + 1,
        more@.drop_last() == pairs@,
    ensures
        link matches DeepLink::Send { phone, text } && next matches DeepLink::Send {
            phone: next_phone,
            text: next_text,
        } && {
            let key = more@.last().0@;
            let value = more@.last().1@;
            let digits = value.filter(|c: char| '0' <= c <= '9');
            let names_phone = key == "phone"@ || key == "to"@ || key == "abid"@;
            &&& pairs@.len() == 0 ==> phone is None && text is None
            &&& names_phone && digits.len() > 0 ==> opt_is(next_phone, Some(digits)) && same_opt(
                next_text,
                text,
            )
            &&& key == "text"@ && value.len() > 0 ==> opt_is(next_text, Some(value)) && same_opt(
                next_phone,
                phone,
            )
            &&& !(names_phone && digits.len() > 0) && !(key == "text"@ && value.len() > 0)
                ==> same_opt(next_phone, phone) && same_opt(next_text, text)
        },
{
    let a = deeplink::pair_views(pairs@);
    let b = deeplink::pair_views(more@);
    let key = more@.last().0@;
    let value = more@.last().1@;
    link_laws::law_send_link_parameters(a, key, value);
    assert(b == a.push((key, value))) by {
        assert forall|i: int| 0 <= i < a.len() implies #[trigger] a[i] == b[i] by {
            assert(more@.drop_last()[i] == pairs@[i]);
        }
    }
    if pairs@.len() == 0 {
        assert(a == Seq::<(Seq<char>, Seq<char>)>::empty());
    }
}

// ---------------------------------------------------------------------------
// Records of toasts, and the state of the lock.
// ---------------------------------------------------------------------------

/// A new log holds nothing; that a page raised a toast is recorded for its window and
/// the time, and nothing else changes.
pub proof fn law_of_recording(fresh: ToastLog, log: &mut ToastLog, label: &str, now: u64)
    requires
        call_ensures(ToastLog::new, (), fresh),
        call_ensures(notify::record_shim_notify, (log, label, now), ()),
    ensures
        fresh.shim@ == Map::<Seq<char>, u64>::empty(),
        fresh.last@ == Map::<Seq<char>, (u64, u32)>::empty(),
        final(log).shim@ == old(log).shim@.insert(label@, now),
        final(log).last@ == old(log).last@,
{
    let o = *old(log);
    let g = *final(log);
    assert forall|k: Seq<char>| #[trigger] g.shim@.contains_key(k) == o.shim@.insert(
        label@,
        now,
    ).contains_key(k) by {
        notify_laws::law_page_toast_is_recorded(o@, label@, now, k);
    }
    assert forall|k: Seq<char>| #[trigger] g.shim@.contains_key(k) implies g.shim@[k]
        == o.shim@.insert(label@, now)[k] by {
        notify_laws::law_page_toast_is_recorded(o@, label@, now, k);
    }
    assert(g.shim@ =~= o.shim@.insert(label@, now));
    notify_laws::law_page_toast_is_recorded(o@, label@, now, label@);
}

/// What the fallback leaves in the record of the page's toasts: every entry of the
/// last ten seconds, as it was. Older ones go where repeats are looked at.
pub proof fn law_of_the_record(
    log: &mut ToastLog,
    f: &AccountsFile,
    label: &str,
    count: u32,
    now: u64,
    unlocked: bool,
    notifications: bool,
    watched: bool,
    d: Decision,
    other: Seq<char>,
)
    requires
        call_ensures(
            notify::maybe_unread_toast,
            (log, f, label, count, now, unlocked, notifications, watched),
            d,
        ),
    ensures
        ({
            let recent = old(log).shim@.contains_key(label@) && now <= old(log).shim@[label@]
                + 10_000_000_000;
            let looked = unlocked && notifications && !recent;
            &&& !looked ==> final(log).shim@ == old(log).shim@
            &&& looked ==> final(log).shim@.contains_key(other) == (old(log).shim@.contains_key(
                other,
            ) && now <= old(log).shim@[other] + 10_000_000_000)
            &&& final(log).shim@.contains_key(other) ==> final(log).shim@[other] == old(log).shim@[other]
            &&& !unlocked ==> d == Decision::Suppress(Suppressed::Locked)
            &&& unlocked && !notifications ==> d == Decision::Suppress(Suppressed::Disabled)
            &&& unlocked && notifications && recent ==> d == Decision::Suppress(
                Suppressed::PageNotified,
            )
        }),
{
    notify_laws::law_log_after_the_fallback(
        old(log)@,
        f@,
        label@,
        count,
        now,
        unlocked,
        notifications,
        watched,
        other,
    );
    notify_laws::law_reason_of_silence(
        old(log)@,
        f@,
        label@,
        count,
        now,
        unlocked,
        notifications,
        watched,
    );
}

/// The state of the lock and its window: a new state is as it is said to be, an app
/// without one is unlocked, and the lock window is shown, kept and not closed exactly
/// while the app is locked.
pub proof fn law_of_the_lock_window(
    unlocked: bool,
    state: LockState,
    label: &str,
    is_lock: bool,
    seen: bool,
    unseen: bool,
    pass: Result<(), String>,
    is_open: bool,
    step: LockWindowStep,
    built: bool,
    next: BuiltStep,
    refuse: bool,
)
    requires
        call_ensures(LockState::new, (unlocked,), state),
        call_ensures(lock::is_lock_label, (label,), is_lock),
        call_ensures(lock::is_unlocked, (Some(&state),), seen),
        call_ensures(lock::is_unlocked, (None,), unseen),
        call_ensures(lock::require_unlocked, (unlocked,), pass),
        call_ensures(lock::show_lock_window, (unlocked, is_open), step),
        call_ensures(lock::lock_window_built, (built, unlocked), next),
        call_ensures(lock::refuses_close, (unlocked,), refuse),
    ensures
        state.unlocked == unlocked,
        state.hidden@.len() == 0,
        is_lock <==> label@ == "lock"@,
        seen == unlocked,
        unseen,
        pass is Ok <==> unlocked,
        pass matches Err(e) ==> e@ == "locked"@,
        step == LockWindowStep::Leave <==> unlocked,
        step == LockWindowStep::Show <==> !unlocked && is_open,
        step == LockWindowStep::Build <==> !unlocked && !is_open,
        next == BuiltStep::Leave <==> !built,
        next == BuiltStep::Destroy <==> built && unlocked,
        next == BuiltStep::Guard <==> built && !unlocked,
        refuse <==> !unlocked,
{
    assert(text::views(state.hidden@).len() == state.hidden@.len());
}

/// Locking in two steps: the mark says whether the app was unlocked and keeps the
/// record, the record keeps whether the app is unlocked, and both together are what
/// `lock_now` does to an unlocked app.
pub proof fn law_of_marking(
    state: &mut LockState,
    was_unlocked: bool,
    marked: &mut LockState,
    windows: &Vec<OpenWindow>,
    labels: Vec<String>,
    whole: &mut LockState,
    all: Vec<String>,
    k: int,
)
    requires
        call_ensures(lock::mark_locked, (state,), was_unlocked),
        *old(marked) == *final(state),
        call_ensures(lock::record_hidden, (marked, windows), labels),
        *old(whole) == *old(state),
        call_ensures(lock::lock_now, (whole, windows), all),
    ensures
        was_unlocked == old(state).unlocked,
        !final(state).unlocked,
        final(state).hidden@.len() == old(state).hidden@.len(),
        0 <= k < old(state).hidden@.len() ==> final(state).hidden@[k]@ == old(state).hidden@[k]@,
        !final(marked).unlocked,
        final(marked).hidden@.len() == labels@.len(),
        0 <= k < labels@.len() ==> final(marked).hidden@[k]@ == labels@[k]@,
        was_unlocked ==> all@.len() == labels@.len(),
        was_unlocked && 0 <= k < labels@.len() ==> all@[k]@ == labels@[k]@,
{
    lock::law_locking_records_what_it_hides(old(whole)@, lock::window_views(windows@));
    let a = text::views(old(state).hidden@);
    let b = text::views(final(state).hidden@);
    let c = text::views(final(marked).hidden@);
    let d = text::views(labels@);
    let e = text::views(all@);
    assert(a == b && c == d);
    assert(a.len() == old(state).hidden@.len() && b.len() == final(state).hidden@.len());
    assert(c.len() == final(marked).hidden@.len() && d.len() == labels@.len());
    assert(e.len() == all@.len());
    if 0 <= k < a.len() {
        assert(a[k] == old(state).hidden@[k]@ && b[k] == final(state).hidden@[k]@);
    }
    if 0 <= k < c.len() {
        assert(c[k] == final(marked).hidden@[k]@ && d[k] == labels@[k]@);
    }
    if was_unlocked {
        assert(e == d);
        if 0 <= k < e.len() {
            assert(e[k] == all@[k]@);
        }
    }
}

// ---------------------------------------------------------------------------
// The making of store identifiers.
// ---------------------------------------------------------------------------

/// Counters start at zero and go up by one; an identifier is made of the low 64 bits
/// of the clock reading and the counter.
pub proof fn law_of_identifiers(
    fresh: StoreIds,
    ids: &mut StoreIds,
    counter: u64,
    reading: u128,
    word: u64,
    none: u64,
    made: [u8; 16],
    at: &mut StoreIds,
    b: [u8; 16],
)
    requires
        call_ensures(StoreIds::new, (), fresh),
        call_ensures(StoreIds::take, (ids,), counter),
        call_ensures(store_id::clock_word, (Some(reading),), word),
        call_ensures(store_id::clock_word, (None,), none),
        call_ensures(store_id::make_store_uuid, (word, counter), made),
        *old(at) == *old(ids),
        call_ensures(store_id::store_uuid_at, (Some(reading), at), b),
    ensures
        fresh.counter == 0,
        counter == old(ids).counter,
        counter < u64::MAX ==> final(ids).counter == counter + 1,
        counter == u64::MAX ==> final(ids).counter == 0,
        none == 0,
        word == reading % 0x1_0000_0000_0000_0000,
        b@ == made@,
        final(at).counter == final(ids).counter,
{
}

/// The bytes of an identifier, worked out from the clock word and the counter.
pub proof fn law_of_identifier_bytes(
    nanos: u64,
    counter: u64,
    b: [u8; 16],
    hi: u64,
    lo: u64,
    p: u64,
)
    requires
        call_ensures(store_id::make_store_uuid, (nanos, counter), b),
        p == (counter * 0x9E37_79B9_7F4A_7C15) % 0x1_0000_0000_0000_0000,
        hi == (((nanos % 0x8000_0000_0000) * 0x2_0000 + nanos / 0x8000_0000_0000) as u64) ^ p,
        lo == ((counter % 0x2_0000_0000) * 0x8000_0000 + counter / 0x2_0000_0000 + nanos
            * 0xD6E8_FEB8_6659_FD93) % 0x1_0000_0000_0000_0000,
    ensures
        b@[0] == hi % 0x100,
        b@[1] == hi / 0x100 % 0x100,
        b@[2] == hi / 0x1_0000 % 0x100,
        b@[3] == hi / 0x100_0000 % 0x100,
        b@[4] == hi / 0x1_0000_0000 % 0x100,
        b@[5] == hi / 0x100_0000_0000 % 0x100,
        b@[6] == 0x40 + hi / 0x1_0000_0000_0000 % 0x10,
        b@[7] == hi / 0x100_0000_0000_0000 % 0x100,
        b@[8] == 0x80 + lo % 0x40,
        b@[9] == lo / 0x100 % 0x100,
        b@[10] == lo / 0x1_0000 % 0x100,
        b@[11] == lo / 0x100_0000 % 0x100,
        b@[12] == lo / 0x1_0000_0000 % 0x100,
        b@[13] == lo / 0x100_0000_0000 % 0x100,
        b@[14] == lo / 0x1_0000_0000_0000 % 0x100,
        b@[15] == lo / 0x100_0000_0000_0000 % 0x100,
{
    store_id::law_identifier_formula(nanos, counter, hi, lo, p);
}

/// The name that is shown is the product's, or `whatRust`.
pub proof fn law_of_display_names(product: &str, name: &str, plain: &str)
    requires
        call_ensures(aumid::display_name, (Some(product),), name),
        call_ensures(aumid::display_name, (None,), plain),
    ensures
        name@ == product@,
        plain@ == "whatRust"@,
{
    aumid::law_product_name_is_shown(product@);
}

/// What a first start finds: one account, and the settings as they are shipped.
pub proof fn law_of_defaults(f: AccountsFile, p: Preferences)
    requires
        call_ensures(AccountsFile::default, (), f),
        call_ensures(Preferences::default, (), p),
    ensures
        f.accounts@.len() == 1,
        f.accounts@[0].id@ == "default"@,
        f.accounts@[0].name@ == "WhatsApp"@,
        f.accounts@[0].order == 0,
        f.accounts@[0].store_uuid is None,
        f.next_seq == 1,
        f.startup_account is None,
        p.close_to_tray && p.hotkey_enabled && p.notifications,
        !p.start_minimized && !p.autostart,
        p.hotkey@ == "CmdOrCtrl+Shift+W"@,
{
    account_laws::law_fresh_file();
    assert(f@.accounts.len() == f.accounts@.len());
    assert(f@.accounts[0] == f.accounts@[0]@);
}

/// `aggregate_unread` is the sum that `checked_unread` finds to fit, and
/// `unread_fits` says of one more count whether it does.
pub proof fn law_of_totals(
    m: &UnreadMap,
    total: u32,
    checked: Option<u32>,
    label: &str,
    count: u32,
    fits: bool,
    n: &UnreadMap,
    sum: Option<u32>,
)
    requires
        call_ensures(accounts::aggregate_unread, (m,), total),
        call_ensures(accounts::checked_unread, (m,), checked),
        call_ensures(commands::unread_fits, (m, label, count), fits),
        call_ensures(accounts::checked_unread, (n,), sum),
        command_laws::is_wa(label@) ==> n@ == m@.insert(label@.skip(3), count),
    ensures
        checked matches Some(t) ==> total == t,
        command_laws::is_wa(label@) ==> (fits <==> sum is Some),
        !command_laws::is_wa(label@) ==> fits,
{
    account_laws::law_window_labels(label@, label@);
}

/// `gate_unread_toast` and `maybe_unread_toast` agree: a toast is held back for the
/// reason that the first gives, and shown where it gives none.
pub proof fn law_of_holding_back(
    log: &mut ToastLog,
    label: &str,
    count: u32,
    now: u64,
    unlocked: bool,
    notifications: bool,
    watched: bool,
    held: Option<Suppressed>,
    whole: &mut ToastLog,
    f: &AccountsFile,
    d: Decision,
)
    requires
        call_ensures(
            notify::gate_unread_toast,
            (log, label, count, now, unlocked, notifications, watched),
            held,
        ),
        *old(whole) == *old(log),
        call_ensures(
            notify::maybe_unread_toast,
            (whole, f, label, count, now, unlocked, notifications, watched),
            d,
        ),
    ensures
        held is None <==> d is Show,
        held matches Some(why) ==> d == Decision::Suppress(why),
        final(log).shim@ == final(whole).shim@,
        final(log).last@ == final(whole).last@,
{
}

/// The name of a window's account is known where there are several accounts and the
/// window is that of one.
pub proof fn law_of_window_names(f: &AccountsFile, label: &str, name: Option<String>, i: int)
    requires
        call_ensures(notify::name_of_window, (f, label), name),
    ensures
        f.accounts@.len() <= 1 ==> name is None,
        (command_laws::is_wa(label@) ==> no_account_has(f.accounts@, label@.skip(3))) ==> name
            is None,
        f.accounts@.len() >= 2 && command_laws::is_wa(label@) && is_first(
            f.accounts@,
            label@.skip(3),
            i,
        ) ==> opt_is(name, Some(f.accounts@[i].name@)),
{
    lemma_first(*f, label@.skip(3), i);
    account_laws::law_window_labels(label@, label@);
    account_laws::law_found_account_is_the_first(f@.accounts, label@.skip(3), i);
    if is_first(f.accounts@, label@.skip(3), i) {
        assert(f@.accounts[i].name == f.accounts@[i].name@);
    }
}

/// `add` adds what `add_with_store_uuid` adds with the identifier that it takes.
pub proof fn law_of_adding_afresh(
    f: &mut AccountsFile,
    name: &str,
    ids: &mut StoreIds,
    acct: Account,
    g: &mut AccountsFile,
    uuid: [u8; 16],
    same: Account,
)
    requires
        call_ensures(accounts::add, (f, name, ids), acct),
        acct.store_uuid matches Some(u) && u@ == uuid@,
        *old(g) == *old(f),
        call_ensures(accounts::add_with_store_uuid, (g, name, uuid), same),
    ensures
        same_account(acct, same),
        same_file(*final(f), *final(g)),
        old(ids).counter < u64::MAX ==> final(ids).counter == old(ids).counter + 1,
{
    lemma_same_account(acct, same);
    lemma_same_file(*final(f), *final(g));
}

/// The file of an autostart entry is named after the id.
pub proof fn law_of_entry_names(id: &str, name: String)
    requires
        call_ensures(settings::flatpak_entry_name, (id,), name),
    ensures
        name@ == id@ + ".desktop"@,
{
    settings_laws::law_entry_follows_the_setting(id@, true);
}

} // verus!
