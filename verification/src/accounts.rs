//! The list of monitored accounts: adding, renaming and removing accounts
//! while keeping ids unique and names unique within a provider.
use crate::text::{eq_ignore_ascii_case, same_ignoring_ascii_case, trim, trimmed};
use crate::types::{CredentialRef, MonitorAccount, MonitorAccountView, ServiceKind};
use vstd::prelude::*;

verus! {

/// The views of a list of accounts.
pub open spec fn account_views(s: Seq<MonitorAccount>) -> Seq<MonitorAccountView> {
    s.map_values(|a: MonitorAccount| a@)
}

/// The message of a rejected account id.
pub open spec fn invalid_id_message() -> Seq<char> {
    "账号标识无效或已存在"@
}

/// The message of an empty account name.
pub open spec fn empty_name_message() -> Seq<char> {
    "账号名称不能为空"@
}

/// The message of an unknown account id.
pub open spec fn unknown_account_message() -> Seq<char> {
    "账号不存在"@
}

/// The name of a provider.
pub open spec fn provider_label(service: ServiceKind) -> Seq<char> {
    match service {
        ServiceKind::Kimi => "Kimi"@,
        ServiceKind::Codex => "Codex"@,
    }
}

/// The message of a name that a provider's account already has.
pub open spec fn duplicate_name_message(service: ServiceKind) -> Seq<char> {
    provider_label(service) + " 已存在同名账号"@
}

/// The name of a provider.
pub fn service_label(service: ServiceKind) -> (label: &'static str)
    ensures
        label@ == provider_label(service),
{
    match service {
        ServiceKind::Kimi => "Kimi",
        ServiceKind::Codex => "Codex",
    }
}

/// Whether some account of `accounts` has id `id`.
pub open spec fn has_id(accounts: Seq<MonitorAccountView>, id: Seq<char>) -> bool {
    exists|i: int| 0 <= i < accounts.len() && #[trigger] accounts[i].id == id
}

/// Whether an account other than the one with id `excluding` (if any) of
/// provider `service` has the name `name`, comparing ASCII letters without case.
pub open spec fn name_taken(
    accounts: Seq<MonitorAccountView>,
    service: ServiceKind,
    name: Seq<char>,
    excluding: Option<Seq<char>>,
) -> bool {
    exists|i: int|
        0 <= i < accounts.len() && #[trigger] accounts[i].service == service && excluding != Some(
            accounts[i].id,
        ) && same_ignoring_ascii_case(accounts[i].display_name, name)
}

/// No account of `service` other than those with id `id` is named `name`,
/// comparing ASCII letters without case.
pub open spec fn no_other_account_named(
    accounts: Seq<MonitorAccountView>,
    service: ServiceKind,
    name: Seq<char>,
    id: Seq<char>,
) -> bool {
    forall|j: int|
        0 <= j < accounts.len() && #[trigger] accounts[j].id != id && accounts[j].service == service
            ==> !same_ignoring_ascii_case(accounts[j].display_name, name)
}

/// Ids are unique, and no two accounts of one provider have names that are
/// equal when ASCII letters are compared without case.
pub open spec fn accounts_well_formed(accounts: Seq<MonitorAccountView>) -> bool {
    forall|i: int, j: int|
        0 <= i < j < accounts.len() ==> distinct_accounts(#[trigger] accounts[i], #[trigger] accounts[j])
}

/// Two accounts have different ids, and different names if they belong to the
/// same provider.
pub open spec fn distinct_accounts(a: MonitorAccountView, b: MonitorAccountView) -> bool {
    a.id != b.id && !(a.service == b.service && same_ignoring_ascii_case(a.display_name, b.display_name))
}

/// Whether `i` is the index of the first account with id `id`.
pub open spec fn is_first_with_id(accounts: Seq<MonitorAccountView>, id: Seq<char>, i: int) -> bool {
    0 <= i < accounts.len() && accounts[i].id == id && forall|j: int|
        0 <= j < i ==> #[trigger] accounts[j].id != id
}

/// The account a successful `add_account_with_id` creates.
pub open spec fn new_account(
    id: Seq<char>,
    service: ServiceKind,
    display_name: Seq<char>,
    credential_ref: crate::types::CredentialRefView,
    created_at: i64,
) -> MonitorAccountView {
    MonitorAccountView {
        id: trimmed(id),
        service,
        display_name: trimmed(display_name),
        provider_identity_hint: None,
        credential_ref,
        enabled: true,
        created_at,
    }
}

/// The index of the first account with id `id`.
fn position_of(accounts: &Vec<MonitorAccount>, id: &str) -> (index: Option<usize>)
    ensures
        match index {
            Some(i) => is_first_with_id(account_views(accounts@), id@, i as int),
            None => !has_id(account_views(accounts@), id@),
        },
{
    let mut i: usize = 0;
    while i < accounts.len()
        invariant
            i <= accounts@.len(),
            forall|j: int| 0 <= j < i ==> #[trigger] account_views(accounts@)[j].id != id@,
        decreases accounts@.len() - i,
    {
        if crate::text::same_text(accounts[i].id.as_str(), id) {
            return Some(i);
        }
        i += 1;
    }
    proof {
        if has_id(account_views(accounts@), id@) {
            let k = choose|k: int| 0 <= k < accounts@.len() && #[trigger] account_views(accounts@)[k].id == id@;
            assert(account_views(accounts@)[k].id != id@);
        }
    }
    None
}

/// Whether an account other than the one with id `excluding` (if any) of
/// provider `service` has the name `name`.
fn is_name_taken(
    accounts: &Vec<MonitorAccount>,
    service: ServiceKind,
    name: &str,
    excluding: Option<&str>,
) -> (taken: bool)
    ensures
        taken == name_taken(
            account_views(accounts@),
            service,
            name@,
            match excluding {
                Some(e) => Some(e@),
                None => None,
            },
        ),
{
    let ghost ex = match excluding {
        Some(e) => Some(e@),
        None => None,
    };
    let mut i: usize = 0;
    while i < accounts.len()
        invariant
            i <= accounts@.len(),
            ex == match excluding {
                Some(e) => Some(e@),
                None => None::<Seq<char>>,
            },
            forall|j: int|
                0 <= j < i ==> !(#[trigger] account_views(accounts@)[j].service == service && ex
                    != Some(account_views(accounts@)[j].id) && same_ignoring_ascii_case(
                    account_views(accounts@)[j].display_name,
                    name@,
                )),
        decreases accounts@.len() - i,
    {
        let a = &accounts[i];
        let excluded = match excluding {
            Some(e) => crate::text::same_text(a.id.as_str(), e),
            None => false,
        };
        if a.service == service && !excluded && eq_ignore_ascii_case(a.display_name.as_str(), name) {
            proof {
                assert(account_views(accounts@)[i as int].service == service);
            }
            return true;
        }
        i += 1;
    }
    proof {
        if name_taken(account_views(accounts@), service, name@, ex) {
            let k = choose|k: int|
                0 <= k < accounts@.len() && #[trigger] account_views(accounts@)[k].service == service
                    && ex != Some(account_views(accounts@)[k].id) && same_ignoring_ascii_case(
                    account_views(accounts@)[k].display_name,
                    name@,
                );
            assert(account_views(accounts@)[k].service == service);
        }
    }
    false
}

/// The duplicate-name message of a provider.
fn duplicate_name_error(service: ServiceKind) -> (message: String)
    ensures
        message@ == duplicate_name_message(service),
{
    let mut message = String::from_str(service_label(service));
    message.append(" 已存在同名账号");
    message
}

/// Adds an account with the trimmed id `id` and the trimmed name
/// `display_name`, enabled and without an identity hint.
///
/// Fails, leaving `accounts` unchanged, when the trimmed id is empty or
/// already used, when the trimmed name is empty, or when another account of
/// the provider has that name (ASCII letters compared without case).
pub fn add_account_with_id(
    accounts: &mut Vec<MonitorAccount>,
    id: &str,
    service: ServiceKind,
    display_name: &str,
    credential_ref: CredentialRef,
    created_at: i64,
) -> (result: Result<MonitorAccount, String>)
    ensures
        ({
            let old_accounts = account_views(old(accounts)@);
            let id_ok = trimmed(id@).len() > 0 && !has_id(old_accounts, trimmed(id@));
            let name_ok = trimmed(display_name@).len() > 0;
            let unique = !name_taken(old_accounts, service, trimmed(display_name@), None);
            match result {
                Ok(account) => {
                    &&& id_ok && name_ok && unique
                    &&& account@ == new_account(id@, service, display_name@, credential_ref@, created_at)
                    &&& account_views(final(accounts)@) == old_accounts.push(account@)
                    &&& accounts_well_formed(old_accounts) ==> accounts_well_formed(
                        account_views(final(accounts)@),
                    )
                },
                Err(message) => {
                    &&& final(accounts)@ == old(accounts)@
                    &&& !id_ok ==> message@ == invalid_id_message()
                    &&& id_ok && !name_ok ==> message@ == empty_name_message()
                    &&& id_ok && name_ok ==> !unique && message@ == duplicate_name_message(service)
                },
            }
        }),
{
    let id = trim(id);
    let found = position_of(accounts, id.as_str());
    if id.as_str().is_empty() || found.is_some() {
        proof {
            if id@.len() > 0 {
                assert(found is Some);
            }
        }
        return Err(String::from_str("账号标识无效或已存在"));
    }
    let display_name = trim(display_name);
    if display_name.as_str().is_empty() {
        return Err(String::from_str("账号名称不能为空"));
    }
    if is_name_taken(accounts, service, display_name.as_str(), None) {
        return Err(duplicate_name_error(service));
    }
    let account = MonitorAccount {
        id,
        service,
        display_name,
        provider_identity_hint: None,
        credential_ref,
        enabled: true,
        created_at,
    };
    let copy = account.duplicate();
    proof {
        let before = account_views(accounts@);
        let after = before.push(copy@);
        assert(account_views(accounts@.push(copy)) =~= after);
        if accounts_well_formed(before) {
            assert forall|i: int, j: int| 0 <= i < j < after.len() implies distinct_accounts(#[trigger] after[i], #[trigger] after[j]) by {
                if j == before.len() {
                    assert(before[i] == after[i]);
                    if after[i].id == after[j].id {
                        assert(has_id(before, copy@.id));
                    }
                    if after[i].service == after[j].service && same_ignoring_ascii_case(
                        after[i].display_name,
                        after[j].display_name,
                    ) {
                        assert(before[i].service == service);
                    }
                } else {
                    assert(before[i] == after[i] && before[j] == after[j]);
                    assert(distinct_accounts(before[i], before[j]));
                }
            }
        }
    }
    accounts.push(copy);
    Ok(account)
}

proof fn lemma_same_ignoring_case_symmetric(a: Seq<char>, b: Seq<char>)
    ensures
        same_ignoring_ascii_case(a, b) == same_ignoring_ascii_case(b, a),
{
}

/// Gives the account with id `account_id` the trimmed name `display_name`,
/// keeping its id and everything else.
///
/// Fails, leaving `accounts` unchanged, when no account has that id, when
/// the trimmed name is empty, or when another account of the same provider
/// has that name (ASCII letters compared without case).
pub fn rename_account(accounts: &mut Vec<MonitorAccount>, account_id: &str, display_name: &str) -> (result: Result<(), String>)
    ensures
        ({
            let old_accounts = account_views(old(accounts)@);
            let name = trimmed(display_name@);
            match result {
                Ok(()) => exists|i: int| {
                    &&& #[trigger] is_first_with_id(old_accounts, account_id@, i)
                    &&& name.len() > 0
                    &&& !name_taken(old_accounts, old_accounts[i].service, name, Some(account_id@))
                    &&& account_views(final(accounts)@) == old_accounts.update(
                        i,
                        MonitorAccountView { display_name: name, ..old_accounts[i] },
                    )
                },
                Err(message) => {
                    &&& final(accounts)@ == old(accounts)@
                    &&& !has_id(old_accounts, account_id@) ==> message@ == unknown_account_message()
                    &&& has_id(old_accounts, account_id@) && name.len() == 0 ==> message@
                        == empty_name_message()
                    &&& has_id(old_accounts, account_id@) && name.len() > 0 ==> exists|i: int|
                        #[trigger] is_first_with_id(old_accounts, account_id@, i) && name_taken(
                            old_accounts,
                            old_accounts[i].service,
                            name,
                            Some(account_id@),
                        ) && message@ == duplicate_name_message(old_accounts[i].service)
                },
            }
        }),
        accounts_well_formed(account_views(old(accounts)@)) ==> accounts_well_formed(
            account_views(final(accounts)@),
        ),
        forall|i: int|
            #[trigger] is_first_with_id(account_views(old(accounts)@), account_id@, i) && trimmed(
                display_name@,
            ).len() > 0 && no_other_account_named(
                account_views(old(accounts)@),
                account_views(old(accounts)@)[i].service,
                trimmed(display_name@),
                account_id@,
            ) ==> result is Ok,
{
    let index = match position_of(accounts, account_id) {
        Some(index) => index,
        None => return Err(String::from_str("账号不存在")),
    };
    let display_name = trim(display_name);
    if display_name.as_str().is_empty() {
        return Err(String::from_str("账号名称不能为空"));
    }
    let service = accounts[index].service;
    if is_name_taken(accounts, service, display_name.as_str(), Some(account_id)) {
        proof {
            let views = account_views(accounts@);
            assert forall|i: int|
                #[trigger] is_first_with_id(views, account_id@, i) implies !no_other_account_named(
                views,
                views[i].service,
                display_name@,
                account_id@,
            ) by {
                if i < index {
                    assert(views[i].id != account_id@);
                }
                if index < i {
                    assert(views[index as int].id != account_id@);
                }
                let k = choose|k: int|
                    0 <= k < views.len() && #[trigger] views[k].service == service && Some(
                        account_id@,
                    ) != Some(views[k].id) && same_ignoring_ascii_case(views[k].display_name, display_name@);
                assert(views[k].id != account_id@);
            }
        }
        return Err(duplicate_name_error(service));
    }
    let ghost before = account_views(accounts@);
    let mut renamed = accounts[index].duplicate();
    renamed.display_name = display_name;
    accounts.set(index, renamed);
    proof {
        let after = account_views(accounts@);
        let i = index as int;
        assert(after =~= before.update(i, MonitorAccountView { display_name: renamed@.display_name, ..before[i] }));
        if accounts_well_formed(before) {
            assert forall|a: int, b: int| 0 <= a < b < after.len() implies distinct_accounts(#[trigger] after[a], #[trigger] after[b]) by {
                assert(distinct_accounts(before[a], before[b]));
                if a == i {
                    lemma_same_ignoring_case_symmetric(after[a].display_name, after[b].display_name);
                    assert(before[b].id != account_id@);
                    if after[a].service == after[b].service && same_ignoring_ascii_case(
                        after[b].display_name,
                        after[a].display_name,
                    ) {
                        assert(before[b].service == service);
                    }
                } else if b == i {
                    assert(before[a].id != account_id@);
                    if after[a].service == after[b].service && same_ignoring_ascii_case(
                        after[a].display_name,
                        after[b].display_name,
                    ) {
                        assert(before[a].service == service);
                    }
                }
            }
        }
    }
    Ok(())
}

/// Removes the first account with id `account_id` and hands it back; fails,
/// leaving `accounts` unchanged, when no account has that id.
pub fn remove_account(accounts: &mut Vec<MonitorAccount>, account_id: &str) -> (result: Result<MonitorAccount, String>)
    ensures
        ({
            let old_accounts = account_views(old(accounts)@);
            match result {
                Ok(account) => exists|i: int| {
                    &&& #[trigger] is_first_with_id(old_accounts, account_id@, i)
                    &&& account@ == old_accounts[i]
                    &&& account_views(final(accounts)@) == old_accounts.remove(i)
                },
                Err(message) => {
                    &&& !has_id(old_accounts, account_id@)
                    &&& final(accounts)@ == old(accounts)@
                    &&& message@ == unknown_account_message()
                },
            }
        }),
        accounts_well_formed(account_views(old(accounts)@)) ==> accounts_well_formed(
            account_views(final(accounts)@),
        ),
{
    let index = match position_of(accounts, account_id) {
        Some(index) => index,
        None => return Err(String::from_str("账号不存在")),
    };
    let ghost before = accounts@;
    let removed = accounts.remove(index);
    proof {
        let i = index as int;
        before.remove_ensures(i);
        account_views(before).remove_ensures(i);
        assert(account_views(accounts@) =~= account_views(before).remove(i));
        if accounts_well_formed(account_views(before)) {
            lemma_remove_keeps_well_formed(account_views(before), i);
        }
    }
    Ok(removed)
}

proof fn lemma_remove_keeps_well_formed(accounts: Seq<MonitorAccountView>, i: int)
    requires
        accounts_well_formed(accounts),
        0 <= i < accounts.len(),
    ensures
        accounts_well_formed(accounts.remove(i)),
{
    let after = accounts.remove(i);
    accounts.remove_ensures(i);
    assert forall|a: int, b: int| 0 <= a < b < after.len() implies distinct_accounts(#[trigger] after[a], #[trigger] after[b]) by {
        let oa = if a < i { a } else { a + 1 };
        let ob = if b < i { b } else { b + 1 };
        assert(after[a] == accounts[oa] && after[b] == accounts[ob]);
        assert(distinct_accounts(accounts[oa], accounts[ob]));
    }
}

/// Renaming leaves the renamed account out of the duplicate check: a name
/// that no other account of its provider has is free for it, even when it is
/// the name the account already has (in any letter case).
pub proof fn renaming_ignores_the_account_itself(
    accounts: Seq<MonitorAccountView>,
    id: Seq<char>,
    name: Seq<char>,
    i: int,
)
    requires
        is_first_with_id(accounts, id, i),
        no_other_account_named(accounts, accounts[i].service, name, id),
    ensures
        !name_taken(accounts, accounts[i].service, name, Some(id)),
{
    if name_taken(accounts, accounts[i].service, name, Some(id)) {
        let k = choose|k: int|
            0 <= k < accounts.len() && #[trigger] accounts[k].service == accounts[i].service && Some(id)
                != Some(accounts[k].id) && same_ignoring_ascii_case(accounts[k].display_name, name);
        assert(accounts[k].id != id);
    }
}

/// Removing the account that was just added gives back the list it was added to.
pub proof fn removing_an_added_account_restores_the_list(
    accounts: Seq<MonitorAccountView>,
    added: MonitorAccountView,
)
    requires
        !has_id(accounts, added.id),
    ensures
        is_first_with_id(accounts.push(added), added.id, accounts.len() as int),
        accounts.push(added).remove(accounts.len() as int) == accounts,
{
    let all = accounts.push(added);
    assert forall|j: int| 0 <= j < accounts.len() implies #[trigger] all[j].id != added.id by {
        assert(all[j] == accounts[j]);
    }
    assert(all.remove(accounts.len() as int) =~= accounts);
}

/// The account id made from `n`: `account-` and 32 lower-case hexadecimal digits.
pub open spec fn account_id_text(n: u128) -> Seq<char> {
    "account-"@ + crate::text::hex_text(n as nat, 32)
}

/// The account id made from `n`.
pub fn account_id_from(n: u128) -> (id: String)
    ensures
        id@ == account_id_text(n),
{
    let mut id = String::from_str("account-");
    crate::text::push_hex(&mut id, n, 32);
    id
}

/// A new random account id: `account-` and 32 lower-case hexadecimal digits
/// of 16 random bytes; an error when the random source fails.
pub fn new_account_id() -> (id: Result<String, String>)
    ensures
        match id {
            Ok(text) => exists|n: u128| text@ == account_id_text(n),
            Err(m) => crate::vault::starts_with(m@, crate::vault::random_failed_prefix()),
        },
{
    let bytes = match crate::vault::draw_random_bytes(16) {
        Ok(bytes) => bytes,
        Err(e) => return Err(e),
    };
    let mut n: u128 = 0;
    let mut i: usize = 0;
    while i < bytes.len()
        decreases bytes@.len() - i,
    {
        n = (n << 8u32) | (bytes[i] as u128);
        i += 1;
    }
    Ok(account_id_from(n))
}

/// Account ids hold only ASCII letters, digits and `-`, so they can be used
/// in file names and credential paths.
pub proof fn account_ids_are_storage_safe(n: u128)
    ensures
        account_id_text(n).len() == 40,
        forall|i: int|
            0 <= i < account_id_text(n).len() ==> crate::text::is_ascii_alphanumeric(
                #[trigger] account_id_text(n)[i],
            ) || account_id_text(n)[i] == '-',
{
    reveal_strlit("account-");
    crate::text::hex_text_is_alphanumeric(n as nat, 32);
    let h = crate::text::hex_text(n as nat, 32);
    assert forall|i: int| 0 <= i < account_id_text(n).len() implies crate::text::is_ascii_alphanumeric(
        #[trigger] account_id_text(n)[i],
    ) || account_id_text(n)[i] == '-' by {
        if i >= 8 {
            assert(account_id_text(n)[i] == h[i - 8]);
        }
    }
}

} // verus!
