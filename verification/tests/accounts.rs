use quota_control::accounts::{
    account_id_from, add_account_with_id, new_account_id, remove_account, rename_account,
    service_label,
};
use quota_control::types::{CredentialRef, MonitorAccount, ServiceKind};

fn kimi_account(id: &str, name: &str) -> MonitorAccount {
    MonitorAccount {
        id: id.to_string(),
        service: ServiceKind::Kimi,
        display_name: name.to_string(),
        provider_identity_hint: None,
        credential_ref: CredentialRef::KimiKeychain {
            account: format!("kimi-{id}"),
        },
        enabled: true,
        created_at: 100,
    }
}

#[test]
fn add_account_trims_the_name_and_preserves_the_requested_id() {
    let mut accounts = Vec::new();

    let account = add_account_with_id(
        &mut accounts,
        "account-1",
        ServiceKind::Kimi,
        "  工作账号  ",
        CredentialRef::KimiKeychain {
            account: "kimi-account-1".to_string(),
        },
        100,
    )
    .expect("account should be accepted");

    assert_eq!(account.id, "account-1");
    assert_eq!(account.display_name, "工作账号");
    assert_eq!(accounts, vec![account]);
}

#[test]
fn add_account_rejects_duplicate_names_for_the_same_service() {
    let mut accounts = vec![kimi_account("existing", "Work")];

    let error = add_account_with_id(
        &mut accounts,
        "new",
        ServiceKind::Kimi,
        " work ",
        CredentialRef::KimiKeychain {
            account: "kimi-new".to_string(),
        },
        101,
    )
    .expect_err("duplicate name should be rejected");

    assert_eq!(error, "Kimi 已存在同名账号");
    assert_eq!(accounts.len(), 1);
}

#[test]
fn rename_account_preserves_the_stable_id() {
    let mut accounts = vec![kimi_account("stable", "Old")];

    rename_account(&mut accounts, "stable", " New ").expect("rename should work");

    assert_eq!(accounts[0].id, "stable");
    assert_eq!(accounts[0].display_name, "New");
}

#[test]
fn remove_account_returns_the_removed_record() {
    let mut accounts = vec![kimi_account("remove-me", "Personal")];

    let removed = remove_account(&mut accounts, "remove-me").expect("account should exist");

    assert_eq!(removed.id, "remove-me");
    assert!(accounts.is_empty());
}

#[test]
fn generated_account_ids_are_unique_and_storage_safe() {
    let first = new_account_id().unwrap();
    let second = new_account_id().unwrap();

    assert_ne!(first, second);
    assert!(first.starts_with("account-"));
    assert!(first
        .chars()
        .all(|character| character.is_ascii_alphanumeric() || character == '-'));
}

#[test]
fn the_same_name_is_accepted_for_another_provider() {
    let mut accounts = vec![kimi_account("existing", "Work")];
    let account = add_account_with_id(
        &mut accounts,
        "codex-1",
        ServiceKind::Codex,
        "work",
        CredentialRef::CodexKeychain {
            account: "account:codex:codex-1".to_string(),
        },
        7,
    )
    .expect("names are unique per provider only");
    assert_eq!(account.service, ServiceKind::Codex);
    assert_eq!(accounts.len(), 2);
}

#[test]
fn add_account_rejects_a_used_or_empty_id_and_an_empty_name() {
    let mut accounts = vec![kimi_account("taken", "Work")];
    let used = add_account_with_id(
        &mut accounts,
        " taken ",
        ServiceKind::Codex,
        "Other",
        CredentialRef::LiveCodex,
        1,
    );
    assert_eq!(used, Err("账号标识无效或已存在".to_string()));
    let empty_id = add_account_with_id(
        &mut accounts,
        "   ",
        ServiceKind::Codex,
        "Other",
        CredentialRef::LiveCodex,
        1,
    );
    assert_eq!(empty_id, Err("账号标识无效或已存在".to_string()));
    let empty_name = add_account_with_id(
        &mut accounts,
        "fresh",
        ServiceKind::Codex,
        "  ",
        CredentialRef::LiveCodex,
        1,
    );
    assert_eq!(empty_name, Err("账号名称不能为空".to_string()));
    assert_eq!(accounts, vec![kimi_account("taken", "Work")]);
}

#[test]
fn rename_and_remove_reject_unknown_ids() {
    let mut accounts = vec![kimi_account("a", "One"), kimi_account("b", "Two")];
    assert_eq!(
        rename_account(&mut accounts, "missing", "Three"),
        Err("账号不存在".to_string())
    );
    assert_eq!(
        rename_account(&mut accounts, "a", " TWO "),
        Err("Kimi 已存在同名账号".to_string())
    );
    assert_eq!(
        rename_account(&mut accounts, "a", ""),
        Err("账号名称不能为空".to_string())
    );
    assert_eq!(
        remove_account(&mut accounts, "missing"),
        Err("账号不存在".to_string())
    );
    assert_eq!(accounts.len(), 2);
}

#[test]
fn removing_an_added_account_restores_the_list() {
    let mut accounts = vec![kimi_account("a", "One")];
    let before = accounts.clone();
    let added = add_account_with_id(
        &mut accounts,
        "b",
        ServiceKind::Kimi,
        "Two",
        CredentialRef::LegacyKimi,
        5,
    )
    .unwrap();
    let removed = remove_account(&mut accounts, "b").unwrap();
    assert_eq!(removed, added);
    assert_eq!(accounts, before);
}

#[test]
fn account_ids_are_the_hex_of_their_number() {
    assert_eq!(account_id_from(0), "account-00000000000000000000000000000000");
    assert_eq!(account_id_from(0xab), "account-000000000000000000000000000000ab");
    assert_eq!(service_label(ServiceKind::Codex), "Codex");
}
