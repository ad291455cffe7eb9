use quota_control::config::config_path;
use quota_control::credentials::{
    account_keychain_name, account_secret_store, account_vault_path, clear_kimi_api_key,
    entered_api_key, fallback_backend, kimi_key_store, load_kimi_api_key,
    managed_keychain_location, parse_codex_auth, store_kimi_account_api_key, store_kimi_api_key,
    vault_file_name, vault_path, CodexAuthDocument, CodexAuthTokens, SecretStore,
    ACCOUNT_SECRET_SERVICE, KIMI_ACCOUNT, KIMI_SERVICE,
};
use quota_control::estimator::now_unix_secs;
use quota_control::types::{CredentialRef, KimiCredentialBackend};
use std::cell::RefCell;

fn chatgpt_document(token: Option<&str>, last_refresh: Option<&str>) -> CodexAuthDocument {
    CodexAuthDocument {
        auth_mode: Some("chatgpt".to_string()),
        tokens: Some(CodexAuthTokens {
            access_token: token.map(|t| t.to_string()),
            account_id: Some("acct-work".to_string()),
        }),
        last_refresh: last_refresh.map(|t| t.to_string()),
    }
}

fn now() -> Option<u64> {
    Some(now_unix_secs() as u64)
}

#[test]
fn account_keychain_names_are_isolated_by_service_and_account_id() {
    assert_eq!(
        account_keychain_name("kimi", "account-1"),
        "account:kimi:account-1"
    );
    assert_eq!(
        account_keychain_name("codex", "account-1"),
        "account:codex:account-1"
    );
}

#[test]
fn account_keychain_names_trim_both_parts() {
    assert_eq!(account_keychain_name(" kimi ", "\tone\n"), "account:kimi:one");
}

#[test]
fn codex_import_requires_chatgpt_auth_and_returns_the_account_id() {
    let imported = parse_codex_auth(
        &chatgpt_document(Some("secret-access-token"), Some("2099-07-21T08:00:00Z")),
        now(),
    )
    .expect("chatgpt auth should import");

    assert_eq!(imported.account_id.as_deref(), Some("acct-work"));
    assert_eq!(imported.access_token, "secret-access-token");
    assert!(!imported.is_stale);
}

#[test]
fn codex_import_rejects_api_key_auth() {
    let document = CodexAuthDocument {
        auth_mode: Some("apikey".to_string()),
        tokens: Some(CodexAuthTokens {
            access_token: Some("secret".to_string()),
            account_id: None,
        }),
        last_refresh: None,
    };
    let error = parse_codex_auth(&document, now())
        .expect_err("API key auth has no quota endpoint identity");

    assert_eq!(error, "当前 Codex 登录不是 ChatGPT OAuth 账号");
}

#[test]
fn codex_import_requires_tokens_and_a_non_blank_access_token() {
    let mut no_tokens = chatgpt_document(Some("x"), None);
    no_tokens.tokens = None;
    assert_eq!(
        parse_codex_auth(&no_tokens, now()),
        Err("Codex 登录缺少 OAuth token".to_string())
    );
    assert_eq!(
        parse_codex_auth(&chatgpt_document(Some("   "), None), now()),
        Err("Codex 登录缺少 access token".to_string())
    );
    assert_eq!(
        parse_codex_auth(&chatgpt_document(None, None), now()),
        Err("Codex 登录缺少 access token".to_string())
    );
}

#[test]
fn codex_logins_refreshed_more_than_eight_days_ago_are_stale() {
    // 2024-01-01T00:00:00Z is 1704067200.
    let document = chatgpt_document(Some("t"), Some("2024-01-01T00:00:00Z"));
    let fresh = parse_codex_auth(&document, Some(1_704_067_200 + 8 * 24 * 3600)).unwrap();
    assert!(!fresh.is_stale);
    let stale = parse_codex_auth(&document, Some(1_704_067_200 + 8 * 24 * 3600 + 1)).unwrap();
    assert!(stale.is_stale);
    let unreadable = chatgpt_document(Some("t"), Some("yesterday"));
    assert!(!parse_codex_auth(&unreadable, Some(u64::MAX)).unwrap().is_stale);
}

#[test]
fn managed_credentials_resolve_to_the_app_owned_keychain_service() {
    let kimi = CredentialRef::KimiKeychain {
        account: "account:kimi:one".to_string(),
    };
    let codex = CredentialRef::CodexKeychain {
        account: "account:codex:two".to_string(),
    };

    assert_eq!(
        managed_keychain_location(&kimi),
        Some((ACCOUNT_SECRET_SERVICE, "account:kimi:one"))
    );
    assert_eq!(
        managed_keychain_location(&codex),
        Some((ACCOUNT_SECRET_SERVICE, "account:codex:two"))
    );
    assert_eq!(managed_keychain_location(&CredentialRef::LegacyKimi), None);
    assert_eq!(managed_keychain_location(&CredentialRef::LiveCodex), None);
    assert_eq!(
        managed_keychain_location(&CredentialRef::KimiVault {
            account: "x".to_string()
        }),
        None
    );
}

#[test]
fn vault_files_are_named_only_for_storage_safe_ids() {
    assert_eq!(
        vault_file_name("account-1f"),
        Ok("credentials-account-1f.vault.json".to_string())
    );
    assert_eq!(
        vault_file_name("../etc"),
        Err("账号标识不能用于凭据路径".to_string())
    );
    assert_eq!(vault_file_name(""), Err("账号标识不能用于凭据路径".to_string()));
    assert_eq!(
        account_vault_path("/tmp/conf", "a-1"),
        Ok("/tmp/conf/credentials-a-1.vault.json".to_string())
    );
    assert_eq!(vault_path("/tmp/conf"), "/tmp/conf/credentials.vault.json");
    assert_eq!(config_path("/tmp/conf"), "/tmp/conf/config.json");
}

fn vault_store(path: &str) -> SecretStore {
    SecretStore::VaultFile {
        path: path.to_string(),
    }
}

fn kimi_keychain() -> SecretStore {
    SecretStore::Keychain {
        service: KIMI_SERVICE.to_string(),
        account: KIMI_ACCOUNT.to_string(),
    }
}

#[test]
fn each_backend_keeps_the_kimi_key_in_its_own_store() {
    assert_eq!(
        kimi_key_store(&KimiCredentialBackend::Keychain, "/c"),
        kimi_keychain()
    );
    assert_eq!(
        kimi_key_store(&KimiCredentialBackend::EncryptedVault, "/c"),
        vault_store("/c/credentials.vault.json")
    );
}

#[test]
fn the_kimi_key_falls_back_to_the_other_backend() {
    let calls = RefCell::new(Vec::new());
    let loaded = load_kimi_api_key(&KimiCredentialBackend::Keychain, "/c", |store| {
        calls.borrow_mut().push(store.clone());
        match store {
            SecretStore::Keychain { .. } => Ok(None),
            SecretStore::VaultFile { .. } => Ok(Some("sk-vault".to_string())),
        }
    });
    assert_eq!(loaded, Ok(Some("sk-vault".to_string())));
    assert_eq!(
        *calls.borrow(),
        vec![kimi_keychain(), vault_store("/c/credentials.vault.json")]
    );
    let failed = load_kimi_api_key(&KimiCredentialBackend::EncryptedVault, "/c", |store| {
        match store {
            SecretStore::VaultFile { .. } => Err("locked".to_string()),
            SecretStore::Keychain { .. } => Ok(Some("unused".to_string())),
        }
    });
    assert_eq!(failed, Err("locked".to_string()));
    let found = load_kimi_api_key(&KimiCredentialBackend::Keychain, "/c", |store| match store {
        SecretStore::Keychain { .. } => Ok(Some("sk-key".to_string())),
        SecretStore::VaultFile { .. } => panic!("the other store must not be read"),
    });
    assert_eq!(found, Ok(Some("sk-key".to_string())));
    assert_eq!(
        fallback_backend(&KimiCredentialBackend::EncryptedVault),
        KimiCredentialBackend::Keychain
    );
}

#[test]
fn storing_and_clearing_go_to_the_chosen_backend() {
    let stored = store_kimi_api_key(
        "sk-1",
        &KimiCredentialBackend::EncryptedVault,
        "/c",
        |store, key| {
            assert_eq!(*store, vault_store("/c/credentials.vault.json"));
            assert_eq!(key, "sk-1");
            Err("disk full".to_string())
        },
    );
    assert_eq!(stored, Err("disk full".to_string()));
    let cleared = clear_kimi_api_key(&KimiCredentialBackend::Keychain, "/c", |store| {
        assert_eq!(*store, kimi_keychain());
        Ok(())
    });
    assert_eq!(cleared, Ok(()));
}

#[test]
fn account_secrets_live_in_the_app_keychain_or_the_account_vault() {
    assert_eq!(
        account_secret_store(
            &CredentialRef::CodexKeychain {
                account: "account:codex:a".to_string()
            },
            "/c"
        ),
        Ok(Some(SecretStore::Keychain {
            service: ACCOUNT_SECRET_SERVICE.to_string(),
            account: "account:codex:a".to_string()
        }))
    );
    assert_eq!(
        account_secret_store(
            &CredentialRef::KimiVault {
                account: "a-1".to_string()
            },
            "/c"
        ),
        Ok(Some(vault_store("/c/credentials-a-1.vault.json")))
    );
    assert_eq!(
        account_secret_store(
            &CredentialRef::KimiVault {
                account: "../x".to_string()
            },
            "/c"
        ),
        Err("账号标识不能用于凭据路径".to_string())
    );
    assert_eq!(account_secret_store(&CredentialRef::LiveCodex, "/c"), Ok(None));
}

#[test]
fn a_new_kimi_account_key_is_written_to_its_store_trimmed() {
    let written = RefCell::new(Vec::new());
    let write = |store: &SecretStore, key: &str| {
        written.borrow_mut().push((store.clone(), key.to_string()));
        Ok(())
    };
    let reference = store_kimi_account_api_key(
        "a-1",
        "  sk-new ",
        KimiCredentialBackend::Keychain,
        "/c",
        write,
    );
    assert_eq!(
        reference,
        Ok(CredentialRef::KimiKeychain {
            account: "account:kimi:a-1".to_string()
        })
    );
    let vault = store_kimi_account_api_key(
        "a-1",
        "sk-v",
        KimiCredentialBackend::EncryptedVault,
        "/c",
        write,
    );
    assert_eq!(
        vault,
        Ok(CredentialRef::KimiVault {
            account: "a-1".to_string()
        })
    );
    assert_eq!(
        *written.borrow(),
        vec![
            (
                SecretStore::Keychain {
                    service: ACCOUNT_SECRET_SERVICE.to_string(),
                    account: "account:kimi:a-1".to_string()
                },
                "sk-new".to_string()
            ),
            (
                vault_store("/c/credentials-a-1.vault.json"),
                "sk-v".to_string()
            ),
        ]
    );
    assert_eq!(
        store_kimi_account_api_key("a-1", "  ", KimiCredentialBackend::Keychain, "/c", write),
        Err("Kimi API Key 不能为空".to_string())
    );
    assert_eq!(
        store_kimi_account_api_key("../x", "k", KimiCredentialBackend::EncryptedVault, "/c", write),
        Err("账号标识不能用于凭据路径".to_string())
    );
    assert_eq!(written.borrow().len(), 2);
    assert_eq!(
        store_kimi_account_api_key("b", "k", KimiCredentialBackend::Keychain, "/c", |_, _| {
            Err("denied".to_string())
        }),
        Err("denied".to_string())
    );
}

#[test]
fn entered_keys_are_trimmed_and_must_not_be_blank() {
    assert_eq!(entered_api_key("  sk-abc \n"), Some("sk-abc".to_string()));
    assert_eq!(entered_api_key(" \t "), None);
}
