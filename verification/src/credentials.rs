//! Where account secrets live, and what an imported Codex login holds.
use crate::config::{join_path, joined_path};
use crate::text::{is_ascii_alphanumeric, same_text, trim, trimmed};
use crate::types::{CredentialRef, CredentialRefView, KimiCredentialBackend};
use vstd::prelude::*;

verus! {

/// The keychain service that holds the secrets of monitored accounts.
pub const ACCOUNT_SECRET_SERVICE: &'static str = "agent-quota-control-accounts";

/// How long after its last refresh a Codex login counts as stale.
pub const CODEX_STALE_AFTER_SECS: u64 = 691_200;

/// The keychain account name of a monitored account's secret:
/// `account:<service>:<id>`, both parts trimmed.
pub open spec fn keychain_name(service: Seq<char>, account_id: Seq<char>) -> Seq<char> {
    "account:"@ + trimmed(service) + ":"@ + trimmed(account_id)
}

/// The keychain account name of a monitored account's secret.
pub fn account_keychain_name(service: &str, account_id: &str) -> (name: String)
    ensures
        name@ == keychain_name(service@, account_id@),
{
    let mut name = String::from_str("account:");
    name.append(trim(service).as_str());
    name.append(":");
    name.append(trim(account_id).as_str());
    name
}

/// The keychain service and account of a secret this application manages;
/// none for secrets kept elsewhere.
pub fn managed_keychain_location(credential_ref: &CredentialRef) -> (location: Option<(&'static str, &str)>)
    ensures
        match credential_ref@ {
            CredentialRefView::KimiKeychain { account } | CredentialRefView::CodexKeychain {
                account,
            } => location matches Some((service, name)) && service@ == ACCOUNT_SECRET_SERVICE@
                && name@ == account,
            _ => location is None,
        },
{
    match credential_ref {
        CredentialRef::KimiKeychain { account } => Some((ACCOUNT_SECRET_SERVICE, account.as_str())),
        CredentialRef::CodexKeychain { account } => Some((ACCOUNT_SECRET_SERVICE, account.as_str())),
        CredentialRef::LegacyKimi => None,
        CredentialRef::LiveCodex => None,
        CredentialRef::KimiVault { .. } => None,
    }
}

/// Whether an account id can be part of a file name: not empty, only ASCII
/// letters, digits and `-`.
pub open spec fn storage_safe(id: Seq<char>) -> bool {
    id.len() > 0 && forall|i: int| 0 <= i < id.len() ==> is_ascii_alphanumeric(#[trigger] id[i]) || id[i] == '-'
}

/// The message of an account id that cannot name a vault file.
pub open spec fn unsafe_id_message() -> Seq<char> {
    "账号标识不能用于凭据路径"@
}

/// The vault file name of an account: `credentials-<id>.vault.json`.
pub open spec fn vault_file_name_of(account_id: Seq<char>) -> Seq<char> {
    "credentials-"@ + account_id + ".vault.json"@
}

/// Whether `c` is an ASCII letter or digit.
pub fn is_ascii_alphanumeric_char(c: char) -> (alnum: bool)
    ensures
        alnum == is_ascii_alphanumeric(c),
{
    ('0' <= c && c <= '9') || ('a' <= c && c <= 'z') || ('A' <= c && c <= 'Z')
}

/// The vault file name of an account; fails for ids that are not storage safe.
pub fn vault_file_name(account_id: &str) -> (name: Result<String, String>)
    ensures
        match name {
            Ok(n) => storage_safe(account_id@) && n@ == vault_file_name_of(account_id@),
            Err(e) => !storage_safe(account_id@) && e@ == unsafe_id_message(),
        },
{
    let chars = crate::text::chars_of(account_id);
    let mut i: usize = 0;
    while i < chars.len()
        invariant
            i <= chars@.len(),
            chars@ == account_id@,
            forall|k: int| 0 <= k < i ==> is_ascii_alphanumeric(#[trigger] chars@[k]) || chars@[k] == '-',
        decreases chars@.len() - i,
    {
        if !(is_ascii_alphanumeric_char(chars[i]) || chars[i] == '-') {
            return Err(String::from_str("账号标识不能用于凭据路径"));
        }
        i += 1;
    }
    if chars.len() == 0 {
        return Err(String::from_str("账号标识不能用于凭据路径"));
    }
    let mut name = String::from_str("credentials-");
    name.append(account_id);
    name.append(".vault.json");
    Ok(name)
}

/// The vault file of the single Kimi key inside the configuration directory.
pub fn vault_path(config_dir: &str) -> (path: String)
    ensures
        path@ == joined_path(config_dir@, "credentials.vault.json"@),
{
    join_path(config_dir, "credentials.vault.json")
}

/// The vault file of an account's Kimi key inside the configuration
/// directory; fails for ids that are not storage safe.
pub fn account_vault_path(config_dir: &str, account_id: &str) -> (path: Result<String, String>)
    ensures
        match path {
            Ok(p) => storage_safe(account_id@) && p@ == joined_path(
                config_dir@,
                vault_file_name_of(account_id@),
            ),
            Err(e) => !storage_safe(account_id@) && e@ == unsafe_id_message(),
        },
{
    match vault_file_name(account_id) {
        Ok(name) => Ok(join_path(config_dir, name.as_str())),
        Err(e) => Err(e),
    }
}

/// The API key typed in: the input without surrounding white space, or none
/// when nothing is left.
pub fn entered_api_key(input: &str) -> (key: Option<String>)
    ensures
        match key {
            Some(k) => k@ == trimmed(input@) && k@.len() > 0,
            None => trimmed(input@).len() == 0,
        },
{
    let key = trim(input);
    if key.as_str().is_empty() {
        None
    } else {
        Some(key)
    }
}

/// The keychain service of the single Kimi API key.
pub const KIMI_SERVICE: &'static str = "kimi-code-status";

/// The keychain account of the single Kimi API key.
pub const KIMI_ACCOUNT: &'static str = "kimi-api-key";

/// Where a secret is kept: a keychain item, or an encrypted vault file.
#[derive(Debug, Clone, PartialEq, Eq)]
pub enum SecretStore {
    Keychain { service: String, account: String },
    VaultFile { path: String },
}

pub enum SecretStoreView {
    Keychain { service: Seq<char>, account: Seq<char> },
    VaultFile { path: Seq<char> },
}

impl View for SecretStore {
    type V = SecretStoreView;

    open spec fn view(&self) -> SecretStoreView {
        match self {
            SecretStore::Keychain { service, account } => SecretStoreView::Keychain {
                service: service@,
                account: account@,
            },
            SecretStore::VaultFile { path } => SecretStoreView::VaultFile { path: path@ },
        }
    }
}

/// Where the single Kimi API key of `backend` is kept: its keychain item, or
/// the vault file in the configuration directory.
pub open spec fn kimi_key_store_of(backend: KimiCredentialBackend, config_dir: Seq<char>) -> SecretStoreView {
    match backend {
        KimiCredentialBackend::Keychain => SecretStoreView::Keychain {
            service: KIMI_SERVICE@,
            account: KIMI_ACCOUNT@,
        },
        KimiCredentialBackend::EncryptedVault => SecretStoreView::VaultFile {
            path: joined_path(config_dir, "credentials.vault.json"@),
        },
    }
}

/// Where the single Kimi API key of `backend` is kept.
pub fn kimi_key_store(backend: &KimiCredentialBackend, config_dir: &str) -> (store: SecretStore)
    ensures
        store@ == kimi_key_store_of(*backend, config_dir@),
{
    match backend {
        KimiCredentialBackend::Keychain => SecretStore::Keychain {
            service: String::from_str(KIMI_SERVICE),
            account: String::from_str(KIMI_ACCOUNT),
        },
        KimiCredentialBackend::EncryptedVault => SecretStore::VaultFile { path: vault_path(config_dir) },
    }
}

/// Where the secret of a monitored account is kept: the application's
/// keychain item for keychain references, the account's vault file for vault
/// references (an error for an id that cannot name a file), nothing of the
/// application's own for the legacy and live logins.
pub open spec fn account_store_of(reference: CredentialRefView, config_dir: Seq<char>) -> Result<
    Option<SecretStoreView>,
    Seq<char>,
> {
    match reference {
        CredentialRefView::KimiKeychain { account } | CredentialRefView::CodexKeychain {
            account,
        } => Ok(Some(SecretStoreView::Keychain { service: ACCOUNT_SECRET_SERVICE@, account })),
        CredentialRefView::KimiVault { account } => if storage_safe(account) {
            Ok(Some(SecretStoreView::VaultFile { path: joined_path(config_dir, vault_file_name_of(account)) }))
        } else {
            Err(unsafe_id_message())
        },
        _ => Ok(None),
    }
}

/// The store of a store lookup that found one.
pub open spec fn kept_store(found: Result<Option<SecretStoreView>, Seq<char>>) -> SecretStoreView
    recommends
        found matches Ok(Some(_)),
{
    match found {
        Ok(Some(store)) => store,
        _ => SecretStoreView::VaultFile { path: Seq::empty() },
    }
}

/// Where the secret of a monitored account is kept.
pub fn account_secret_store(reference: &CredentialRef, config_dir: &str) -> (store: Result<
    Option<SecretStore>,
    String,
>)
    ensures
        match (store, account_store_of(reference@, config_dir@)) {
            (Ok(Some(s)), Ok(Some(v))) => s@ == v,
            (Ok(None), Ok(None)) => true,
            (Err(e), Err(m)) => e@ == m,
            _ => false,
        },
{
    match reference {
        CredentialRef::KimiKeychain { account } | CredentialRef::CodexKeychain { account } => Ok(
            Some(SecretStore::Keychain { service: String::from_str(ACCOUNT_SECRET_SERVICE), account: account.clone() }),
        ),
        CredentialRef::KimiVault { account } => match account_vault_path(config_dir, account.as_str()) {
            Ok(path) => Ok(Some(SecretStore::VaultFile { path })),
            Err(e) => Err(e),
        },
        CredentialRef::LegacyKimi => Ok(None),
        CredentialRef::LiveCodex => Ok(None),
    }
}

/// Whether `write` gave `result` when asked to keep `secret` in a store shown
/// as `store`.
pub open spec fn write_gave<F: Fn(&SecretStore, &str) -> Result<(), String>>(
    write: F,
    store: SecretStoreView,
    secret: Seq<char>,
    result: Result<(), String>,
) -> bool {
    exists|s: &SecretStore, k: &str|
        s@ == store && k@ == secret && #[trigger] call_ensures(write, (s, k), result)
}

/// Whether `read` gave `result` when asked to read a store shown as `store`.
pub open spec fn read_gave<F: Fn(&SecretStore) -> Result<Option<String>, String>>(
    read: F,
    store: SecretStoreView,
    result: Result<Option<String>, String>,
) -> bool {
    exists|s: &SecretStore| s@ == store && #[trigger] call_ensures(read, (s,), result)
}

/// Whether `erase` gave `result` when asked to remove a store shown as `store`.
pub open spec fn erase_gave<F: Fn(&SecretStore) -> Result<(), String>>(
    erase: F,
    store: SecretStoreView,
    result: Result<(), String>,
) -> bool {
    exists|s: &SecretStore| s@ == store && #[trigger] call_ensures(erase, (s,), result)
}

/// Stores the Kimi API key where `backend` keeps it; `write` keeps a secret in
/// a store, and its result is passed on. `write` is needed only for that store
/// and key, so no other store is written.
pub fn store_kimi_api_key<F: Fn(&SecretStore, &str) -> Result<(), String>>(
    key: &str,
    backend: &KimiCredentialBackend,
    config_dir: &str,
    write: F,
) -> (stored: Result<(), String>)
    requires
        forall|s: &SecretStore, k: &str|
            s@ == kimi_key_store_of(*backend, config_dir@) && k@ == key@ ==> #[trigger] call_requires(
                write,
                (s, k),
            ),
    ensures
        write_gave(write, kimi_key_store_of(*backend, config_dir@), key@, stored),
{
    let store = kimi_key_store(backend, config_dir);
    let stored = write(&store, key);
    proof {
        assert(write_gave(write, kimi_key_store_of(*backend, config_dir@), key@, stored));
    }
    stored
}

/// Removes the Kimi API key from where `backend` keeps it; `erase` removes a
/// store, and its result is passed on. `erase` is needed only for that store,
/// so the other backend's store is left alone.
pub fn clear_kimi_api_key<F: Fn(&SecretStore) -> Result<(), String>>(
    backend: &KimiCredentialBackend,
    config_dir: &str,
    erase: F,
) -> (cleared: Result<(), String>)
    requires
        forall|s: &SecretStore|
            s@ == kimi_key_store_of(*backend, config_dir@) ==> #[trigger] call_requires(erase, (s,)),
    ensures
        erase_gave(erase, kimi_key_store_of(*backend, config_dir@), cleared),
{
    let store = kimi_key_store(backend, config_dir);
    let cleared = erase(&store);
    proof {
        assert(erase_gave(erase, kimi_key_store_of(*backend, config_dir@), cleared));
    }
    cleared
}

/// Loads the Kimi API key from where the preferred backend keeps it and, when
/// it holds none, from where the other one does; `read` reads a store. An
/// error of the preferred store is passed on without trying the other.
pub fn load_kimi_api_key<F: Fn(&SecretStore) -> Result<Option<String>, String>>(
    preferred: &KimiCredentialBackend,
    config_dir: &str,
    read: F,
) -> (key: Result<Option<String>, String>)
    requires
        forall|s: &SecretStore|
            s@ == kimi_key_store_of(*preferred, config_dir@) || s@ == kimi_key_store_of(
                other_backend(*preferred),
                config_dir@,
            ) ==> #[trigger] call_requires(read, (s,)),
    ensures
        exists|first: Result<Option<String>, String>|
            #[trigger] read_gave(read, kimi_key_store_of(*preferred, config_dir@), first) && match first {
                Err(e) => key == Err::<Option<String>, String>(e),
                Ok(Some(v)) => key == Ok::<Option<String>, String>(Some(v)),
                Ok(None) => read_gave(
                    read,
                    kimi_key_store_of(other_backend(*preferred), config_dir@),
                    key,
                ),
            },
{
    let store = kimi_key_store(preferred, config_dir);
    let first = read(&store);
    proof {
        assert(read_gave(read, kimi_key_store_of(*preferred, config_dir@), first));
    }
    match first {
        Err(e) => Err(e),
        Ok(Some(v)) => Ok(Some(v)),
        Ok(None) => {
            let fallback = fallback_backend(preferred);
            let other = kimi_key_store(&fallback, config_dir);
            let second = read(&other);
            proof {
                assert(read_gave(read, kimi_key_store_of(other_backend(*preferred), config_dir@), second));
            }
            second
        },
    }
}

/// Whether the key of a new Kimi account gets written: it is not blank, and
/// the backend is the keychain or the account id can name a vault file.
pub open spec fn kimi_account_writable(
    account_id: Seq<char>,
    api_key: Seq<char>,
    backend: KimiCredentialBackend,
) -> bool {
    trimmed(api_key).len() > 0 && (backend == KimiCredentialBackend::Keychain || storage_safe(
        account_id,
    ))
}

/// Stores the API key of a new Kimi account: the trimmed key is kept in the
/// account's keychain item or vault file (see `kimi_account_ref` and
/// `account_store_of`) by `write`, and the reference to it is returned. Fails,
/// before writing, on an empty key or on a vault backend with an id that
/// cannot name a file; an error of `write` is passed on. `write` is needed
/// only for the account's store and trimmed key, and only when the key is
/// written, so nothing is written on the failures above.
pub fn store_kimi_account_api_key<F: Fn(&SecretStore, &str) -> Result<(), String>>(
    account_id: &str,
    api_key: &str,
    backend: KimiCredentialBackend,
    config_dir: &str,
    write: F,
) -> (stored: Result<CredentialRef, String>)
    requires
        forall|s: &SecretStore, k: &str|
            kimi_account_writable(account_id@, api_key@, backend) && s@ == kept_store(
                account_store_of(kimi_account_ref(account_id@, backend), config_dir@),
            ) && k@ == trimmed(api_key@) ==> #[trigger] call_requires(write, (s, k)),
    ensures
        trimmed(api_key@).len() == 0 ==> (stored matches Err(e) && e@ == empty_key_message()),
        trimmed(api_key@).len() > 0 && backend == KimiCredentialBackend::EncryptedVault
            && !storage_safe(account_id@) ==> (stored matches Err(e) && e@ == unsafe_id_message()),
        trimmed(api_key@).len() > 0 && (backend == KimiCredentialBackend::Keychain || storage_safe(
            account_id@,
        )) ==> {
            let reference = kimi_account_ref(account_id@, backend);
            exists|written: Result<(), String>|
                #[trigger] write_gave(
                    write,
                    kept_store(account_store_of(reference, config_dir@)),
                    trimmed(api_key@),
                    written,
                ) && match written {
                    Ok(()) => stored matches Ok(r) && r@ == reference,
                    Err(e) => stored == Err::<CredentialRef, String>(e),
                }
        },
{
    let (key, reference) = match kimi_account_credential(account_id, api_key, backend) {
        Ok(plan) => plan,
        Err(e) => return Err(e),
    };
    let store = match account_secret_store(&reference, config_dir) {
        Ok(Some(store)) => store,
        Ok(None) => return Err(String::from_str("凭据引用不是托管的 Keychain 条目")),
        Err(e) => return Err(e),
    };
    let written = write(&store, key.as_str());
    proof {
        assert(write_gave(write, store@, key@, written));
    }
    match written {
        Ok(()) => Ok(reference),
        Err(e) => Err(e),
    }
}


/// Generated account ids can always name a vault file.
pub proof fn generated_ids_are_storage_safe(n: u128)
    ensures
        storage_safe(crate::accounts::account_id_text(n)),
{
    crate::accounts::account_ids_are_storage_safe(n);
}

/// The message of an empty Kimi API key.
pub open spec fn empty_key_message() -> Seq<char> {
    "Kimi API Key 不能为空"@
}

/// Where a new Kimi account's trimmed API key is kept: the account's keychain
/// item, or its vault file.
pub open spec fn kimi_account_ref(account_id: Seq<char>, backend: KimiCredentialBackend) -> CredentialRefView {
    match backend {
        KimiCredentialBackend::Keychain => CredentialRefView::KimiKeychain {
            account: keychain_name("kimi"@, account_id),
        },
        KimiCredentialBackend::EncryptedVault => CredentialRefView::KimiVault { account: account_id },
    }
}

/// The trimmed API key of a new Kimi account and the reference to keep it
/// under. Fails for an empty key, and for a vault backend with an account id
/// that cannot name a file.
pub fn kimi_account_credential(account_id: &str, api_key: &str, backend: KimiCredentialBackend) -> (plan: Result<
    (String, CredentialRef),
    String,
>)
    ensures
        match plan {
            Ok((key, reference)) => {
                &&& trimmed(api_key@).len() > 0
                &&& key@ == trimmed(api_key@)
                &&& reference@ == kimi_account_ref(account_id@, backend)
                &&& backend == KimiCredentialBackend::EncryptedVault ==> storage_safe(account_id@)
            },
            Err(e) => if trimmed(api_key@).len() == 0 {
                e@ == empty_key_message()
            } else {
                backend == KimiCredentialBackend::EncryptedVault && !storage_safe(account_id@)
                    && e@ == unsafe_id_message()
            },
        },
{
    let key = trim(api_key);
    if key.as_str().is_empty() {
        return Err(String::from_str("Kimi API Key 不能为空"));
    }
    match backend {
        KimiCredentialBackend::Keychain => {
            let account = account_keychain_name("kimi", account_id);
            Ok((key, CredentialRef::KimiKeychain { account }))
        },
        KimiCredentialBackend::EncryptedVault => {
            match vault_file_name(account_id) {
                Ok(_) => Ok((key, CredentialRef::KimiVault { account: account_id.to_string() })),
                Err(e) => Err(e),
            }
        },
    }
}

/// The other Kimi key backend.
pub open spec fn other_backend(backend: KimiCredentialBackend) -> KimiCredentialBackend {
    match backend {
        KimiCredentialBackend::Keychain => KimiCredentialBackend::EncryptedVault,
        KimiCredentialBackend::EncryptedVault => KimiCredentialBackend::Keychain,
    }
}

/// The other Kimi key backend.
pub fn fallback_backend(backend: &KimiCredentialBackend) -> (other: KimiCredentialBackend)
    ensures
        other == other_backend(*backend),
{
    match backend {
        KimiCredentialBackend::Keychain => KimiCredentialBackend::EncryptedVault,
        KimiCredentialBackend::EncryptedVault => KimiCredentialBackend::Keychain,
    }
}

/// A Codex login imported for quota queries.
#[derive(Debug, Clone, PartialEq, Eq)]
pub struct CodexAccountCredentials {
    pub access_token: String,
    pub account_id: Option<String>,
    pub is_stale: bool,
}

/// The OAuth tokens of a Codex login document.
#[derive(Debug, Clone, PartialEq, Eq)]
pub struct CodexAuthTokens {
    pub access_token: Option<String>,
    pub account_id: Option<String>,
}

/// The fields of a Codex login document (`auth.json`) that an import reads.
#[derive(Debug, Clone, PartialEq, Eq)]
pub struct CodexAuthDocument {
    pub auth_mode: Option<String>,
    pub tokens: Option<CodexAuthTokens>,
    pub last_refresh: Option<String>,
}

/// The message of a login that is not a ChatGPT OAuth login.
pub open spec fn not_chatgpt_message() -> Seq<char> {
    "当前 Codex 登录不是 ChatGPT OAuth 账号"@
}

/// The message of a login without tokens.
pub open spec fn missing_tokens_message() -> Seq<char> {
    "Codex 登录缺少 OAuth token"@
}

/// The message of a login without an access token.
pub open spec fn missing_access_token_message() -> Seq<char> {
    "Codex 登录缺少 access token"@
}

/// Whether a login last refreshed at `last_refresh` is stale at `now` (seconds
/// since the Unix epoch, none when the clock is before it): more than
/// `CODEX_STALE_AFTER_SECS` passed since the refresh, a refresh before the
/// epoch counting as the epoch.
pub open spec fn is_stale_at(last_refresh: Option<Seq<char>>, now: Option<u64>) -> bool {
    match (last_refresh, now) {
        (Some(text), Some(now)) => match crate::estimator::rfc3339_seconds(text) {
            Some(refreshed) => {
                let at = if refreshed > 0 {
                    refreshed as int
                } else {
                    0
                };
                now - at > CODEX_STALE_AFTER_SECS
            },
            None => false,
        },
        _ => false,
    }
}

/// Checks an imported Codex login at time `now`: it must be a ChatGPT login
/// with tokens and a non-blank access token.
pub fn parse_codex_auth(auth: &CodexAuthDocument, now: Option<u64>) -> (credentials: Result<
    CodexAccountCredentials,
    String,
>)
    ensures
        match credentials {
            Ok(c) => {
                &&& crate::types::opt_str(auth.auth_mode) == Some("chatgpt"@)
                &&& auth.tokens matches Some(tokens) && crate::types::opt_str(tokens.access_token)
                    == Some(c.access_token@) && trimmed(c.access_token@).len() > 0
                    && crate::types::opt_str(c.account_id) == crate::types::opt_str(tokens.account_id)
                &&& c.is_stale == is_stale_at(crate::types::opt_str(auth.last_refresh), now)
            },
            Err(e) => if crate::types::opt_str(auth.auth_mode) != Some("chatgpt"@) {
                e@ == not_chatgpt_message()
            } else if auth.tokens is None {
                e@ == missing_tokens_message()
            } else {
                e@ == missing_access_token_message() && match auth.tokens.unwrap().access_token {
                    Some(token) => trimmed(token@).len() == 0,
                    None => true,
                }
            },
        },
{
    let is_chatgpt = match &auth.auth_mode {
        Some(mode) => same_text(mode.as_str(), "chatgpt"),
        None => false,
    };
    if !is_chatgpt {
        return Err(String::from_str("当前 Codex 登录不是 ChatGPT OAuth 账号"));
    }
    let tokens = match &auth.tokens {
        Some(tokens) => tokens,
        None => return Err(String::from_str("Codex 登录缺少 OAuth token")),
    };
    let access_token = match &tokens.access_token {
        Some(token) => {
            if trim(token.as_str()).as_str().is_empty() {
                return Err(String::from_str("Codex 登录缺少 access token"));
            }
            token.clone()
        },
        None => return Err(String::from_str("Codex 登录缺少 access token")),
    };
    let is_stale = match (&auth.last_refresh, now) {
        (Some(text), Some(now)) => match crate::estimator::parse_rfc3339_seconds(text.as_str()) {
            Some(refreshed) => {
                let at: u64 = if refreshed > 0 {
                    refreshed as u64
                } else {
                    0
                };
                let age: u64 = if now >= at {
                    now - at
                } else {
                    0
                };
                age > CODEX_STALE_AFTER_SECS
            },
            None => false,
        },
        _ => false,
    };
    Ok(CodexAccountCredentials {
        access_token,
        account_id: crate::types::copy_opt_string(&tokens.account_id),
        is_stale,
    })
}

} // verus!
