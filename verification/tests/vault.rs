use quota_control::vault::{
    decode_master_key, new_master_key, open_vault_file, seal_secret, seal_secret_with_nonce,
    VaultFile, VAULT_VERSION,
};

const KEY: [u8; 32] = [7u8; 32];

#[test]
fn a_sealed_secret_opens_with_the_same_key() {
    let file = seal_secret(&KEY, "sk-test-secret").expect("short secrets seal");
    assert_eq!(file.version, VAULT_VERSION);
    assert!(!file.ciphertext.contains("sk-test-secret"));
    let opened = open_vault_file(&file, || Ok(KEY));
    assert_eq!(opened, Some(Ok("sk-test-secret".to_string())));
}

#[test]
fn sealing_with_a_fixed_nonce_stores_the_nonce_in_base64() {
    let file = seal_secret_with_nonce(&KEY, &[0u8; 12], "密钥").unwrap();
    assert_eq!(file.nonce, "AAAAAAAAAAAAAAAA");
    assert_eq!(
        open_vault_file(&file, || Ok(KEY)),
        Some(Ok("密钥".to_string()))
    );
}

#[test]
fn another_key_does_not_open_the_vault() {
    let file = seal_secret(&KEY, "secret").unwrap();
    let opened = open_vault_file(&file, || Ok([8u8; 32]));
    match opened {
        Some(Err(message)) => assert!(message.starts_with("Failed to decrypt vault secret: ")),
        other => panic!("unexpected {other:?}"),
    }
}

#[test]
fn other_versions_are_refused_before_the_key_is_loaded() {
    let file = VaultFile {
        version: 2,
        nonce: String::new(),
        ciphertext: String::new(),
    };
    let opened = open_vault_file(&file, || -> Result<[u8; 32], String> {
        panic!("the key must not be loaded")
    });
    assert_eq!(
        opened,
        Some(Err("Unsupported vault version: 2".to_string()))
    );
}

#[test]
fn key_errors_and_malformed_fields_are_reported() {
    let good = seal_secret(&KEY, "secret").unwrap();
    assert_eq!(
        open_vault_file(&good, || Err("no keychain".to_string())),
        Some(Err("no keychain".to_string()))
    );
    let bad_nonce = VaultFile {
        nonce: "***".to_string(),
        ..good.clone()
    };
    match open_vault_file(&bad_nonce, || Ok(KEY)) {
        Some(Err(message)) => assert!(message.starts_with("Invalid vault nonce: ")),
        other => panic!("unexpected {other:?}"),
    }
    let bad_ciphertext = VaultFile {
        ciphertext: "%%".to_string(),
        ..good.clone()
    };
    match open_vault_file(&bad_ciphertext, || Ok(KEY)) {
        Some(Err(message)) => assert!(message.starts_with("Invalid vault ciphertext: ")),
        other => panic!("unexpected {other:?}"),
    }
    let short_nonce = VaultFile {
        nonce: "AAAA".to_string(),
        ..good
    };
    assert_eq!(open_vault_file(&short_nonce, || Ok(KEY)), None);
}

#[test]
fn master_keys_read_back_from_their_text() {
    let (key, encoded) = new_master_key().unwrap();
    assert_eq!(encoded.len(), 44);
    assert_eq!(decode_master_key(&encoded), Ok(key));
    assert_eq!(
        decode_master_key("AAAA"),
        Err("Vault master key must be 32 bytes".to_string())
    );
    match decode_master_key("not base64!") {
        Err(message) => assert!(message.starts_with("Invalid vault master key: ")),
        other => panic!("unexpected {other:?}"),
    }
}

#[test]
fn vault_file_does_not_contain_plaintext_shape() {
    let file = VaultFile {
        version: VAULT_VERSION,
        nonce: "nonce".to_string(),
        ciphertext: "ciphertext".to_string(),
    };
    let mut fields = serde_json::Map::new();
    fields.insert("version".to_string(), serde_json::Value::from(file.version));
    fields.insert("nonce".to_string(), serde_json::Value::from(file.nonce.clone()));
    fields.insert(
        "ciphertext".to_string(),
        serde_json::Value::from(file.ciphertext.clone()),
    );
    let json = serde_json::to_string(&serde_json::Value::Object(fields)).unwrap();

    assert!(!json.contains("sk-test-secret"));
}

#[test]
fn a_sealed_vault_file_does_not_hold_the_secret() {
    let file = seal_secret(&KEY, "sk-test-secret").unwrap();
    assert!(!file.nonce.contains("sk-test-secret"));
    assert!(!file.ciphertext.contains("sk-test-secret"));
    assert_eq!(file.nonce.len(), 16);
}
