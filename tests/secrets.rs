use ykchalresp::secret::{key_file_path, resolve_secret, secret_var_name, ResolutionError};

#[test]
fn environment_value_wins_over_file() {
    let r = resolve_secret(1, Some("0a0b"), Some("/home/u"), Some("ffff"));
    assert_eq!(r, Ok(vec![0x0a, 0x0b]));
}

#[test]
fn invalid_environment_value_names_variable() {
    let r = resolve_secret(2, Some("xyz"), Some("/home/u"), Some("ffff"));
    assert_eq!(
        r,
        Err(ResolutionError::InvalidEncoding { source: "YKCHALRESP_SLOT2_KEY".to_string() })
    );
}

#[test]
fn invalid_slot_is_rejected_first() {
    assert_eq!(resolve_secret(3, Some("00"), Some("/h"), Some("00")), Err(ResolutionError::InvalidSlot));
    assert_eq!(resolve_secret(0, None, None, None), Err(ResolutionError::InvalidSlot));
}

#[test]
fn file_content_is_trimmed_and_decoded() {
    let r = resolve_secret(2, None, Some("/home/u"), Some("  abcd\n"));
    assert_eq!(r, Ok(vec![0xab, 0xcd]));
}

#[test]
fn missing_file_names_both_sources() {
    let r = resolve_secret(1, None, Some("/home/u"), None);
    assert_eq!(
        r,
        Err(ResolutionError::SecretNotFound {
            variable: "YKCHALRESP_SLOT1_KEY".to_string(),
            path: "/home/u/.config/ykchalresp/slot1.key".to_string(),
        })
    );
}

#[test]
fn invalid_file_content_names_path() {
    let r = resolve_secret(2, None, Some("/root"), Some("abc"));
    assert_eq!(
        r,
        Err(ResolutionError::InvalidEncoding { source: "/root/.config/ykchalresp/slot2.key".to_string() })
    );
}

#[test]
fn missing_home_is_reported() {
    assert_eq!(resolve_secret(1, None, None, Some("00")), Err(ResolutionError::HomeUnresolved));
}

#[test]
fn slot_sources_are_named() {
    assert_eq!(secret_var_name(1), Some("YKCHALRESP_SLOT1_KEY".to_string()));
    assert_eq!(secret_var_name(2), Some("YKCHALRESP_SLOT2_KEY".to_string()));
    assert_eq!(secret_var_name(7), None);
    assert_eq!(key_file_path("/h", 2), Some("/h/.config/ykchalresp/slot2.key".to_string()));
    assert_eq!(key_file_path("/h", 9), None);
}
