use namaz_vakti_logic::wifi_credentials::{
    CredentialError, WifiCredentials, PSK_MAX_LEN, PSK_MIN_LEN, SSID_MAX_LEN,
};

#[test]
fn accepts_a_typical_wpa2_network() {
    let c = WifiCredentials::new("HomeNet", "correcthorse");
    assert_eq!(c.validate(), Ok(()));
    assert!(c.is_valid());
    assert!(!c.is_open());
}

#[test]
fn accepts_open_network_with_empty_psk() {
    let c = WifiCredentials::new("CafeGuest", "");
    assert_eq!(c.validate(), Ok(()));
    assert!(c.is_open());
}

#[test]
fn rejects_empty_ssid() {
    assert_eq!(
        WifiCredentials::new("", "password1").validate(),
        Err(CredentialError::SsidEmpty)
    );
}

#[test]
fn rejects_over_long_ssid() {
    let ssid = "x".repeat(SSID_MAX_LEN + 1);
    assert_eq!(
        WifiCredentials::new(ssid, "password1").validate(),
        Err(CredentialError::SsidTooLong)
    );
    // Exactly at the limit is fine.
    let ssid_max = "x".repeat(SSID_MAX_LEN);
    assert!(WifiCredentials::new(ssid_max, "password1").is_valid());
}

#[test]
fn enforces_wpa2_passphrase_bounds() {
    // One char below the minimum.
    let short = "x".repeat(PSK_MIN_LEN - 1);
    assert_eq!(
        WifiCredentials::new("Net", short).validate(),
        Err(CredentialError::PskTooShort)
    );
    // At the minimum and maximum are both fine.
    assert!(WifiCredentials::new("Net", "x".repeat(PSK_MIN_LEN)).is_valid());
    assert!(WifiCredentials::new("Net", "x".repeat(PSK_MAX_LEN)).is_valid());
    // One char above the maximum.
    let long = "x".repeat(PSK_MAX_LEN + 1);
    assert_eq!(
        WifiCredentials::new("Net", long).validate(),
        Err(CredentialError::PskTooLong)
    );
}

#[test]
fn ssid_limit_counts_bytes_and_psk_limit_counts_characters() {
    // 16 two-byte characters = 32 bytes: at the limit.
    assert!(WifiCredentials::new("ş".repeat(16), "").is_valid());
    // 17 of them = 34 bytes: over it.
    assert_eq!(
        WifiCredentials::new("ş".repeat(17), "").validate(),
        Err(CredentialError::SsidTooLong)
    );
    // 8 multi-byte characters are a long enough passphrase.
    assert!(WifiCredentials::new("Net", "ğğğğğğğğ").is_valid());
}

#[test]
fn empty_ssid_is_reported_before_passphrase_problems() {
    assert_eq!(
        WifiCredentials::new("", "x").validate(),
        Err(CredentialError::SsidEmpty)
    );
}

#[test]
fn stored_credentials_must_validate() {
    let good = WifiCredentials::new("home", "correct horse");
    assert_eq!(WifiCredentials::from_stored(Some(good.clone())), Some(good));
    assert_eq!(WifiCredentials::from_stored(Some(WifiCredentials::new("home", "short"))), None);
    assert_eq!(WifiCredentials::from_stored(None), None);
}

#[test]
fn from_parts_keeps_the_given_strings() {
    let c = WifiCredentials::from_parts("HomeNet".to_string(), "correcthorse".to_string());
    assert_eq!(c.ssid, "HomeNet");
    assert_eq!(c.psk, "correcthorse");
    assert_eq!(c, WifiCredentials::new("HomeNet", "correcthorse"));
    assert_eq!(c.validate(), Ok(()));
    assert!(!c.is_open());
    let open = WifiCredentials::from_parts("CafeGuest".to_string(), String::new());
    assert!(open.is_open());
    assert_eq!(open.validate(), Ok(()));
    assert_eq!(
        WifiCredentials::from_parts(String::new(), "password1".to_string()).validate(),
        Err(CredentialError::SsidEmpty)
    );
    assert_eq!(
        WifiCredentials::from_parts("x".repeat(33), "password1".to_string()).validate(),
        Err(CredentialError::SsidTooLong)
    );
    assert_eq!(
        WifiCredentials::from_parts("Net".to_string(), "x".repeat(7)).validate(),
        Err(CredentialError::PskTooShort)
    );
    assert_eq!(
        WifiCredentials::from_parts("Net".to_string(), "x".repeat(64)).validate(),
        Err(CredentialError::PskTooLong)
    );
}
