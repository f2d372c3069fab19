//! WiFi credential model and validation against the 802.11 / WPA2-Personal
//! length limits.

use vstd::prelude::*;
use vstd::string::*;
use vstd::utf8::encode_utf8;
use vstd::std_specs::convert::IntoSpec;

verus! {

/// A WiFi station SSID fits in 32 bytes (802.11).
pub const SSID_MAX_LEN: usize = 32;

/// Shortest WPA2-Personal passphrase, in characters. An empty passphrase
/// denotes an open (unsecured) network.
pub const PSK_MIN_LEN: usize = 8;

/// Longest WPA2-Personal passphrase, in characters.
pub const PSK_MAX_LEN: usize = 63;

/// The credentials for a single WiFi network.
#[derive(Clone, Debug, PartialEq, Eq)]
pub struct WifiCredentials {
    pub ssid: String,
    /// The WPA2-Personal passphrase, or empty for an open network.
    pub psk: String,
}

/// Why a [`WifiCredentials`] failed [`WifiCredentials::validate`].
#[derive(Clone, Copy, Debug, PartialEq, Eq, Structural)]
pub enum CredentialError {
    /// The SSID was empty; an SSID is always required.
    SsidEmpty,
    /// The SSID exceeded [`SSID_MAX_LEN`] bytes.
    SsidTooLong,
    /// A non-empty passphrase was shorter than [`PSK_MIN_LEN`] characters.
    PskTooShort,
    /// The passphrase exceeded [`PSK_MAX_LEN`] characters.
    PskTooLong,
}

/// The number of bytes of the UTF-8 encoding of `s`.
pub open spec fn utf8_len(s: Seq<char>) -> nat {
    encode_utf8(s).len()
}

/// The outcome of validating an SSID and a passphrase. The SSID is counted in
/// bytes (the on-wire limit), the passphrase in characters; an empty
/// passphrase is accepted and denotes an open network. The first failing rule
/// is reported.
pub open spec fn credential_check(ssid: Seq<char>, psk: Seq<char>) -> Result<(), CredentialError> {
    if ssid.len() == 0 {
        Err(CredentialError::SsidEmpty)
    } else if utf8_len(ssid) > SSID_MAX_LEN {
        Err(CredentialError::SsidTooLong)
    } else if psk.len() != 0 && psk.len() < PSK_MIN_LEN {
        Err(CredentialError::PskTooShort)
    } else if psk.len() > PSK_MAX_LEN {
        Err(CredentialError::PskTooLong)
    } else {
        Ok(())
    }
}

impl WifiCredentials {
    /// Builds credentials from any string-like SSID/PSK. Does not validate;
    /// call [`Self::validate`] before persisting or connecting.
    pub fn new<S: Into<String>, P: Into<String>>(ssid: S, psk: P) -> (c: Self)
        ensures
            S::obeys_into_spec() ==> c.ssid == ssid.into_spec(),
            P::obeys_into_spec() ==> c.psk == psk.into_spec(),
    {
        WifiCredentials { ssid: ssid.into(), psk: psk.into() }
    }

    /// Builds credentials from an owned SSID and passphrase. Does not
    /// validate; call [`Self::validate`] before persisting or connecting.
    pub fn from_parts(ssid: String, psk: String) -> (c: Self)
        ensures
            c.ssid@ == ssid@,
            c.psk@ == psk@,
    {
        WifiCredentials { ssid, psk }
    }

    /// `true` for an open (passphrase-less) network.
    pub fn is_open(&self) -> (r: bool)
        ensures
            r == (self.psk@.len() == 0),
    {
        self.psk.as_str().is_empty()
    }

    /// Checks the SSID/PSK against the 802.11 / WPA2-Personal length limits.
    ///
    /// SSID length is counted in bytes (the on-wire limit); passphrase length
    /// in characters. An empty passphrase is accepted and denotes an open
    /// network.
    pub fn validate(&self) -> (r: Result<(), CredentialError>)
        ensures
            r == credential_check(self.ssid@, self.psk@),
    {
        let ssid = self.ssid.as_str();
        if ssid.is_empty() {
            return Err(CredentialError::SsidEmpty);
        }
        if ssid.as_bytes().len() > SSID_MAX_LEN {
            return Err(CredentialError::SsidTooLong);
        }
        let psk = self.psk.as_str();
        if !psk.is_empty() {
            let psk_chars = psk.unicode_len();
            if psk_chars < PSK_MIN_LEN {
                return Err(CredentialError::PskTooShort);
            }
            if psk_chars > PSK_MAX_LEN {
                return Err(CredentialError::PskTooLong);
            }
        }
        Ok(())
    }

    /// Convenience predicate over [`Self::validate`].
    pub fn is_valid(&self) -> (r: bool)
        ensures
            r == (credential_check(self.ssid@, self.psk@) is Ok),
    {
        self.validate().is_ok()
    }

    /// The credentials to use given what was read back from storage: stored
    /// credentials that fail validation (a stale or corrupt record) count as
    /// absent, so boot falls into setup instead of connecting with garbage.
    pub fn from_stored(stored: Option<WifiCredentials>) -> (r: Option<WifiCredentials>)
        ensures
            match stored {
                Some(c) => if credential_check(c.ssid@, c.psk@) is Ok { r == Some(c) } else { r is None },
                None => r is None,
            },
    {
        match stored {
            Some(c) => {
                if c.is_valid() {
                    Some(c)
                } else {
                    None
                }
            },
            None => None,
        }
    }
}

/// Accepted credentials always name a network of 1 to 32 bytes, and carry
/// either no passphrase (an open network) or one of 8 to 63 characters.
pub proof fn lemma_valid_credentials_bounds(ssid: Seq<char>, psk: Seq<char>)
    requires
        credential_check(ssid, psk) is Ok,
    ensures
        ssid.len() > 0,
        utf8_len(ssid) <= SSID_MAX_LEN,
        psk.len() == 0 || (PSK_MIN_LEN <= psk.len() <= PSK_MAX_LEN),
{
}

} // verus!
