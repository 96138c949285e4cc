//! The connection manager: it drives the radio link to an "up" state and
//! keeps it queryable by the other components.
//!
//! The radio itself (start, scan, associate, address lease) belongs to the
//! platform's network stack; this module holds every decision around those
//! calls: credential validation, the inferred authentication method, the
//! channel resolved from a scan, and the link state machine. An empty or
//! oversized credential is a hard configuration error rejected before any
//! radio operation is attempted.

use vstd::prelude::*;

verus! {

/// Longest network name the platform configuration accepts, in bytes.
pub const MAX_SSID_BYTES: usize = 32;

/// Longest pre-shared key the platform configuration accepts, in bytes.
pub const MAX_PSK_BYTES: usize = 64;

/// How the association authenticates: an open network when no key is
/// configured, the standard personal authentication mode otherwise.
#[derive(Clone, Copy, PartialEq, Eq, Structural, Debug)]
pub enum AuthMethod {
    Open,
    Wpa2Personal,
}

/// A hard configuration error: reported at once, never retried.
#[derive(Clone, Copy, PartialEq, Eq, Structural, Debug)]
pub enum ConfigError {
    EmptySsid,
    SsidTooLong,
    PskTooLong,
}

/// The radio link's state.
#[derive(Clone, Copy, PartialEq, Eq, Structural, Debug)]
pub enum LinkState {
    Disconnected,
    Associating,
    Connected,
}

/// One access point seen in a scan: its network name and its channel.
pub struct ApInfo {
    pub ssid: Vec<u8>,
    pub channel: u8,
}

/// The resolved radio configuration for one association attempt.
pub struct ClientConfig {
    pub ssid: Vec<u8>,
    pub psk: Vec<u8>,
    pub channel: Option<u8>,
    pub auth_method: AuthMethod,
}

/// The configuration error the given credentials deserve, if any: an empty
/// network name is rejected first, then a name or key over the platform
/// length limit.
pub open spec fn spec_credential_error(ssid: Seq<u8>, psk: Seq<u8>) -> Option<ConfigError> {
    if ssid.len() == 0 {
        Some(ConfigError::EmptySsid)
    } else if ssid.len() > MAX_SSID_BYTES {
        Some(ConfigError::SsidTooLong)
    } else if psk.len() > MAX_PSK_BYTES {
        Some(ConfigError::PskTooLong)
    } else {
        None
    }
}

/// The authentication method inferred from the key: open without a key,
/// personal authentication with one.
pub open spec fn spec_auth_method(psk: Seq<u8>) -> AuthMethod {
    if psk.len() == 0 {
        AuthMethod::Open
    } else {
        AuthMethod::Wpa2Personal
    }
}

/// The channel of the first scanned access point carrying the given name,
/// if any is visible.
pub open spec fn spec_find_channel(scan: Seq<ApInfo>, ssid: Seq<u8>) -> Option<u8>
    decreases scan.len(),
{
    if scan.len() == 0 {
        None
    } else if scan[0].ssid@ == ssid {
        Some(scan[0].channel)
    } else {
        spec_find_channel(scan.skip(1), ssid)
    }
}

/// Byte-for-byte equality of two byte strings.
fn bytes_eq(a: &Vec<u8>, b: &Vec<u8>) -> (r: bool)
    ensures
        r == (a@ == b@),
{
    if a.len() != b.len() {
        return false;
    }
    let mut i: usize = 0;
    while i < a.len()
        invariant
            i <= a@.len(),
            a@.len() == b@.len(),
            forall|k: int| 0 <= k < i ==> a@[k] == b@[k],
        decreases a@.len() - i,
    {
        if a[i] != b[i] {
            return false;
        }
        i = i + 1;
    }
    proof {
        assert(a@ =~= b@);
    }
    true
}

/// Byte-for-byte copy of a byte string.
fn copy_bytes(src: &Vec<u8>) -> (r: Vec<u8>)
    ensures
        r@ == src@,
{
    let mut r: Vec<u8> = Vec::new();
    let mut i: usize = 0;
    while i < src.len()
        invariant
            i <= src@.len(),
            r@ == src@.take(i as int),
        decreases src@.len() - i,
    {
        r.push(src[i]);
        proof {
            assert(src@.take(i as int).push(src@[i as int]) =~= src@.take(i + 1));
        }
        i = i + 1;
    }
    proof {
        assert(src@.take(src@.len() as int) =~= src@);
    }
    r
}

/// Check the credentials, failing fast on a configuration error, and
/// otherwise infer the authentication method.
pub fn validate_credentials(ssid: &Vec<u8>, psk: &Vec<u8>) -> (r: Result<AuthMethod, ConfigError>)
    ensures
        r is Err <==> spec_credential_error(ssid@, psk@) is Some,
        r matches Err(e) ==> Some(e) == spec_credential_error(ssid@, psk@),
        r matches Ok(a) ==> a == spec_auth_method(psk@),
{
    if ssid.len() == 0 {
        Err(ConfigError::EmptySsid)
    } else if ssid.len() > MAX_SSID_BYTES {
        Err(ConfigError::SsidTooLong)
    } else if psk.len() > MAX_PSK_BYTES {
        Err(ConfigError::PskTooLong)
    } else if psk.len() == 0 {
        Ok(AuthMethod::Open)
    } else {
        Ok(AuthMethod::Wpa2Personal)
    }
}

/// Look the configured network name up in the scan results and capture its
/// channel; an absent name is no failure, normal discovery is used instead.
pub fn find_channel(scan: &Vec<ApInfo>, ssid: &Vec<u8>) -> (r: Option<u8>)
    ensures
        r == spec_find_channel(scan@, ssid@),
{
    proof {
        assert(scan@.skip(0) =~= scan@);
    }
    let mut i: usize = 0;
    while i < scan.len()
        invariant
            i <= scan@.len(),
            spec_find_channel(scan@, ssid@) == spec_find_channel(scan@.skip(i as int), ssid@),
        decreases scan@.len() - i,
    {
        let ap = &scan[i];
        proof {
            assert(scan@.skip(i as int)[0] == scan@[i as int]);
        }
        if bytes_eq(&ap.ssid, ssid) {
            return Some(ap.channel);
        }
        proof {
            assert(scan@.skip(i as int).skip(1) =~= scan@.skip(i + 1));
        }
        i = i + 1;
    }
    None
}

/// The owner of the radio link state. The surrounding application performs
/// the blocking radio operations and reports their outcomes here; the
/// manager decides what each outcome means for the link.
pub struct ConnectionManager {
    pub state: LinkState,
}

impl ConnectionManager {
    /// A fresh manager: the link starts down.
    pub fn new() -> (m: ConnectionManager)
        ensures
            m.state == LinkState::Disconnected,
    {
        ConnectionManager { state: LinkState::Disconnected }
    }

    /// Begin a connect request. A configuration error fails immediately and
    /// changes nothing — in particular, no scan or association may be
    /// attempted. Valid credentials enter the associating state and fix the
    /// authentication method.
    pub fn begin_connect(&mut self, ssid: &Vec<u8>, psk: &Vec<u8>) -> (r: Result<
        AuthMethod,
        ConfigError,
    >)
        ensures
            r is Err <==> spec_credential_error(ssid@, psk@) is Some,
            r matches Err(e) ==> Some(e) == spec_credential_error(ssid@, psk@),
            r matches Err(e) ==> *final(self) == *old(self),
            r matches Ok(a) ==> a == spec_auth_method(psk@),
            r is Ok ==> final(self).state == LinkState::Associating,
    {
        match validate_credentials(ssid, psk) {
            Ok(auth) => {
                self.state = LinkState::Associating;
                Ok(auth)
            },
            Err(e) => Err(e),
        }
    }

    /// Resolve the full configuration for the association, from the scan
    /// performed while associating: the credentials as given, the channel
    /// captured from the scan, the authentication method inferred from the
    /// key.
    pub fn resolve_config(&self, ssid: &Vec<u8>, psk: &Vec<u8>, scan: &Vec<ApInfo>) -> (c:
        ClientConfig)
        requires
            self.state == LinkState::Associating,
            spec_credential_error(ssid@, psk@) is None,
        ensures
            c.ssid@ == ssid@,
            c.psk@ == psk@,
            c.channel == spec_find_channel(scan@, ssid@),
            c.auth_method == spec_auth_method(psk@),
    {
        let channel = find_channel(scan, ssid);
        let auth_method = if psk.len() == 0 {
            AuthMethod::Open
        } else {
            AuthMethod::Wpa2Personal
        };
        ClientConfig { ssid: copy_bytes(ssid), psk: copy_bytes(psk), channel, auth_method }
    }

    /// The network interface reported an address lease: the link is up.
    pub fn association_succeeded(&mut self)
        requires
            old(self).state == LinkState::Associating,
        ensures
            final(self).state == LinkState::Connected,
    {
        self.state = LinkState::Connected;
    }

    /// A radio or association failure was reported: the link is down, and
    /// whether to retry is the caller's decision.
    pub fn association_failed(&mut self)
        ensures
            final(self).state == LinkState::Disconnected,
    {
        self.state = LinkState::Disconnected;
    }

    /// Non-blocking link query, fit for the status indicator's poll.
    pub fn is_up(&self) -> (r: bool)
        ensures
            r == (self.state == LinkState::Connected),
    {
        matches!(self.state, LinkState::Connected)
    }
}

} // verus!
