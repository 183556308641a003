use vstd::prelude::*;
use crate::secrets::{parse_version, version_of_key, SecretError, SecretTable, DEFAULT_VERSION};
use crate::token::TokenCache;
use crate::token::{after_exchange, next_step, ExchangeReply, ExchangeStep, Reason, DEFAULT_LIFETIME};
use crate::totp::{
    base32_bytes, counter_message, decimal_concat, derive_secret, derived_secret, generate_totp,
    hmac_sha1_tag, is_base32_char, otp_of_tag, unmasked,
};

verus! {

/// The Unix timestamp, in seconds, of an RFC 2822 date, if it parses.
pub uninterp spec fn rfc2822_seconds(date: Seq<char>) -> Option<int>;

/// Relies on chrono::DateTime::parse_from_rfc2822 and `DateTime::timestamp`:
/// `None` when the text is not an RFC 2822 date.
#[verifier::external_body]
fn parse_rfc2822(date: &str) -> (r: Option<i64>)
    ensures
        match r {
            Some(t) => rfc2822_seconds(date@) == Some(t as int),
            None => rfc2822_seconds(date@).is_none(),
        },
{
    match chrono::DateTime::parse_from_rfc2822(date) {
        Ok(dt) => Some(dt.timestamp()),
        Err(_) => None,
    }
}

/// Why no exchange request could be prepared.
#[derive(Debug, Clone, Copy, PartialEq, Eq, Structural)]
pub enum AccessError {
    /// No secret for the version.
    Secret(SecretError),
    /// The server's `Date` header is missing or is no RFC 2822 date after the epoch.
    ServerTimeUnavailable,
}

/// The parameters of a token exchange that vary: the secret version used
/// and the one-time password computed with it.
pub struct TokenRequest {
    pub version: i32,
    pub otp: String,
}

/// The one-time password at `timestamp` for obfuscated secret bytes: the
/// HMAC key is the decimal digit text that the derived base-32 secret encodes.
pub open spec fn totp_at(cipher: Seq<u8>, timestamp: int) -> Seq<char> {
    otp_of_tag(hmac_sha1_tag(decimal_concat(unmasked(cipher)), counter_message(timestamp)))
}

/// The obfuscated secrets the table starts from.
pub open spec fn fallback_secrets() -> Map<i32, Seq<u8>> {
    map![
        14i32 => seq![62u8, 54, 109, 83, 107, 77, 41, 103, 45, 93, 114, 38, 41, 97, 64, 51, 95, 94, 95, 94],
        13i32 => seq![59u8, 92, 64, 70, 99, 78, 117, 75, 99, 103, 116, 67, 103, 51, 87, 63, 93, 59, 70, 45, 32],
        61i32 => seq![44u8, 55, 47, 42, 70, 40, 34, 114, 76, 74, 50, 111, 120, 97, 75, 76, 94, 102, 43, 69, 49, 120, 118, 80, 64, 78],
    ]
}

/// The table after merging a remote payload of (key, bytes) pairs: each key
/// that names a version inserts or overwrites it; other keys are ignored.
/// Pairs are applied from the last to the first.
pub open spec fn merged(m: Map<i32, Seq<u8>>, payload: Seq<(String, Vec<u8>)>) -> Map<
    i32,
    Seq<u8>,
>
    decreases payload.len(),
{
    if payload.len() == 0 {
        m
    } else {
        let last = payload.last();
        let m1 = match version_of_key(last.0@) {
            Some(v) => m.insert(v, last.1@),
            None => m,
        };
        merged(m1, payload.drop_last())
    }
}

/// The version chosen for a request: the requested one, or the default one.
pub open spec fn chosen_version(requested: Option<i32>) -> i32 {
    match requested {
        Some(v) => v,
        None => DEFAULT_VERSION,
    }
}

/// What `ensure_totp_version` answers for a table.
pub open spec fn version_choice(table: Map<i32, Seq<u8>>, requested: Option<i32>) -> Result<
    i32,
    SecretError,
> {
    if table == Map::<i32, Seq<u8>>::empty() {
        Err(SecretError::Empty)
    } else if table.contains_key(chosen_version(requested)) {
        Ok(chosen_version(requested))
    } else {
        Err(SecretError::MissingVersion(chosen_version(requested)))
    }
}

/// The internal-token broker's state: the secret table and the token cache.
pub struct SpotifyWebPlayer {
    pub secrets: SecretTable,
    pub cache: TokenCache,
}

impl SpotifyWebPlayer {
    pub open spec fn wf(&self) -> bool {
        self.secrets.wf()
    }

    /// A broker with no secrets and no cached token.
    pub fn new() -> (r: Self)
        ensures
            r.wf(),
            r.secrets@ == Map::<i32, Seq<u8>>::empty(),
            r.cache.token.is_none(),
    {
        SpotifyWebPlayer { secrets: SecretTable::new(), cache: TokenCache::new() }
    }

    /// Replaces the secret table with the built-in fallback versions.
    pub fn init_secrets(&mut self)
        ensures
            final(self).wf(),
            final(self).secrets@ == fallback_secrets(),
            final(self).cache == old(self).cache,
    {
        let mut t = SecretTable::new();
        let v14: Vec<u8> = vec![62, 54, 109, 83, 107, 77, 41, 103, 45, 93, 114, 38, 41, 97, 64, 51, 95, 94, 95, 94];
        let v13: Vec<u8> = vec![59, 92, 64, 70, 99, 78, 117, 75, 99, 103, 116, 67, 103, 51, 87, 63, 93, 59, 70, 45, 32];
        let v61: Vec<u8> = vec![44, 55, 47, 42, 70, 40, 34, 114, 76, 74, 50, 111, 120, 97, 75, 76, 94, 102, 43, 69, 49, 120, 118, 80, 64, 78];
        t.insert(14, v14);
        t.insert(13, v13);
        t.insert(61, v61);
        assert(t@ =~= fallback_secrets());
        self.secrets = t;
    }

    /// Merges a remote secret payload into the table, see `merged`.
    pub fn update_secrets(&mut self, payload: Vec<(String, Vec<u8>)>)
        requires
            old(self).wf(),
        ensures
            final(self).wf(),
            final(self).secrets@ == merged(old(self).secrets@, payload@),
            final(self).cache == old(self).cache,
    {
        let mut rest = payload;
        while rest.len() > 0
            invariant
                self.wf(),
                merged(self.secrets@, rest@) == merged(old(self).secrets@, payload@),
                self.cache == old(self).cache,
            decreases rest@.len(),
        {
            let ghost before = rest@;
            let (key, bytes) = rest.pop().unwrap();
            match parse_version(key.as_str()) {
                Some(v) => self.secrets.insert(v, bytes),
                None => {},
            }
            assert(rest@ =~= before.drop_last());
        }
    }

    /// The version to use: the requested one if held, or the default one.
    pub fn ensure_totp_version(&self, requested: Option<i32>) -> (r: Result<i32, SecretError>)
        requires
            self.wf(),
        ensures
            r == version_choice(self.secrets@, requested),
    {
        if self.secrets.is_empty() {
            return Err(SecretError::Empty);
        }
        let v = match requested {
            Some(v) => v,
            None => DEFAULT_VERSION,
        };
        if self.secrets.contains(v) {
            Ok(v)
        } else {
            Err(SecretError::MissingVersion(v))
        }
    }

    /// The TOTP secret derived from the bytes of `version`.
    pub fn derive_totp_secret(&self, version: i32) -> (r: Result<String, SecretError>)
        requires
            self.wf(),
        ensures
            match r {
                Ok(s) => self.secrets@.contains_key(version) && s@ == derived_secret(
                    self.secrets@[version],
                ) && base32_bytes(s@) == Some(decimal_concat(unmasked(self.secrets@[version])))
                    && forall|i: int| 0 <= i < s@.len() ==> is_base32_char(#[trigger] s@[i]),
                Err(e) => !self.secrets@.contains_key(version) && e == SecretError::MissingVersion(
                    version,
                ),
            },
    {
        match self.secrets.get(version) {
            Some(bytes) => Ok(derive_secret(bytes.as_slice())),
            None => Err(SecretError::MissingVersion(version)),
        }
    }

    /// Prepares a token exchange at the server's time: the default version,
    /// its derived secret, and the one-time password at `server_time`.
    pub fn get_access_token(&self, server_time: u64) -> (r: Result<TokenRequest, AccessError>)
        requires
            self.wf(),
        ensures
            match version_choice(self.secrets@, None) {
                Err(e) => r == Err::<TokenRequest, AccessError>(AccessError::Secret(e)),
                Ok(v) => r matches Ok(req) && req.version == v && req.otp@ == totp_at(
                    self.secrets@[v],
                    server_time as int,
                ),
            },
    {
        let version = match self.ensure_totp_version(None) {
            Ok(v) => v,
            Err(e) => return Err(AccessError::Secret(e)),
        };
        let secret = match self.derive_totp_secret(version) {
            Ok(s) => s,
            Err(e) => return Err(AccessError::Secret(e)),
        };
        let otp = generate_totp(secret.as_str(), server_time).unwrap();
        Ok(TokenRequest { version, otp })
    }

    /// Takes the answer to a token exchange sent with `reason`: an issued
    /// token is cached with its expiry; the step tells what comes next.
    pub fn on_exchange_reply(&mut self, reason: Reason, reply: ExchangeReply, now: i64) -> (r:
        ExchangeStep)
        requires
            old(self).wf(),
            now <= i64::MAX - DEFAULT_LIFETIME,
        ensures
            final(self).wf(),
            r == next_step(reason, reply, now as int),
            final(self).secrets == old(self).secrets,
            match r {
                ExchangeStep::Issued { token, expires_at } => final(self).cache.token == Some(token)
                    && final(self).cache.expires_at == Some(expires_at),
                _ => final(self).cache == old(self).cache,
            },
    {
        let step = after_exchange(reason, reply, now);
        match &step {
            ExchangeStep::Issued { token, expires_at } => {
                self.cache.store(token.clone(), *expires_at);
            },
            _ => {},
        }
        step
    }

    /// The server time from the `Date` header of its answer, if there was one.
    pub fn server_time_from_header(date: Option<&str>) -> (r: Result<u64, AccessError>)
        ensures
            match date {
                None => r == Err::<u64, AccessError>(AccessError::ServerTimeUnavailable),
                Some(d) => match rfc2822_seconds(d@) {
                    Some(t) => if t >= 0 {
                        r == Ok::<u64, AccessError>(t as u64)
                    } else {
                        r == Err::<u64, AccessError>(AccessError::ServerTimeUnavailable)
                    },
                    None => r == Err::<u64, AccessError>(AccessError::ServerTimeUnavailable),
                },
            },
    {
        let d = match date {
            Some(d) => d,
            None => return Err(AccessError::ServerTimeUnavailable),
        };
        match parse_rfc2822(d) {
            Some(t) => {
                if t >= 0 {
                    Ok(t as u64)
                } else {
                    Err(AccessError::ServerTimeUnavailable)
                }
            },
            None => Err(AccessError::ServerTimeUnavailable),
        }
    }
}

/// With the built-in fallback secrets, a request without a version uses the
/// default version, which the fallback holds.
pub proof fn lemma_fallback_has_default()
    ensures
        version_choice(fallback_secrets(), None) == Ok::<i32, SecretError>(DEFAULT_VERSION),
{
    assert(fallback_secrets().contains_key(61i32));
    assert(fallback_secrets() != Map::<i32, Seq<u8>>::empty()) by {
        assert(!Map::<i32, Seq<u8>>::empty().contains_key(61i32));
    }
}

/// A table that holds the default version answers a request without a
/// version with that version.
pub proof fn lemma_default_version_chosen(table: Map<i32, Seq<u8>>)
    requires
        table.contains_key(DEFAULT_VERSION),
    ensures
        version_choice(table, None) == Ok::<i32, SecretError>(DEFAULT_VERSION),
{
    assert(table != Map::<i32, Seq<u8>>::empty()) by {
        assert(!Map::<i32, Seq<u8>>::empty().contains_key(DEFAULT_VERSION));
    }
}

} // verus!
