use vstd::prelude::*;

verus! {

/// Seconds before its expiry at which a cached token is no longer handed out.
pub const SAFETY_MARGIN: i64 = 60;

/// Validity assumed for a token whose reply gives no expiry, in seconds.
pub const DEFAULT_LIFETIME: i64 = 1800;

/// The single cached internal token.
pub struct TokenCache {
    pub token: Option<String>,
    pub expires_at: Option<i64>,
}

/// The token that the cache hands out at `now`, if any: one is held, with an
/// expiry more than the safety margin after `now`.
pub open spec fn cached_at(cache: TokenCache, now: int) -> Option<Seq<char>> {
    match (cache.token, cache.expires_at) {
        (Some(t), Some(e)) => if e - 60 > now {
            Some(t@)
        } else {
            None
        },
        _ => None,
    }
}

impl TokenCache {
    /// A cache that holds no token.
    pub fn new() -> (r: Self)
        ensures
            r.token.is_none(),
            r.expires_at.is_none(),
    {
        TokenCache { token: None, expires_at: None }
    }

    /// The cached token, if it is still valid at `now` by the safety margin.
    pub fn lookup(&self, now: i64) -> (r: Option<String>)
        ensures
            match r {
                Some(t) => cached_at(*self, now as int) == Some(t@),
                None => cached_at(*self, now as int).is_none(),
            },
    {
        match (&self.token, self.expires_at) {
            (Some(t), Some(e)) => {
                if (e as i128) - (SAFETY_MARGIN as i128) > now as i128 {
                    Some(t.clone())
                } else {
                    None
                }
            },
            _ => None,
        }
    }

    /// Replaces the cached token.
    pub fn store(&mut self, token: String, expires_at: i64)
        ensures
            final(self).token == Some(token),
            final(self).expires_at == Some(expires_at),
    {
        self.token = Some(token);
        self.expires_at = Some(expires_at);
    }
}

/// A token stored with an expiry past the safety margin is handed out again,
/// unchanged, at any time before that margin.
pub proof fn lemma_cache_hit(token: String, expires_at: i64, now: int)
    requires
        expires_at - 60 > now,
    ensures
        cached_at(TokenCache { token: Some(token), expires_at: Some(expires_at) }, now) == Some(
            token@,
        ),
{
}

/// A cache whose token expires within the safety margin hands out nothing.
pub proof fn lemma_cache_expired(cache: TokenCache, now: int)
    requires
        cache.expires_at matches Some(e) && e - 60 <= now,
    ensures
        cached_at(cache, now).is_none(),
{
}

/// The absolute expiry, in seconds, of a token issued at `now`.
pub open spec fn expiry_of(expiration_ms: Option<i64>, now: int) -> int {
    match expiration_ms {
        Some(ms) => if ms > 0 {
            ms / 1000
        } else {
            now + 1800
        },
        None => now + 1800,
    }
}

/// The expiry of a token from the millisecond timestamp of the reply, or the
/// default lifetime from `now` where the reply gives none.
pub fn token_expiry(expiration_ms: Option<i64>, now: i64) -> (r: i64)
    requires
        now <= i64::MAX - DEFAULT_LIFETIME,
    ensures
        r == expiry_of(expiration_ms, now as int),
{
    match expiration_ms {
        Some(ms) => {
            if ms > 0 {
                ms / 1000
            } else {
                now + DEFAULT_LIFETIME
            }
        },
        None => now + DEFAULT_LIFETIME,
    }
}

/// The `reason` of a token exchange request.
#[derive(Debug, Clone, Copy, PartialEq, Eq, Structural)]
pub enum Reason {
    Transport,
    Init,
}

impl Reason {
    /// The query value of the reason.
    pub fn as_str(&self) -> (r: &'static str)
        ensures
            r@ == reason_text(*self),
    {
        match self {
            Reason::Transport => "transport",
            Reason::Init => "init",
        }
    }
}

/// The query value of a reason.
pub open spec fn reason_text(r: Reason) -> Seq<char> {
    match r {
        Reason::Transport => "transport"@,
        Reason::Init => "init"@,
    }
}

/// What a token exchange answered.
pub struct ExchangeReply {
    /// The `accessToken` field of the answer; `None` where the answer has
    /// none, whatever its status.
    pub access_token: Option<String>,
    /// The `accessTokenExpirationTimestampMs` field of the answer, if present.
    pub expiration_ms: Option<i64>,
}

/// What follows an exchange answer.
pub enum ExchangeStep {
    /// Send the exchange once more, with this reason.
    Retry(Reason),
    /// The token was issued, with this absolute expiry in seconds.
    Issued { token: String, expires_at: i64 },
    /// Neither the first exchange nor the retry gave an access token.
    Failed,
}

/// Whether `status` is a success status (2xx).
pub open spec fn is_success(status: u16) -> bool {
    200 <= status && status <= 299
}

/// The step after an exchange with `reason` answered `reply` at `now`.
pub open spec fn next_step(reason: Reason, reply: ExchangeReply, now: int) -> ExchangeStep {
    match reply.access_token {
        Some(t) => ExchangeStep::Issued {
            token: t,
            expires_at: expiry_of(reply.expiration_ms, now) as i64,
        },
        None => if reason == Reason::Transport {
            ExchangeStep::Retry(Reason::Init)
        } else {
            ExchangeStep::Failed
        },
    }
}

/// Decides what follows an exchange answer. The first exchange is sent with
/// `Reason::Transport`; an answer that carries no token, whatever its status,
/// is retried once with `Reason::Init`, and the answer to that retry is final.
pub fn after_exchange(reason: Reason, reply: ExchangeReply, now: i64) -> (r: ExchangeStep)
    requires
        now <= i64::MAX - DEFAULT_LIFETIME,
    ensures
        r == next_step(reason, reply, now as int),
{
    match reply.access_token {
        Some(t) => {
            let expires_at = token_expiry(reply.expiration_ms, now);
            ExchangeStep::Issued { token: t, expires_at }
        },
        None => {
            if reason == Reason::Transport {
                ExchangeStep::Retry(Reason::Init)
            } else {
                ExchangeStep::Failed
            }
        },
    }
}

/// A first exchange answered without a token leads to exactly one retry,
/// with reason `init`; whatever the retry answers ends the acquisition, as a
/// failure where it carries no token either.
pub proof fn lemma_single_retry(first: ExchangeReply, second: ExchangeReply, now: int)
    requires
        first.access_token.is_none(),
    ensures
        next_step(Reason::Transport, first, now) == ExchangeStep::Retry(Reason::Init),
        !(next_step(Reason::Init, second, now) is Retry),
        second.access_token.is_none() ==> next_step(Reason::Init, second, now)
            == ExchangeStep::Failed,
        second.access_token matches Some(t) ==> next_step(Reason::Init, second, now)
            == (ExchangeStep::Issued { token: t, expires_at: expiry_of(second.expiration_ms, now) as i64 }),
{
}

} // verus!
