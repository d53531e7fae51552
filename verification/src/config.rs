use vstd::prelude::*;

verus! {

/// Seconds between reconciliation cycles.
pub const SYNC_INTERVAL_SECS: u64 = 30;

/// Seconds between attempts to reach the mutation target at startup.
pub const CONNECT_RETRY_SECS: u64 = 10;

/// Seconds allowed for establishing a connection to the mutation target.
pub const CONNECT_TIMEOUT_SECS: u64 = 5;

/// Seconds allowed for each call on the mutation target.
pub const CALL_TIMEOUT_SECS: u64 = 5;

/// Seconds between keep-alive probes on the mutation channel.
pub const KEEPALIVE_SECS: u64 = 30;

/// A configuration value the process cannot start without.
#[derive(Clone, Copy, Debug, PartialEq, Eq, Structural)]
pub enum ConfigError {
    MissingSecret,
}

/// The retry policy the connection supervisor follows: a fixed delay
/// between attempts and an optional cap on their number. Startup uses
/// the unbounded form, so the process blocks until a first connection
/// succeeds rather than reconciling without a target.
pub struct RetryPolicy {
    pub interval_secs: u64,
    pub max_attempts: Option<u64>,
}

impl RetryPolicy {
    /// Retry indefinitely at a fixed interval.
    pub fn fixed_unbounded(interval_secs: u64) -> (r: RetryPolicy)
        ensures
            r.interval_secs == interval_secs,
            r.max_attempts is None,
    {
        RetryPolicy { interval_secs, max_attempts: None }
    }

    /// Whether attempt number `attempt`, counting from zero, may be made.
    pub fn should_retry(&self, attempt: u64) -> (r: bool)
        ensures
            r == (match self.max_attempts {
                Option::None => true,
                Option::Some(m) => attempt < m,
            }),
    {
        match self.max_attempts {
            Option::None => true,
            Option::Some(m) => attempt < m,
        }
    }

    /// The delay before the next attempt: fixed, whatever the attempt.
    pub fn next_delay_secs(&self, attempt: u64) -> (r: u64)
        ensures
            r == self.interval_secs,
    {
        let _unused = attempt;
        self.interval_secs
    }
}

/// The listener tag used when none is configured.
pub fn default_inbound_tag() -> (r: String)
    ensures
        r@ == "inbound-vless"@,
{
    "inbound-vless".to_owned()
}

/// The configured listener tag, or the default when none is set.
pub fn inbound_tag_or_default(tag: Option<String>) -> (r: String)
    ensures
        (match tag {
            Option::Some(t) => r@ == t@,
            Option::None => r@ == "inbound-vless"@,
        }),
{
    match tag {
        Option::Some(t) => t,
        Option::None => default_inbound_tag(),
    }
}

/// The desired-state endpoint used when none is configured.
pub fn control_plane_url_or_default(url: Option<String>) -> (r: String)
    ensures
        (match url {
            Option::Some(u) => r@ == u@,
            Option::None => r@ == "http://127.0.0.1:3000"@,
        }),
{
    match url {
        Option::Some(u) => u,
        Option::None => "http://127.0.0.1:3000".to_owned(),
    }
}

/// The mutation target address used when none is configured.
pub fn grpc_addr_or_default(addr: Option<String>) -> (r: String)
    ensures
        (match addr {
            Option::Some(a) => r@ == a@,
            Option::None => r@ == "http://host.docker.internal:8080"@,
        }),
{
    match addr {
        Option::Some(a) => a,
        Option::None => "http://host.docker.internal:8080".to_owned(),
    }
}

/// The shared secret is required: starting without one is refused, and
/// that refusal is the only fatal configuration condition.
pub fn require_secret(secret: Option<String>) -> (r: Result<String, ConfigError>)
    ensures
        (match secret {
            Option::Some(s) => r matches Ok(v) && v == s,
            Option::None => r matches Err(e) && e == ConfigError::MissingSecret,
        }),
{
    match secret {
        Option::Some(s) => Ok(s),
        Option::None => Err(ConfigError::MissingSecret),
    }
}

} // verus!
