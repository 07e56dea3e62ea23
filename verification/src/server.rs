//! LAN input server rules: configuration normalization and the authentication
//! gate each connection must pass before its events reach the injector. The
//! TCP listener and per-connection readers live outside the library and call
//! in with plain values.

use crate::clock::now_ms;
use crate::text::{str_eq_str, trim_spec, trim_str};
use vstd::prelude::*;
use vstd::string::*;

verus! {

/// Default bind port of the input server.
pub const DEFAULT_BIND_PORT: u16 = 5505;

/// Default event admission limit per second.
pub const DEFAULT_EVENTS_PER_SEC: u32 = 700;

/// Default statistics cadence, milliseconds.
pub const DEFAULT_SERVER_STATS_INTERVAL_MS: u64 = 1000;

/// Start options for the input server, as they arrive over the control
/// surface.
#[allow(non_snake_case)]
pub struct StartLanInputServerOptions {
    pub bindHost: Option<String>,
    pub bindPort: Option<u16>,
    pub authToken: String,
    pub authExpiresAtMs: Option<u64>,
    pub sessionId: Option<String>,
    pub streamId: Option<String>,
    pub sessionActive: Option<bool>,
    pub maxEventsPerSecond: Option<u32>,
    pub statsIntervalMs: Option<u64>,
}

/// Server configuration after defaults, trims and clamps.
pub struct ServerConfig {
    pub bind_host: String,
    pub bind_port: u16,
    pub auth_token: String,
    pub auth_expires_at_ms: Option<u64>,
    pub session_id: Option<String>,
    pub stream_id: Option<String>,
    pub max_events_per_second: u32,
    pub stats_interval_ms: u64,
}

impl ServerConfig {
    /// Every normalized option sits in its documented range.
    pub open spec fn wf(&self) -> bool {
        &&& self.bind_port > 0
        &&& trim_spec(self.auth_token@).len() > 0
        &&& self.auth_token@ == trim_spec(self.auth_token@)
        &&& 60 <= self.max_events_per_second <= 5000
        &&& 250 <= self.stats_interval_ms <= 60000
    }
}

/// The trimmed field, or `None` when absent or blank.
pub open spec fn opt_trimmed(v: Option<String>) -> Option<Seq<char>> {
    match v {
        Some(s) => if trim_spec(s@).len() > 0 {
            Some(trim_spec(s@))
        } else {
            None
        },
        None => None,
    }
}

fn opt_trim(v: &Option<String>) -> (r: Option<String>)
    ensures
        match r {
            Some(s) => Some(s@) == opt_trimmed(*v),
            None => opt_trimmed(*v) is None,
        },
{
    match v {
        Some(s) => {
            let t = trim_str(s.as_str());
            if t.as_str().is_empty() {
                None
            } else {
                Some(t)
            }
        },
        None => None,
    }
}

/// `x` forced into `[lo, hi]`.
pub open spec fn clamp32(x: u32, lo: u32, hi: u32) -> u32 {
    if x < lo {
        lo
    } else if x > hi {
        hi
    } else {
        x
    }
}

/// Apply defaults, trims and clamps to server start options, judging token
/// expiry against the given clock reading. Fails on a zero port, then a blank
/// token, then an expiry at or before `now_ms`.
pub fn normalize_server_config_at(options: StartLanInputServerOptions, now_ms: u64) -> (r: Result<
    (ServerConfig, bool),
    String,
>)
    ensures
        ({
            let port_bad = options.bindPort matches Some(p) && p == 0;
            let token_bad = trim_spec(options.authToken@).len() == 0;
            let expiry = match options.authExpiresAtMs {
                Some(e) => if e > 0 {
                    Some(e)
                } else {
                    None::<u64>
                },
                None => None::<u64>,
            };
            let expired = expiry matches Some(e) && e <= now_ms;
            &&& (r is Err <==> port_bad || token_bad || expired)
            &&& (port_bad ==> (r matches Err(m) && m@ == "bindPort invalido."@))
            &&& (!port_bad && token_bad ==> (r matches Err(m) && m@ == "authToken obrigatorio."@))
            &&& (!port_bad && !token_bad && expired ==> (r matches Err(m) && m@
                == "authToken expirado."@))
            &&& (r matches Ok(c) ==> {
                &&& c.0.wf()
                &&& c.0.bind_host@ == (match options.bindHost {
                    Some(h) => if trim_spec(h@).len() > 0 {
                        trim_spec(h@)
                    } else {
                        "0.0.0.0"@
                    },
                    None => "0.0.0.0"@,
                })
                &&& c.0.bind_port == (match options.bindPort {
                    Some(p) => p,
                    None => DEFAULT_BIND_PORT,
                })
                &&& c.0.auth_token@ == trim_spec(options.authToken@)
                &&& c.0.auth_expires_at_ms == expiry
                &&& (match c.0.session_id {
                    Some(s) => Some(s@) == opt_trimmed(options.sessionId),
                    None => opt_trimmed(options.sessionId) is None,
                })
                &&& (match c.0.stream_id {
                    Some(s) => Some(s@) == opt_trimmed(options.streamId),
                    None => opt_trimmed(options.streamId) is None,
                })
                &&& c.0.max_events_per_second == clamp32(
                    match options.maxEventsPerSecond {
                        Some(v) => v,
                        None => DEFAULT_EVENTS_PER_SEC,
                    },
                    60,
                    5000,
                )
                &&& c.0.stats_interval_ms == (match options.statsIntervalMs {
                    Some(v) => if v < 250 {
                        250u64
                    } else if v > 60000 {
                        60000u64
                    } else {
                        v
                    },
                    None => DEFAULT_SERVER_STATS_INTERVAL_MS,
                })
                &&& c.1 == (match options.sessionActive {
                    Some(a) => a,
                    None => false,
                })
            })
        }),
{
    let bind_host = match &options.bindHost {
        Some(h) => {
            let t = trim_str(h.as_str());
            if t.as_str().is_empty() {
                String::from_str("0.0.0.0")
            } else {
                t
            }
        },
        None => String::from_str("0.0.0.0"),
    };
    let bind_port = match options.bindPort {
        Some(p) => p,
        None => DEFAULT_BIND_PORT,
    };
    if bind_port == 0 {
        return Err(String::from_str("bindPort invalido."));
    }

    let auth_token = trim_str(options.authToken.as_str());
    if auth_token.as_str().is_empty() {
        return Err(String::from_str("authToken obrigatorio."));
    }
    proof {
        crate::text::lemma_trim_idempotent(options.authToken@);
    }

    let auth_expires_at_ms = match options.authExpiresAtMs {
        Some(e) => if e > 0 {
            Some(e)
        } else {
            None
        },
        None => None,
    };
    match auth_expires_at_ms {
        Some(e) => {
            if e <= now_ms {
                return Err(String::from_str("authToken expirado."));
            }
        },
        None => {},
    }

    let max_events_per_second = {
        let v = match options.maxEventsPerSecond {
            Some(v) => v,
            None => DEFAULT_EVENTS_PER_SEC,
        };
        if v < 60 {
            60
        } else if v > 5000 {
            5000
        } else {
            v
        }
    };
    let stats_interval_ms = {
        let v = match options.statsIntervalMs {
            Some(v) => v,
            None => DEFAULT_SERVER_STATS_INTERVAL_MS,
        };
        if v < 250 {
            250
        } else if v > 60000 {
            60000
        } else {
            v
        }
    };
    let session_active = match options.sessionActive {
        Some(a) => a,
        None => false,
    };

    Ok(
        (
            ServerConfig {
                bind_host,
                bind_port,
                auth_token,
                auth_expires_at_ms,
                session_id: opt_trim(&options.sessionId),
                stream_id: opt_trim(&options.streamId),
                max_events_per_second,
                stats_interval_ms,
            },
            session_active,
        ),
    )
}

/// Normalize server start options against the current clock: token expiry in
/// the past is rejected at start. Whatever the clock read, the result obeys
/// `normalize_server_config_at` for it; the clauses below are the ones that
/// hold for every reading: only the clock decides the fate of a supplied
/// expiry, and with none supplied, a good port and a non-blank token are owed
/// success.
pub fn normalize_server_config(options: StartLanInputServerOptions) -> (r: Result<
    (ServerConfig, bool),
    String,
>)
    ensures
        ({
            let port_bad = options.bindPort matches Some(p) && p == 0;
            let token_bad = trim_spec(options.authToken@).len() == 0;
            let expiry_given = options.authExpiresAtMs matches Some(e) && e > 0;
            &&& (port_bad || token_bad ==> r is Err)
            &&& (r is Err ==> port_bad || token_bad || expiry_given)
            &&& (!port_bad && !token_bad && !expiry_given ==> r is Ok)
            &&& (port_bad ==> (r matches Err(m) && m@ == "bindPort invalido."@))
            &&& (!port_bad && token_bad ==> (r matches Err(m) && m@
                == "authToken obrigatorio."@))
            &&& (!port_bad && !token_bad && expiry_given ==> (r is Err ==> (r matches Err(m) && m@
                == "authToken expirado."@)))
            &&& (r matches Ok(c) ==> {
                &&& c.0.wf()
                &&& c.0.bind_host@ == (match options.bindHost {
                    Some(h) => if trim_spec(h@).len() > 0 {
                        trim_spec(h@)
                    } else {
                        "0.0.0.0"@
                    },
                    None => "0.0.0.0"@,
                })
                &&& c.0.bind_port == (match options.bindPort {
                    Some(p) => p,
                    None => DEFAULT_BIND_PORT,
                })
                &&& c.0.auth_token@ == trim_spec(options.authToken@)
                &&& c.0.max_events_per_second == clamp32(
                    match options.maxEventsPerSecond {
                        Some(v) => v,
                        None => DEFAULT_EVENTS_PER_SEC,
                    },
                    60,
                    5000,
                )
                &&& c.1 == (match options.sessionActive {
                    Some(a) => a,
                    None => false,
                })
            })
        }),
{
    let now = now_ms();
    normalize_server_config_at(options, now)
}

/// Why a connection's authentication was refused, in report order.
pub enum AuthFailure {
    TokenExpired,
    InvalidToken,
    InvalidSession,
    InvalidStream,
    SessionInactive,
}

impl AuthFailure {
    /// The `reason` string written into the `auth_error` reply.
    pub fn reason(&self) -> (r: &'static str)
        ensures
            r@ == match self {
                AuthFailure::TokenExpired => "token_expired"@,
                AuthFailure::InvalidToken => "invalid_token"@,
                AuthFailure::InvalidSession => "invalid_session"@,
                AuthFailure::InvalidStream => "invalid_stream"@,
                AuthFailure::SessionInactive => "session_inactive"@,
            },
    {
        match self {
            AuthFailure::TokenExpired => "token_expired",
            AuthFailure::InvalidToken => "invalid_token",
            AuthFailure::InvalidSession => "invalid_session",
            AuthFailure::InvalidStream => "invalid_stream",
            AuthFailure::SessionInactive => "session_inactive",
        }
    }
}

/// The auth token matches the configured one exactly.
pub open spec fn spec_token_ok(config: ServerConfig, token: Seq<char>) -> bool {
    token == config.auth_token@
}

/// The configured expiry, if any, lies in the past at `now_ms`.
pub open spec fn spec_token_expired(config: ServerConfig, now_ms: u64) -> bool {
    match config.auth_expires_at_ms {
        Some(e) => now_ms > e,
        None => false,
    }
}

/// An optional exact-match gate: pass when nothing is configured; otherwise
/// the client must supply the configured value.
pub open spec fn spec_gate_ok(expected: Option<String>, provided: Option<String>) -> bool {
    match (expected, provided) {
        (Some(e), Some(p)) => e@ == p@,
        (Some(e), None) => false,
        _ => true,
    }
}

fn gate_ok(expected: &Option<String>, provided: &Option<String>) -> (r: bool)
    ensures
        r == spec_gate_ok(*expected, *provided),
{
    match (expected, provided) {
        (Some(e), Some(p)) => str_eq_str(e.as_str(), p.as_str()),
        (Some(_), None) => false,
        _ => true,
    }
}

/// Judge one `auth` message against the configuration, the session-active
/// flag and the clock. Failures are reported in a fixed precedence order:
/// expiry, token, session, stream, session-active.
pub fn validate_auth(
    config: &ServerConfig,
    token: &str,
    session_id: &Option<String>,
    stream_id: &Option<String>,
    session_active: bool,
    now_ms: u64,
) -> (r: Result<(), AuthFailure>)
    ensures
        ({
            let token_ok = spec_token_ok(*config, token@);
            let expired = spec_token_expired(*config, now_ms);
            let session_ok = spec_gate_ok(config.session_id, *session_id);
            let stream_ok = spec_gate_ok(config.stream_id, *stream_id);
            &&& (r is Ok <==> token_ok && !expired && session_ok && stream_ok && session_active)
            &&& (r matches Err(AuthFailure::TokenExpired) <==> expired)
            &&& (r matches Err(AuthFailure::InvalidToken) <==> !expired && !token_ok)
            &&& (r matches Err(AuthFailure::InvalidSession) <==> !expired && token_ok
                && !session_ok)
            &&& (r matches Err(AuthFailure::InvalidStream) <==> !expired && token_ok && session_ok
                && !stream_ok)
            &&& (r matches Err(AuthFailure::SessionInactive) <==> !expired && token_ok
                && session_ok && stream_ok && !session_active)
        }),
{
    let token_ok = str_eq_str(token, config.auth_token.as_str());
    let token_expired = match config.auth_expires_at_ms {
        Some(e) => now_ms > e,
        None => false,
    };
    let session_ok = gate_ok(&config.session_id, session_id);
    let stream_ok = gate_ok(&config.stream_id, stream_id);

    if token_expired {
        Err(AuthFailure::TokenExpired)
    } else if !token_ok {
        Err(AuthFailure::InvalidToken)
    } else if !session_ok {
        Err(AuthFailure::InvalidSession)
    } else if !stream_ok {
        Err(AuthFailure::InvalidStream)
    } else if !session_active {
        Err(AuthFailure::SessionInactive)
    } else {
        Ok(())
    }
}

} // verus!
