//! LAN input client rules: option normalization, the clamps applied to
//! outgoing events, and the verdict on the server's authentication reply.
//! The TCP connection, its writer task and the JSON coding live outside the
//! library and call in with plain values.

use crate::input::{clamp_i32, clamp_i32_spec, LanInputEvent};
use crate::text::{str_eq_str, trim_spec, trim_str};
use vstd::prelude::*;
use vstd::string::*;

verus! {

/// Default connect timeout of the input client, milliseconds.
pub const CLIENT_CONNECT_TIMEOUT_MS: u64 = 3000;

/// Start options for the input client, as they arrive over the control
/// surface.
#[allow(non_snake_case)]
pub struct StartLanInputClientOptions {
    pub host: String,
    pub port: u16,
    pub authToken: String,
    pub sessionId: Option<String>,
    pub streamId: Option<String>,
    pub connectTimeoutMs: Option<u64>,
}

/// The trimmed field, or `None` when absent or blank.
pub open spec fn opt_client_trimmed(v: Option<String>) -> Option<Seq<char>> {
    match v {
        Some(s) => if trim_spec(s@).len() > 0 {
            Some(trim_spec(s@))
        } else {
            None
        },
        None => None,
    }
}

/// Trim and validate client start options: the host and token must be
/// non-blank and the port non-zero, in that report order.
pub fn normalize_client_options(options: StartLanInputClientOptions) -> (r: Result<
    StartLanInputClientOptions,
    String,
>)
    ensures
        ({
            let host_bad = trim_spec(options.host@).len() == 0;
            let port_bad = options.port == 0;
            let token_bad = trim_spec(options.authToken@).len() == 0;
            &&& (r is Err <==> host_bad || port_bad || token_bad)
            &&& (host_bad ==> (r matches Err(m) && m@ == "host obrigatorio no input client."@))
            &&& (!host_bad && port_bad ==> (r matches Err(m) && m@
                == "port invalida no input client."@))
            &&& (!host_bad && !port_bad && token_bad ==> (r matches Err(m) && m@
                == "authToken obrigatorio no input client."@))
            &&& (r matches Ok(o) ==> {
                &&& o.host@ == trim_spec(options.host@)
                &&& o.port == options.port
                &&& o.authToken@ == trim_spec(options.authToken@)
                &&& (match o.sessionId {
                    Some(s) => Some(s@) == opt_client_trimmed(options.sessionId),
                    None => opt_client_trimmed(options.sessionId) is None,
                })
                &&& (match o.streamId {
                    Some(s) => Some(s@) == opt_client_trimmed(options.streamId),
                    None => opt_client_trimmed(options.streamId) is None,
                })
                &&& o.connectTimeoutMs == options.connectTimeoutMs
            })
        }),
{
    let host = trim_str(options.host.as_str());
    if host.as_str().is_empty() {
        return Err(String::from_str("host obrigatorio no input client."));
    }
    if options.port == 0 {
        return Err(String::from_str("port invalida no input client."));
    }
    let auth_token = trim_str(options.authToken.as_str());
    if auth_token.as_str().is_empty() {
        return Err(String::from_str("authToken obrigatorio no input client."));
    }

    let session_id = match &options.sessionId {
        Some(s) => {
            let t = trim_str(s.as_str());
            if t.as_str().is_empty() {
                None
            } else {
                Some(t)
            }
        },
        None => None,
    };
    let stream_id = match &options.streamId {
        Some(s) => {
            let t = trim_str(s.as_str());
            if t.as_str().is_empty() {
                None
            } else {
                Some(t)
            }
        },
        None => None,
    };

    Ok(
        StartLanInputClientOptions {
            host,
            port: options.port,
            authToken: auth_token,
            sessionId: session_id,
            streamId: stream_id,
            connectTimeoutMs: options.connectTimeoutMs,
        },
    )
}

/// The connect timeout actually used: the given one clamped to
/// `[500, 10000]` ms, or 3000 ms when none was given.
pub fn resolve_connect_timeout(connect_timeout_ms: Option<u64>) -> (r: u64)
    ensures
        r == ({
            let v = match connect_timeout_ms {
                Some(v) => v,
                None => CLIENT_CONNECT_TIMEOUT_MS,
            };
            if v < 500 {
                500u64
            } else if v > 10000 {
                10000u64
            } else {
                v
            }
        }),
{
    let v = match connect_timeout_ms {
        Some(v) => v,
        None => CLIENT_CONNECT_TIMEOUT_MS,
    };
    if v < 500 {
        500
    } else if v > 10000 {
        10000
    } else {
        v
    }
}

/// An event as it goes on the wire: deltas clamped, key modifiers always
/// present.
#[allow(non_snake_case)]
pub enum WireEvent {
    MouseMove { seq: u64, tsUs: u64, dx: i32, dy: i32 },
    MouseButton { seq: u64, tsUs: u64, button: u8, down: bool },
    MouseWheel { seq: u64, tsUs: u64, deltaX: i32, deltaY: i32 },
    Key {
        seq: u64,
        tsUs: u64,
        code: String,
        down: bool,
        ctrl: bool,
        alt: bool,
        shift: bool,
        meta: bool,
    },
    DisconnectHotkey { seq: u64, tsUs: u64 },
}

/// What an event looks like on the wire: mouse motion is clamped to
/// `[-1000, 1000]`, wheel deltas to `[-960, 960]`, and absent key modifiers
/// default to false.
pub open spec fn spec_wire_event(event: LanInputEvent) -> WireEvent {
    match event {
        LanInputEvent::MouseMove { seq, tsUs, dx, dy } => WireEvent::MouseMove {
            seq,
            tsUs,
            dx: clamp_i32_spec(dx, -1000i32, 1000i32),
            dy: clamp_i32_spec(dy, -1000i32, 1000i32),
        },
        LanInputEvent::MouseButton { seq, tsUs, button, down } => WireEvent::MouseButton {
            seq,
            tsUs,
            button,
            down,
        },
        LanInputEvent::MouseWheel { seq, tsUs, deltaX, deltaY } => WireEvent::MouseWheel {
            seq,
            tsUs,
            deltaX: clamp_i32_spec(deltaX, -960i32, 960i32),
            deltaY: clamp_i32_spec(deltaY, -960i32, 960i32),
        },
        LanInputEvent::Key { seq, tsUs, code, down, ctrl, alt, shift, meta } => WireEvent::Key {
            seq,
            tsUs,
            code,
            down,
            ctrl: ctrl == Some(true),
            alt: alt == Some(true),
            shift: shift == Some(true),
            meta: meta == Some(true),
        },
        LanInputEvent::DisconnectHotkey { seq, tsUs } => WireEvent::DisconnectHotkey { seq, tsUs },
    }
}

/// Shape an event for the wire, applying the sender-side clamps and modifier
/// defaults.
pub fn normalize_client_event(event: LanInputEvent) -> (r: WireEvent)
    ensures
        r == spec_wire_event(event),
{
    match event {
        LanInputEvent::MouseMove { seq, tsUs, dx, dy } => WireEvent::MouseMove {
            seq,
            tsUs,
            dx: clamp_i32(dx, -1000, 1000),
            dy: clamp_i32(dy, -1000, 1000),
        },
        LanInputEvent::MouseButton { seq, tsUs, button, down } => WireEvent::MouseButton {
            seq,
            tsUs,
            button,
            down,
        },
        LanInputEvent::MouseWheel { seq, tsUs, deltaX, deltaY } => WireEvent::MouseWheel {
            seq,
            tsUs,
            deltaX: clamp_i32(deltaX, -960, 960),
            deltaY: clamp_i32(deltaY, -960, 960),
        },
        LanInputEvent::Key { seq, tsUs, code, down, ctrl, alt, shift, meta } => WireEvent::Key {
            seq,
            tsUs,
            code,
            down,
            ctrl: match ctrl {
                Some(b) => b,
                None => false,
            },
            alt: match alt {
                Some(b) => b,
                None => false,
            },
            shift: match shift {
                Some(b) => b,
                None => false,
            },
            meta: match meta {
                Some(b) => b,
                None => false,
            },
        },
        LanInputEvent::DisconnectHotkey { seq, tsUs } => WireEvent::DisconnectHotkey { seq, tsUs },
    }
}

/// Judge the server's reply to the auth line: only a message whose `type` is
/// `auth_ok` lets the client proceed; anything else fails with the reported
/// reason, or `unknown` when none was given.
pub fn auth_response_outcome(auth_type: &Option<String>, reason: &Option<String>) -> (r: Result<
    (),
    String,
>)
    ensures
        r is Ok <==> (auth_type matches Some(t) && t@ == "auth_ok"@),
        r matches Err(m) ==> m@ == "input auth recusado: "@ + (match reason {
            Some(s) => s@,
            None => "unknown"@,
        }),
{
    let ok = match auth_type {
        Some(t) => str_eq_str(t.as_str(), "auth_ok"),
        None => false,
    };
    if ok {
        Ok(())
    } else {
        let prefix = String::from_str("input auth recusado: ");
        let msg = match reason {
            Some(s) => prefix.concat(s.as_str()),
            None => prefix.concat("unknown"),
        };
        Err(msg)
    }
}

} // verus!
