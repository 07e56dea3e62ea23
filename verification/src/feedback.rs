//! Feedback reports sent back to the capture host: validation, clamps and
//! routing against the remote discovered by the receiver. The caller encodes
//! the prepared report as JSON and sends it over the feedback socket.

use crate::receiver::RemoteEndpoint;
use crate::stream_id::spec_stream_id_hex;
use crate::stream_id::stream_id_to_hex;
use crate::text::{trim_spec, trim_str};
use vstd::prelude::*;
use vstd::string::*;

verus! {

/// A feedback request as it arrives over the control surface. Measured loss
/// and jitter ride along outside the library: they are fractional values that
/// the library neither checks nor computes.
#[allow(non_snake_case)]
pub struct UdpLanFeedbackMessage {
    pub message_type: String,
    pub version: Option<u8>,
    pub token: String,
    pub sessionId: Option<String>,
    pub streamId: Option<String>,
    pub freezeMs: Option<u64>,
    pub requestedBitrateKbps: Option<u32>,
    pub reason: Option<String>,
}

/// A validated feedback report with its destination.
pub struct PreparedFeedback {
    pub message_type: String,
    pub version: u8,
    pub token: String,
    pub session_id: Option<String>,
    pub stream_id: Option<String>,
    pub freeze_ms: Option<u64>,
    pub requested_bitrate_kbps: Option<u32>,
    pub reason: Option<String>,
    pub sent_at_us: u64,
    pub remote_address: String,
    pub remote_port: u16,
}

/// Why a feedback request was rejected.
pub enum FeedbackError {
    /// The `type` field is empty.
    EmptyType,
    /// The `token` field is empty.
    EmptyToken,
    /// No datagram has arrived yet, so there is no remote to send to.
    NoRemote,
}

impl FeedbackError {
    /// The error text reported to the caller.
    pub fn message(&self) -> (r: String)
        ensures
            r@ == match self {
                FeedbackError::EmptyType => "type obrigatorio no feedback UDP."@,
                FeedbackError::EmptyToken => "token obrigatorio no feedback UDP."@,
                FeedbackError::NoRemote => "receiver UDP ainda nao possui remoto ativo."@,
            },
    {
        match self {
            FeedbackError::EmptyType => String::from_str("type obrigatorio no feedback UDP."),
            FeedbackError::EmptyToken => String::from_str("token obrigatorio no feedback UDP."),
            FeedbackError::NoRemote => String::from_str(
                "receiver UDP ainda nao possui remoto ativo.",
            ),
        }
    }
}

/// The trimmed field, or `None` when it is absent or blank.
pub open spec fn trimmed_or_none(v: Option<String>) -> Option<Seq<char>> {
    match v {
        Some(s) => if trim_spec(s@).len() > 0 {
            Some(trim_spec(s@))
        } else {
            None
        },
        None => None,
    }
}

fn trim_optional(v: &Option<String>) -> (r: Option<String>)
    ensures
        match r {
            Some(s) => Some(s@) == trimmed_or_none(*v),
            None => trimmed_or_none(*v) is None,
        },
{
    match v {
        Some(s) => {
            let t = trim_str(s.as_str());
            if t.as_str().is_empty() {
                None
            } else {
                Some(t)
            }
        },
        None => None,
    }
}

/// Validate a feedback request and resolve its destination and stream id.
/// Fails on a blank `type`, then a blank `token`, then a missing remote. On
/// success the stream id falls back to the latched one, `freezeMs` is capped
/// at one minute, the requested bitrate is clamped to `[100, 500000]` kbit/s,
/// and the timestamp is attached.
pub fn prepare_feedback(
    message: UdpLanFeedbackMessage,
    route_remote: &Option<RemoteEndpoint>,
    active_stream_id: &Option<Vec<u8>>,
    sent_at_us: u64,
) -> (r: Result<PreparedFeedback, FeedbackError>)
    ensures
        r matches Err(FeedbackError::EmptyType) <==> trim_spec(message.message_type@).len() == 0,
        r matches Err(FeedbackError::EmptyToken) <==> trim_spec(message.message_type@).len() > 0
            && trim_spec(message.token@).len() == 0,
        r matches Err(FeedbackError::NoRemote) <==> trim_spec(message.message_type@).len() > 0
            && trim_spec(message.token@).len() > 0 && route_remote is None,
        r is Ok <==> trim_spec(message.message_type@).len() > 0 && trim_spec(message.token@).len()
            > 0 && route_remote is Some,
        r matches Ok(p) ==> {
            &&& p.message_type@ == trim_spec(message.message_type@)
            &&& p.version == (match message.version {
                Some(v) => v,
                None => 1u8,
            })
            &&& p.token@ == trim_spec(message.token@)
            &&& (match p.session_id {
                Some(s) => Some(s@) == trimmed_or_none(message.sessionId),
                None => trimmed_or_none(message.sessionId) is None,
            })
            &&& (match trimmed_or_none(message.streamId) {
                Some(given) => p.stream_id matches Some(s) && s@ == given,
                None => match active_stream_id {
                    Some(id) => p.stream_id matches Some(s) && s@ == spec_stream_id_hex(id@),
                    None => p.stream_id is None,
                },
            })
            &&& p.freeze_ms == (match message.freezeMs {
                Some(f) => if f > 60000 {
                    Some(60000u64)
                } else {
                    Some(f)
                },
                None => None::<u64>,
            })
            &&& p.requested_bitrate_kbps == (match message.requestedBitrateKbps {
                Some(b) => if b < 100 {
                    Some(100u32)
                } else if b > 500000 {
                    Some(500000u32)
                } else {
                    Some(b)
                },
                None => None::<u32>,
            })
            &&& (match p.reason {
                Some(s) => Some(s@) == trimmed_or_none(message.reason),
                None => trimmed_or_none(message.reason) is None,
            })
            &&& p.sent_at_us == sent_at_us
            &&& (route_remote matches Some(e) && p.remote_address@ == e.address@ && p.remote_port
                == e.port)
        },
{
    let message_type = trim_str(message.message_type.as_str());
    if message_type.as_str().is_empty() {
        return Err(FeedbackError::EmptyType);
    }
    let token = trim_str(message.token.as_str());
    if token.as_str().is_empty() {
        return Err(FeedbackError::EmptyToken);
    }
    let (remote_address, remote_port) = match route_remote {
        Some(e) => (e.address.clone(), e.port),
        None => {
            return Err(FeedbackError::NoRemote);
        },
    };

    let stream_id = match trim_optional(&message.streamId) {
        Some(s) => Some(s),
        None => match active_stream_id {
            Some(id) => Some(stream_id_to_hex(id)),
            None => None,
        },
    };

    let freeze_ms = match message.freezeMs {
        Some(f) => if f > 60000 {
            Some(60000)
        } else {
            Some(f)
        },
        None => None,
    };
    let requested_bitrate_kbps = match message.requestedBitrateKbps {
        Some(b) => if b < 100 {
            Some(100)
        } else if b > 500000 {
            Some(500000)
        } else {
            Some(b)
        },
        None => None,
    };

    Ok(
        PreparedFeedback {
            message_type,
            version: match message.version {
                Some(v) => v,
                None => 1,
            },
            token,
            session_id: trim_optional(&message.sessionId),
            stream_id,
            freeze_ms,
            requested_bitrate_kbps,
            reason: trim_optional(&message.reason),
            sent_at_us,
            remote_address,
            remote_port,
        },
    )
}

} // verus!
