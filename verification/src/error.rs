//! Error values returned by the gateway and by the streaming helpers.

use vstd::prelude::*;
use vstd::string::*;

verus! {

/// Gateway-originated error with all information needed to produce a
/// Problem Details response.
#[derive(Debug, Clone)]
pub enum ServiceGatewayError {
    ValidationError { detail: String, instance: String },
    MissingTargetHost { instance: String },
    InvalidTargetHost { instance: String },
    UnknownTargetHost { detail: String, instance: String },
    AuthenticationFailed { detail: String, instance: String },
    NotFound { entity: String, instance: String },
    RouteNotFound { instance: String },
    PayloadTooLarge { detail: String, instance: String },
    RateLimitExceeded { detail: String, instance: String, retry_after_secs: Option<u64> },
    SecretNotFound { detail: String, instance: String },
    DownstreamError { detail: String, instance: String },
    ProtocolError { detail: String, instance: String },
    UpstreamDisabled { detail: String, instance: String },
    ConnectionTimeout { detail: String, instance: String },
    RequestTimeout { detail: String, instance: String },
}

impl ServiceGatewayError {
    /// The human-readable message of the error.
    pub open spec fn message(self) -> Seq<char> {
        match self {
            ServiceGatewayError::ValidationError { detail, .. } => detail@,
            ServiceGatewayError::MissingTargetHost { .. } =>
                "target host header required for multi-endpoint upstream"@,
            ServiceGatewayError::InvalidTargetHost { .. } => "invalid target host header format"@,
            ServiceGatewayError::UnknownTargetHost { detail, .. } => detail@,
            ServiceGatewayError::AuthenticationFailed { detail, .. } => detail@,
            ServiceGatewayError::NotFound { entity, .. } => entity@ + " not found"@,
            ServiceGatewayError::RouteNotFound { .. } => "no matching route found"@,
            ServiceGatewayError::PayloadTooLarge { detail, .. } => detail@,
            ServiceGatewayError::RateLimitExceeded { detail, .. } => detail@,
            ServiceGatewayError::SecretNotFound { detail, .. } => detail@,
            ServiceGatewayError::DownstreamError { detail, .. } => detail@,
            ServiceGatewayError::ProtocolError { detail, .. } => detail@,
            ServiceGatewayError::UpstreamDisabled { detail, .. } => detail@,
            ServiceGatewayError::ConnectionTimeout { detail, .. } => detail@,
            ServiceGatewayError::RequestTimeout { detail, .. } => detail@,
        }
    }

    /// Renders the message of the error.
    pub fn to_string(&self) -> (s: String)
        ensures
            s@ == self.message(),
    {
        match self {
            ServiceGatewayError::ValidationError { detail, .. } => detail.clone(),
            ServiceGatewayError::MissingTargetHost { .. } => String::from_str(
                "target host header required for multi-endpoint upstream",
            ),
            ServiceGatewayError::InvalidTargetHost { .. } => String::from_str(
                "invalid target host header format",
            ),
            ServiceGatewayError::UnknownTargetHost { detail, .. } => detail.clone(),
            ServiceGatewayError::AuthenticationFailed { detail, .. } => detail.clone(),
            ServiceGatewayError::NotFound { entity, .. } => entity.clone().concat(" not found"),
            ServiceGatewayError::RouteNotFound { .. } => String::from_str("no matching route found"),
            ServiceGatewayError::PayloadTooLarge { detail, .. } => detail.clone(),
            ServiceGatewayError::RateLimitExceeded { detail, .. } => detail.clone(),
            ServiceGatewayError::SecretNotFound { detail, .. } => detail.clone(),
            ServiceGatewayError::DownstreamError { detail, .. } => detail.clone(),
            ServiceGatewayError::ProtocolError { detail, .. } => detail.clone(),
            ServiceGatewayError::UpstreamDisabled { detail, .. } => detail.clone(),
            ServiceGatewayError::ConnectionTimeout { detail, .. } => detail.clone(),
            ServiceGatewayError::RequestTimeout { detail, .. } => detail.clone(),
        }
    }
}

/// Errors produced by the streaming helpers.
#[derive(Debug, Clone, PartialEq, Eq)]
pub enum StreamingError {
    /// A chunk of a server-sent-events body could not be decoded as UTF-8,
    /// or the payload of an event could not be converted.
    ServerEventsParse { detail: String },
    /// The underlying byte or message source failed; holds the text of that
    /// failure.
    Stream(String),
    /// The WebSocket connection to the upstream failed.
    WebSocketConnect { detail: String },
    /// Forwarding through the WebSocket bridge failed.
    WebSocketBridge { detail: String },
}

/// A streaming error with its texts as sequences of characters.
pub ghost enum StreamingErrorModel {
    ServerEventsParse { detail: Seq<char> },
    Stream(Seq<char>),
    WebSocketConnect { detail: Seq<char> },
    WebSocketBridge { detail: Seq<char> },
}

impl View for StreamingError {
    type V = StreamingErrorModel;

    open spec fn view(&self) -> StreamingErrorModel {
        match *self {
            StreamingError::ServerEventsParse { detail } => StreamingErrorModel::ServerEventsParse {
                detail: detail@,
            },
            StreamingError::Stream(text) => StreamingErrorModel::Stream(text@),
            StreamingError::WebSocketConnect { detail } => StreamingErrorModel::WebSocketConnect {
                detail: detail@,
            },
            StreamingError::WebSocketBridge { detail } => StreamingErrorModel::WebSocketBridge {
                detail: detail@,
            },
        }
    }
}

impl StreamingErrorModel {
    /// The human-readable message of the error.
    pub open spec fn message(self) -> Seq<char> {
        match self {
            StreamingErrorModel::ServerEventsParse { detail } => "SSE parse error: "@ + detail,
            StreamingErrorModel::Stream(text) => "stream error: "@ + text,
            StreamingErrorModel::WebSocketConnect { detail } => "WebSocket connect error: "@
                + detail,
            StreamingErrorModel::WebSocketBridge { detail } => "WebSocket bridge error: "@ + detail,
        }
    }
}

impl StreamingError {
    /// Renders the message of the error.
    pub fn to_string(&self) -> (s: String)
        ensures
            s@ == self@.message(),
    {
        match self {
            StreamingError::ServerEventsParse { detail } => String::from_str(
                "SSE parse error: ",
            ).concat(detail.as_str()),
            StreamingError::Stream(text) => String::from_str("stream error: ").concat(
                text.as_str(),
            ),
            StreamingError::WebSocketConnect { detail } => String::from_str(
                "WebSocket connect error: ",
            ).concat(detail.as_str()),
            StreamingError::WebSocketBridge { detail } => String::from_str(
                "WebSocket bridge error: ",
            ).concat(detail.as_str()),
        }
    }

    /// The bridge error that reports `cause` as its detail.
    pub fn bridge(cause: &StreamingError) -> (e: StreamingError)
        ensures
            e@ == (StreamingErrorModel::WebSocketBridge { detail: cause@.message() }),
    {
        StreamingError::WebSocketBridge { detail: cause.to_string() }
    }
}

} // verus!
