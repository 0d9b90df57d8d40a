//! What the gateway computes before it hands a request to a backend: the
//! URL to call, the correlation header to attach, and, for WebSocket
//! connections, how frames are relayed.

use crate::config::RouteConfig;
use crate::errors::AppError;
use crate::text::{
    char_len, joined, owned, replace_all, replaced, skip_chars, starts_with,
};
use vstd::prelude::*;
use vstd::string::*;

verus! {

/// The header that carries the correlation identifier of a request, on the
/// forwarded request and on the final response.
pub const REQUEST_ID_HEADER: &'static str = "x-request-id";

/// A byte that may stand in a header value: anything from the space on,
/// except the delete character, and the tab.
pub open spec fn header_byte_ok(b: u8) -> bool {
    (b >= 32 && b != 127) || b == 9
}

/// A header value is accepted when each of its bytes is.
pub open spec fn header_value_ok(bytes: Seq<u8>) -> bool {
    forall|i: int| 0 <= i < bytes.len() ==> header_byte_ok(#[trigger] bytes[i])
}

/// Whether a URL can be the target of a forwarded request: the HTTP client
/// parses it and finds a host in it.
pub uninterp spec fn url_is_forwardable(url: Seq<char>) -> bool;

/// Whether `value` can be a header value. Wraps
/// `http::HeaderValue::from_str`, which scans the bytes of the string and
/// fails exactly when one of them is a control character other than the
/// tab.
#[verifier::external_body]
fn header_value_accepted(value: &str) -> (r: bool)
    ensures
        r == header_value_ok(value.spec_bytes()),
{
    http::HeaderValue::from_str(value).is_ok()
}

/// Whether the HTTP client takes `url` as the target of a request. Wraps
/// `reqwest::Url::parse` and `Url::has_host`, the two things the client
/// asks of a URL when it builds a request; the outcome depends on the text
/// of the URL alone.
#[verifier::external_body]
fn url_accepted(url: &str) -> (r: bool)
    ensures
        r == url_is_forwardable(url@),
{
    match reqwest::Url::parse(url) {
        Ok(parsed) => parsed.has_host(),
        Err(_) => false,
    }
}

/// What is left of a request path after the route's prefix; empty when the
/// route's path is not a prefix of it.
pub open spec fn path_remainder(route_path: Seq<char>, request_path: Seq<char>) -> Seq<char> {
    if route_path.is_prefix_of(request_path) {
        request_path.skip(route_path.len() as int)
    } else {
        Seq::empty()
    }
}

/// The URL that a request is forwarded to: the destination, followed by
/// the request path without the route's prefix.
pub open spec fn destination_url_text(
    destination: Seq<char>,
    route_path: Seq<char>,
    request_path: Seq<char>,
) -> Seq<char> {
    destination + path_remainder(route_path, request_path)
}

/// The WebSocket URL of a destination: `http://` becomes `ws://`, then
/// `https://` becomes `wss://`, wherever they occur.
pub open spec fn websocket_url_text(destination: Seq<char>) -> Seq<char> {
    replaced(replaced(destination, "http://"@, "ws://"@), "https://"@, "wss://"@)
}

/// The path of a request, from what follows the leading `/` of its URL.
pub fn request_path(tail: &str) -> (r: String)
    ensures
        r@ == "/"@ + tail@,
{
    joined("/", tail)
}

/// What is left of `request_path` after the route's prefix.
pub fn strip_route_prefix(route_path: &str, request_path: &str) -> (r: String)
    ensures
        r@ == path_remainder(route_path@, request_path@),
{
    if starts_with(request_path, route_path) {
        skip_chars(request_path, char_len(route_path))
    } else {
        String::new()
    }
}

/// The URL that a request for `request_path` on the route `route_path` is
/// forwarded to.
pub fn destination_url(destination: &str, route_path: &str, request_path: &str) -> (r: String)
    ensures
        r@ == destination_url_text(destination@, route_path@, request_path@),
{
    let rest = strip_route_prefix(route_path, request_path);
    joined(destination, rest.as_str())
}

/// The URL at which the backend of `destination` takes WebSocket
/// connections.
pub fn websocket_url(destination: &str) -> (r: String)
    ensures
        r@ == websocket_url_text(destination@),
{
    let plain = replace_all(destination, "http://", "ws://");
    replace_all(plain.as_str(), "https://", "wss://")
}

/// A request ready to be sent: where it goes, and the correlation header
/// that goes with it and comes back on the response.
#[derive(Debug)]
pub struct ForwardPlan {
    pub url: String,
    pub request_id_header: (String, String),
}

/// The plan for a request whose URL and correlation identifier have been
/// examined. An identifier that cannot be a header value is an internal
/// error; a URL that the client does not take is an invalid destination,
/// reported with the URL.
pub fn decide_forward(url: String, request_id: &str, request_id_valid: bool, url_valid: bool) -> (r:
    Result<ForwardPlan, AppError>)
    ensures
        match r {
            Ok(plan) => {
                &&& request_id_valid && url_valid
                &&& plan.url == url
                &&& plan.request_id_header.0@ == REQUEST_ID_HEADER@
                &&& plan.request_id_header.1@ == request_id@
            },
            Err(AppError::InternalServerError) => !request_id_valid,
            Err(AppError::InvalidDestination(u)) => request_id_valid && !url_valid && u == url,
            Err(_) => false,
        },
{
    if !request_id_valid {
        Err(AppError::InternalServerError)
    } else if !url_valid {
        Err(AppError::InvalidDestination(url))
    } else {
        Ok(ForwardPlan { url, request_id_header: (owned(REQUEST_ID_HEADER), owned(request_id)) })
    }
}

/// The plan for forwarding a request for `request_path` on `route`, with
/// `request_id` as its correlation identifier. A route without a
/// destination is reported as not found.
pub fn plan_forward(route: &RouteConfig, request_path: &str, request_id: &str) -> (r: Result<
    ForwardPlan,
    AppError,
>)
    ensures
        match r {
            Ok(plan) => {
                &&& route@.destinations.len() > 0
                &&& header_value_ok(request_id.spec_bytes())
                &&& plan.url@ == destination_url_text(
                    route@.destinations[0],
                    route@.path,
                    request_path@,
                )
                &&& url_is_forwardable(plan.url@)
                &&& plan.request_id_header.0@ == REQUEST_ID_HEADER@
                &&& plan.request_id_header.1@ == request_id@
            },
            Err(AppError::RouteNotFound) => route@.destinations.len() == 0,
            Err(AppError::InternalServerError) => route@.destinations.len() > 0 && !header_value_ok(
                request_id.spec_bytes(),
            ),
            Err(AppError::InvalidDestination(u)) => {
                &&& route@.destinations.len() > 0
                &&& header_value_ok(request_id.spec_bytes())
                &&& u@ == destination_url_text(route@.destinations[0], route@.path, request_path@)
                &&& !url_is_forwardable(u@)
            },
            Err(_) => false,
        },
{
    match route.primary_destination() {
        None => Err(AppError::RouteNotFound),
        Some(destination) => {
            let url = destination_url(destination.as_str(), route.path.as_str(), request_path);
            let id_valid = header_value_accepted(request_id);
            let url_valid = url_accepted(url.as_str());
            decide_forward(url, request_id, id_valid, url_valid)
        },
    }
}

/// The URL at which a WebSocket connection for `route` is opened. A route
/// without a destination is reported as not found.
pub fn plan_websocket(route: &RouteConfig) -> (r: Result<String, AppError>)
    ensures
        match r {
            Ok(url) => route@.destinations.len() > 0 && url@ == websocket_url_text(
                route@.destinations[0],
            ),
            Err(AppError::RouteNotFound) => route@.destinations.len() == 0,
            Err(_) => false,
        },
{
    match route.primary_destination() {
        None => Err(AppError::RouteNotFound),
        Some(destination) => Ok(websocket_url(destination.as_str())),
    }
}

/// The kinds of WebSocket frame that a relay meets.
#[derive(Clone, Copy, PartialEq, Eq, Debug, Structural)]
pub enum FrameKind {
    Text,
    Binary,
    Ping,
    Pong,
    Close,
    /// A frame that is not a message of its own, such as a raw fragment.
    Other,
}

/// What one direction of a relay has just seen.
#[derive(Clone, Copy, PartialEq, Eq, Debug, Structural)]
pub enum RelayEvent {
    /// A frame arrived from the side that is read.
    Received(FrameKind),
    /// The side that is read has closed or failed.
    ReadEnded,
    /// The frame was handed to the other side.
    Sent,
    /// The other side did not take the frame.
    SendFailed,
}

/// What one direction of a relay does next.
#[derive(Clone, Copy, PartialEq, Eq, Debug, Structural)]
pub enum RelayAction {
    /// Hand the frame to the other side.
    Forward,
    /// Wait for the next frame.
    ReadNext,
    /// End the relay.
    Stop,
}

/// What a direction does on `event` while the relay is running: text,
/// binary, ping and pong frames are forwarded, a close frame or a failure
/// on either side ends the relay, and anything else is passed over.
pub open spec fn relay_decision(event: RelayEvent) -> RelayAction {
    match event {
        RelayEvent::Received(FrameKind::Text) => RelayAction::Forward,
        RelayEvent::Received(FrameKind::Binary) => RelayAction::Forward,
        RelayEvent::Received(FrameKind::Ping) => RelayAction::Forward,
        RelayEvent::Received(FrameKind::Pong) => RelayAction::Forward,
        RelayEvent::Received(FrameKind::Close) => RelayAction::Stop,
        RelayEvent::Received(FrameKind::Other) => RelayAction::ReadNext,
        RelayEvent::ReadEnded => RelayAction::Stop,
        RelayEvent::Sent => RelayAction::ReadNext,
        RelayEvent::SendFailed => RelayAction::Stop,
    }
}

/// A relay between a client and a backend. Both directions report to the
/// same relay; the first of them to end ends it for both.
#[derive(Clone, Copy, PartialEq, Eq, Debug, Structural)]
pub struct Relay {
    pub finished: bool,
}

impl Relay {
    /// A running relay.
    pub fn new() -> (r: Relay)
        ensures
            !r.finished,
    {
        Relay { finished: false }
    }

    /// What the direction that saw `event` does next. Once either
    /// direction was told to stop, every direction is.
    pub fn step(&mut self, event: RelayEvent) -> (action: RelayAction)
        ensures
            action == if old(self).finished {
                RelayAction::Stop
            } else {
                relay_decision(event)
            },
            final(self).finished == (action == RelayAction::Stop),
    {
        if self.finished {
            return RelayAction::Stop;
        }
        let action = match event {
            RelayEvent::Received(FrameKind::Text) => RelayAction::Forward,
            RelayEvent::Received(FrameKind::Binary) => RelayAction::Forward,
            RelayEvent::Received(FrameKind::Ping) => RelayAction::Forward,
            RelayEvent::Received(FrameKind::Pong) => RelayAction::Forward,
            RelayEvent::Received(FrameKind::Close) => RelayAction::Stop,
            RelayEvent::Received(FrameKind::Other) => RelayAction::ReadNext,
            RelayEvent::ReadEnded => RelayAction::Stop,
            RelayEvent::Sent => RelayAction::ReadNext,
            RelayEvent::SendFailed => RelayAction::Stop,
        };
        if action == RelayAction::Stop {
            self.finished = true;
        }
        action
    }
}

} // verus!
