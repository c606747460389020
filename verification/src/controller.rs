//! The connection dispatcher's decisions: classifying a peeked request as
//! plain HTTP or a WebSocket upgrade, and routing a request envelope or a
//! WebSocket path to its handler. The sockets themselves live with the
//! caller; every decision here is a pure function of the request text.

use vstd::prelude::*;

use crate::entity::{Message, RequestData};
use crate::http_helper::{is_route, is_ws_route, spec_is_route, spec_is_ws_route};
use crate::text::{contains_seq, starts_with, str_contains, str_starts_with};

verus! {

/// A WebSocket upgrade announces itself in the peeked bytes.
pub fn is_websocket_upgrade(request: &str) -> (r: bool)
    ensures
        r == contains_seq(request@, "Upgrade: websocket"@),
{
    str_contains(request, "Upgrade: websocket")
}

/// Which controller a plain HTTP request belongs to. The frontend's prefix
/// is empty, so it catches everything the others do not.
#[derive(PartialEq, Eq, Structural, Clone, Copy, Debug)]
pub enum HttpTarget {
    StaticAsset,
    Auth,
    Room,
    Frontend,
}

pub open spec fn spec_routing(path: Seq<char>) -> HttpTarget {
    if starts_with(path, "/static/"@) {
        HttpTarget::StaticAsset
    } else if starts_with(path, "/api/auth"@) {
        HttpTarget::Auth
    } else if starts_with(path, "/api/room"@) {
        HttpTarget::Room
    } else {
        HttpTarget::Frontend
    }
}

pub fn routing(path: &str) -> (r: HttpTarget)
    ensures
        r == spec_routing(path@),
{
    if str_starts_with(path, "/static/") {
        HttpTarget::StaticAsset
    } else if str_starts_with(path, "/api/auth") {
        HttpTarget::Auth
    } else if str_starts_with(path, "/api/room") {
        HttpTarget::Room
    } else {
        HttpTarget::Frontend
    }
}

/// Which sub-router takes a WebSocket connection; anything else is closed
/// with a 404 close frame.
#[derive(PartialEq, Eq, Structural, Clone, Copy, Debug)]
pub enum WsTarget {
    RoomWs,
    MessageWs,
    NotFound,
}

pub open spec fn spec_routing_ws(path: Seq<char>) -> WsTarget {
    if starts_with(path, "/api/room"@) {
        WsTarget::RoomWs
    } else if starts_with(path, "/api/message"@) {
        WsTarget::MessageWs
    } else {
        WsTarget::NotFound
    }
}

pub fn routing_ws(path: &str) -> (r: WsTarget)
    ensures
        r == spec_routing_ws(path@),
{
    if str_starts_with(path, "/api/room") {
        WsTarget::RoomWs
    } else if str_starts_with(path, "/api/message") {
        WsTarget::MessageWs
    } else {
        WsTarget::NotFound
    }
}

/// The auth controller's route table.
#[derive(PartialEq, Eq, Structural, Clone, Copy, Debug)]
pub enum AuthRoute {
    Register,
    Login,
    Me,
    Logout,
    NotFound,
}

pub open spec fn spec_route_auth(method: Seq<char>, path: Seq<char>) -> AuthRoute {
    if spec_is_route("POST"@, "/register"@, "/api/auth"@, method, path) {
        AuthRoute::Register
    } else if spec_is_route("POST"@, "/login"@, "/api/auth"@, method, path) {
        AuthRoute::Login
    } else if spec_is_route("POST"@, "/me"@, "/api/auth"@, method, path) {
        AuthRoute::Me
    } else if spec_is_route("POST"@, "/logout"@, "/api/auth"@, method, path) {
        AuthRoute::Logout
    } else {
        AuthRoute::NotFound
    }
}

pub fn route_auth(data: &mut RequestData) -> (r: AuthRoute)
    ensures
        r == spec_route_auth(old(data).method@, old(data).path@),
        final(data).method == old(data).method,
        final(data).path == old(data).path,
{
    if is_route("POST", "/register", "/api/auth", data) {
        AuthRoute::Register
    } else if is_route("POST", "/login", "/api/auth", data) {
        AuthRoute::Login
    } else if is_route("POST", "/me", "/api/auth", data) {
        AuthRoute::Me
    } else if is_route("POST", "/logout", "/api/auth", data) {
        AuthRoute::Logout
    } else {
        AuthRoute::NotFound
    }
}

/// The frontend controller's route table: the pages themselves are plain
/// templating and live with the caller; only the matching is decided here.
#[derive(PartialEq, Eq, Structural, Clone, Copy, Debug)]
pub enum FrontendRoute {
    Index,
    LoginPage,
    RegisterPage,
    RoomPage,
    NotFound,
}

pub open spec fn spec_route_frontend(method: Seq<char>, path: Seq<char>) -> FrontendRoute {
    if spec_is_route("GET"@, ""@, ""@, method, path) {
        FrontendRoute::Index
    } else if spec_is_route("GET"@, "/login"@, ""@, method, path) {
        FrontendRoute::LoginPage
    } else if spec_is_route("GET"@, "/register"@, ""@, method, path) {
        FrontendRoute::RegisterPage
    } else if spec_is_route("GET"@, "/room"@, ""@, method, path) {
        FrontendRoute::RoomPage
    } else {
        FrontendRoute::NotFound
    }
}

pub fn route_frontend(data: &mut RequestData) -> (r: FrontendRoute)
    ensures
        r == spec_route_frontend(old(data).method@, old(data).path@),
        final(data).method == old(data).method,
        final(data).path == old(data).path,
{
    if is_route("GET", "", "", data) {
        FrontendRoute::Index
    } else if is_route("GET", "/login", "", data) {
        FrontendRoute::LoginPage
    } else if is_route("GET", "/register", "", data) {
        FrontendRoute::RegisterPage
    } else if is_route("GET", "/room", "", data) {
        FrontendRoute::RoomPage
    } else {
        FrontendRoute::NotFound
    }
}

/// The room controller's route table; the single-room route captures the
/// room identity as the `id` parameter.
#[derive(PartialEq, Eq, Structural, Clone, Copy, Debug)]
pub enum RoomRoute {
    RoomList,
    RoomById,
    RoomCreate,
    NotFound,
}

pub open spec fn spec_route_room(method: Seq<char>, path: Seq<char>) -> RoomRoute {
    if spec_is_route("GET"@, ""@, "/api/room"@, method, path) {
        RoomRoute::RoomList
    } else if spec_is_route("GET"@, ":id"@, "/api/room"@, method, path) {
        RoomRoute::RoomById
    } else if spec_is_route("POST"@, ""@, "/api/room"@, method, path) {
        RoomRoute::RoomCreate
    } else {
        RoomRoute::NotFound
    }
}

pub fn route_room(data: &mut RequestData) -> (r: RoomRoute)
    ensures
        r == spec_route_room(old(data).method@, old(data).path@),
        final(data).method == old(data).method,
        final(data).path == old(data).path,
        r == RoomRoute::RoomById ==> final(data).params@ == crate::http_helper::route_params(
            crate::text::split_chars(crate::http_helper::join_path("/api/room"@, ":id"@), '/'),
            crate::text::split_chars(crate::http_helper::strip_query(old(data).path@), '/'),
        ),
{
    if is_route("GET", "", "/api/room", data) {
        RoomRoute::RoomList
    } else if is_route("GET", ":id", "/api/room", data) {
        proof {
            reveal_strlit(":id");
        }
        RoomRoute::RoomById
    } else if is_route("POST", "", "/api/room", data) {
        RoomRoute::RoomCreate
    } else {
        RoomRoute::NotFound
    }
}

/// The room WebSocket sub-router's table.
#[derive(PartialEq, Eq, Structural, Clone, Copy, Debug)]
pub enum RoomWsRoute {
    SendMessage,
    ReceiveMessage,
    ReceiveRooms,
    SendRooms,
    DeleteRooms,
    NotFound,
}

pub open spec fn spec_route_room_ws(path: Seq<char>) -> RoomWsRoute {
    if spec_is_ws_route("/message/send"@, "/api/room"@, path) {
        RoomWsRoute::SendMessage
    } else if spec_is_ws_route("/message/get"@, "/api/room"@, path) {
        RoomWsRoute::ReceiveMessage
    } else if spec_is_ws_route("/get"@, "/api/room"@, path) {
        RoomWsRoute::ReceiveRooms
    } else if spec_is_ws_route("/send"@, "/api/room"@, path) {
        RoomWsRoute::SendRooms
    } else if spec_is_ws_route("/delete"@, "/api/room"@, path) {
        RoomWsRoute::DeleteRooms
    } else {
        RoomWsRoute::NotFound
    }
}

pub fn router_room_ws(path: &str) -> (r: RoomWsRoute)
    ensures
        r == spec_route_room_ws(path@),
{
    if is_ws_route("/message/send", "/api/room", path) {
        RoomWsRoute::SendMessage
    } else if is_ws_route("/message/get", "/api/room", path) {
        RoomWsRoute::ReceiveMessage
    } else if is_ws_route("/get", "/api/room", path) {
        RoomWsRoute::ReceiveRooms
    } else if is_ws_route("/send", "/api/room", path) {
        RoomWsRoute::SendRooms
    } else if is_ws_route("/delete", "/api/room", path) {
        RoomWsRoute::DeleteRooms
    } else {
        RoomWsRoute::NotFound
    }
}

/// The message WebSocket sub-router's table.
#[derive(PartialEq, Eq, Structural, Clone, Copy, Debug)]
pub enum MessageWsRoute {
    Send,
    Receive,
    NotFound,
}

pub open spec fn spec_route_message_ws(path: Seq<char>) -> MessageWsRoute {
    if spec_is_ws_route("/send"@, "/api/message"@, path) {
        MessageWsRoute::Send
    } else if spec_is_ws_route("/get"@, "/api/message"@, path) {
        MessageWsRoute::Receive
    } else {
        MessageWsRoute::NotFound
    }
}

pub fn router_message_ws(path: &str) -> (r: MessageWsRoute)
    ensures
        r == spec_route_message_ws(path@),
{
    if is_ws_route("/send", "/api/message", path) {
        MessageWsRoute::Send
    } else if is_ws_route("/get", "/api/message", path) {
        MessageWsRoute::Receive
    } else {
        MessageWsRoute::NotFound
    }
}

/// One frame from a writing client, as the transport hands it over.
pub enum FrameEvent {
    Text(String),
    Close,
    Other,
}

/// What the message-send loop does with one frame: append its text as a
/// chat message, stop cleanly on a close frame, and ignore anything else.
pub enum FrameAction {
    Append(String),
    Stop,
    Ignore,
}

pub fn send_frame_action(event: FrameEvent) -> (r: FrameAction)
    ensures
        match event {
            FrameEvent::Text(t) => r == FrameAction::Append(t),
            FrameEvent::Close => r == FrameAction::Stop,
            FrameEvent::Other => r == FrameAction::Ignore,
        },
{
    match event {
        FrameEvent::Text(t) => FrameAction::Append(t),
        FrameEvent::Close => FrameAction::Stop,
        FrameEvent::Other => FrameAction::Ignore,
    }
}

/// What a subscription hands the forwarding loop: an item to pass on, a lag
/// notice when the subscriber fell behind the channel's capacity, or the
/// channel's end.
pub enum RecvEvent {
    Item(Message),
    Lagged,
    Closed,
}

/// The forwarding loop's reaction: pass the item on, and end the stream on
/// a lag or a close — a recoverable condition, never a crash.
pub fn recv_forward(event: RecvEvent) -> (r: Option<Message>)
    ensures
        match event {
            RecvEvent::Item(m) => r == Some(m),
            RecvEvent::Lagged => r is None,
            RecvEvent::Closed => r is None,
        },
{
    match event {
        RecvEvent::Item(m) => Some(m),
        RecvEvent::Lagged => None,
        RecvEvent::Closed => None,
    }
}

} // verus!
