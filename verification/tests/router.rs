use chat_server::controller::{
    routing, routing_ws, route_auth, route_room, route_frontend, router_room_ws,
    router_message_ws, is_websocket_upgrade, AuthRoute, FrontendRoute, HttpTarget, MessageWsRoute,
    RoomRoute, RoomWsRoute, WsTarget,
};
use chat_server::entity::RequestData;
use chat_server::http_helper::{is_route, is_ws_route};
use chat_server::strmap::StringMap;

fn request(method: &str, path: &str) -> RequestData {
    RequestData { method: method.to_string(), path: path.to_string(), params: StringMap::new() }
}

#[test]
fn matches_parameter_route_and_captures_id() {
    let mut data = request("GET", "/api/room/42");
    assert!(is_route("GET", ":id", "/api/room", &mut data));
    assert_eq!(data.params.get("id"), Some(&"42".to_string()));
}

#[test]
fn rejects_extra_segment() {
    let mut data = request("GET", "/api/room/42/extra");
    assert!(!is_route("GET", ":id", "/api/room", &mut data));
}

#[test]
fn rejects_wrong_method() {
    let mut data = request("POST", "/api/room/42");
    assert!(!is_route("GET", ":id", "/api/room", &mut data));
}

#[test]
fn empty_template_matches_prefix_and_trailing_slash() {
    let mut data = request("GET", "/api/room");
    assert!(is_route("GET", "", "/api/room", &mut data));
    let mut data = request("GET", "/api/room/");
    assert!(is_route("GET", "", "/api/room", &mut data));
    let mut data = request("GET", "/api/room/x");
    assert!(!is_route("GET", "", "/api/room", &mut data));
}

#[test]
fn query_string_is_stripped_before_matching() {
    let mut data = request("GET", "/api/room/42?verbose=1");
    assert!(is_route("GET", ":id", "/api/room", &mut data));
    assert_eq!(data.params.get("id"), Some(&"42".to_string()));
}

#[test]
fn literal_segments_must_match_exactly() {
    let mut data = request("POST", "/api/auth/login");
    assert!(is_route("POST", "/login", "/api/auth", &mut data));
    let mut data = request("POST", "/api/auth/logim");
    assert!(!is_route("POST", "/login", "/api/auth", &mut data));
}

#[test]
fn successful_match_replaces_previous_params() {
    let mut data = request("GET", "/api/room/42");
    data.params.insert("stale".to_string(), "old".to_string());
    assert!(is_route("GET", ":id", "/api/room", &mut data));
    assert_eq!(data.params.get("stale"), None);
    assert_eq!(data.params.get("id"), Some(&"42".to_string()));
}

#[test]
fn ws_route_matches_with_and_without_slash_and_query() {
    assert!(is_ws_route("/message/send", "/api/room", "/api/room/message/send"));
    assert!(is_ws_route("/message/send", "/api/room", "/api/room/message/send/"));
    assert!(is_ws_route("/message/send", "/api/room", "/api/room/message/send?id=7"));
    assert!(!is_ws_route("/message/send", "/api/room", "/api/room/message/get"));
}

#[test]
fn http_routing_dispatches_by_prefix() {
    assert_eq!(routing("/static/app.css"), HttpTarget::StaticAsset);
    assert_eq!(routing("/api/auth/login"), HttpTarget::Auth);
    assert_eq!(routing("/api/room"), HttpTarget::Room);
    assert_eq!(routing("/login"), HttpTarget::Frontend);
}

#[test]
fn ws_routing_dispatches_by_prefix() {
    assert_eq!(routing_ws("/api/room/get"), WsTarget::RoomWs);
    assert_eq!(routing_ws("/api/message/send"), WsTarget::MessageWs);
    assert_eq!(routing_ws("/elsewhere"), WsTarget::NotFound);
}

#[test]
fn auth_routes() {
    assert_eq!(route_auth(&mut request("POST", "/api/auth/register")), AuthRoute::Register);
    assert_eq!(route_auth(&mut request("POST", "/api/auth/login")), AuthRoute::Login);
    assert_eq!(route_auth(&mut request("POST", "/api/auth/me")), AuthRoute::Me);
    assert_eq!(route_auth(&mut request("POST", "/api/auth/logout")), AuthRoute::Logout);
    assert_eq!(route_auth(&mut request("GET", "/api/auth/login")), AuthRoute::NotFound);
}

#[test]
fn room_routes() {
    assert_eq!(route_room(&mut request("GET", "/api/room")), RoomRoute::RoomList);
    let mut by_id = request("GET", "/api/room/7");
    assert_eq!(route_room(&mut by_id), RoomRoute::RoomById);
    assert_eq!(by_id.params.get("id"), Some(&"7".to_string()));
    assert_eq!(route_room(&mut request("POST", "/api/room")), RoomRoute::RoomCreate);
    assert_eq!(route_room(&mut request("DELETE", "/api/room")), RoomRoute::NotFound);
}

#[test]
fn frontend_routes() {
    assert_eq!(route_frontend(&mut request("GET", "/")), FrontendRoute::Index);
    assert_eq!(route_frontend(&mut request("GET", "/login")), FrontendRoute::LoginPage);
    assert_eq!(route_frontend(&mut request("GET", "/register")), FrontendRoute::RegisterPage);
    assert_eq!(route_frontend(&mut request("GET", "/room")), FrontendRoute::RoomPage);
    assert_eq!(route_frontend(&mut request("GET", "/nowhere")), FrontendRoute::NotFound);
}

#[test]
fn room_ws_routes() {
    assert_eq!(router_room_ws("/api/room/message/send?id=7"), RoomWsRoute::SendMessage);
    assert_eq!(router_room_ws("/api/room/message/get?id=7"), RoomWsRoute::ReceiveMessage);
    assert_eq!(router_room_ws("/api/room/get"), RoomWsRoute::ReceiveRooms);
    assert_eq!(router_room_ws("/api/room/send"), RoomWsRoute::SendRooms);
    assert_eq!(router_room_ws("/api/room/delete"), RoomWsRoute::DeleteRooms);
    assert_eq!(router_room_ws("/api/room/other"), RoomWsRoute::NotFound);
}

#[test]
fn message_ws_routes() {
    assert_eq!(router_message_ws("/api/message/send?id=7"), MessageWsRoute::Send);
    assert_eq!(router_message_ws("/api/message/get?id=7"), MessageWsRoute::Receive);
    assert_eq!(router_message_ws("/api/message/x"), MessageWsRoute::NotFound);
}

#[test]
fn upgrade_detection() {
    assert!(is_websocket_upgrade("GET /api/room/get HTTP/1.1\r\nUpgrade: websocket\r\n\r\n"));
    assert!(!is_websocket_upgrade("GET / HTTP/1.1\r\nHost: localhost\r\n\r\n"));
}
