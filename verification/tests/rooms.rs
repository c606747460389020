use chat_server::broadcast::new_channel;
use chat_server::entity::Room;
use chat_server::room::{
    add_message_to_room, create, delete, get, get_one_by_id, new_room, prepare_message, warm_room,
};

fn lifecycle() -> tokio::sync::broadcast::Sender<Room> {
    new_channel(100)
}

#[test]
fn create_then_list_then_append() {
    let mut rooms: Vec<Room> = Vec::new();
    let tx = lifecycle();
    let room = new_room("general".to_string());
    let room_id = room.id.clone();
    create(&mut rooms, &tx, room);

    let listed = get(&rooms);
    assert_eq!(listed.len(), 1);
    assert_eq!(listed[0].name, "general");
    assert!(listed[0].messages.is_empty());

    let message = prepare_message(&rooms, &room_id, "alice".to_string(), "hi".to_string())
        .unwrap();
    assert_eq!(message.username, "alice");
    assert_eq!(message.content, "hi");
    assert_eq!(message.id.len(), 36);
    add_message_to_room(&mut rooms, &room_id, message).unwrap();

    let fetched = get_one_by_id(&rooms, &room_id).unwrap();
    assert_eq!(fetched.messages.len(), 1);
    assert_eq!(fetched.messages[0].username, "alice");
    assert_eq!(fetched.messages[0].content, "hi");
}

#[test]
fn append_to_unknown_room_reports_the_id_and_changes_nothing() {
    let mut rooms: Vec<Room> = Vec::new();
    let tx = lifecycle();
    create(&mut rooms, &tx, new_room("general".to_string()));
    let before_id = rooms[0].id.clone();

    let prepared = prepare_message(&rooms, "nope", "alice".to_string(), "hi".to_string());
    assert_eq!(prepared.unwrap_err(), "Room with id nope not found");

    let message = prepare_message(&rooms, &before_id, "alice".to_string(), "hi".to_string())
        .unwrap();
    let committed = add_message_to_room(&mut rooms, "nope", message);
    assert_eq!(committed.unwrap_err(), "Room with id nope not found");
    assert_eq!(rooms.len(), 1);
    assert!(rooms[0].messages.is_empty());
}

#[test]
fn broadcast_fans_out_to_every_subscriber_in_publish_order() {
    let mut rooms: Vec<Room> = Vec::new();
    let tx = lifecycle();
    let room = new_room("general".to_string());
    let room_id = room.id.clone();
    let mut rx1 = room.sender.subscribe();
    let mut rx2 = room.sender.subscribe();
    create(&mut rooms, &tx, room);

    for content in ["one", "two"] {
        let m = prepare_message(&rooms, &room_id, "alice".to_string(), content.to_string())
            .unwrap();
        add_message_to_room(&mut rooms, &room_id, m).unwrap();
    }

    for rx in [&mut rx1, &mut rx2] {
        let first = rx.try_recv().unwrap();
        let second = rx.try_recv().unwrap();
        assert_eq!(first.content, "one");
        assert_eq!(second.content, "two");
        assert!(rx.try_recv().is_err());
    }
}

#[test]
fn a_cloned_room_shares_its_channel() {
    let mut rooms: Vec<Room> = Vec::new();
    let tx = lifecycle();
    let room = new_room("general".to_string());
    let room_id = room.id.clone();
    create(&mut rooms, &tx, room);

    // The receive flow clones the room out of the cache and subscribes on
    // the clone; the publish inside the append must still reach it.
    let cloned = get_one_by_id(&rooms, &room_id).unwrap();
    let mut rx = cloned.sender.subscribe();
    let m = prepare_message(&rooms, &room_id, "alice".to_string(), "hi".to_string()).unwrap();
    add_message_to_room(&mut rooms, &room_id, m).unwrap();
    assert_eq!(rx.try_recv().unwrap().content, "hi");
}

#[test]
fn publish_without_subscribers_is_not_an_error() {
    let mut rooms: Vec<Room> = Vec::new();
    let tx = lifecycle();
    let room = new_room("general".to_string());
    let room_id = room.id.clone();
    create(&mut rooms, &tx, room);

    let m = prepare_message(&rooms, &room_id, "alice".to_string(), "hi".to_string()).unwrap();
    assert!(add_message_to_room(&mut rooms, &room_id, m).is_ok());
    assert_eq!(rooms[0].messages.len(), 1);
}

#[test]
fn room_lifecycle_events_reach_list_subscribers() {
    let mut rooms: Vec<Room> = Vec::new();
    let tx = lifecycle();
    let mut rx = tx.subscribe();

    let room = new_room("general".to_string());
    let room_id = room.id.clone();
    create(&mut rooms, &tx, room);
    assert_eq!(rx.try_recv().unwrap().name, "general");

    let removed = delete(&mut rooms, &tx, &room_id).unwrap();
    assert_eq!(removed.id, room_id);
    assert_eq!(rx.try_recv().unwrap().id, room_id);
    assert!(rooms.is_empty());
    assert!(delete(&mut rooms, &tx, &room_id).is_none());
}

#[test]
fn warm_room_upserts_by_identity() {
    let mut rooms: Vec<Room> = Vec::new();
    warm_room(&mut rooms, "r1".to_string(), "general".to_string(), Vec::new());
    assert_eq!(rooms.len(), 1);
    assert!(get_one_by_id(&rooms, "r1").is_some());

    let history = vec![chat_server::entity::Message {
        id: "m1".to_string(),
        username: "alice".to_string(),
        content: "hello".to_string(),
        date: "2024-01-01T00:00:00+00:00".to_string(),
    }];
    warm_room(&mut rooms, "r1".to_string(), "general".to_string(), history);
    assert_eq!(rooms.len(), 1);
    assert_eq!(get_one_by_id(&rooms, "r1").unwrap().messages.len(), 1);

    warm_room(&mut rooms, "r2".to_string(), "random".to_string(), Vec::new());
    assert_eq!(rooms.len(), 2);
}

#[test]
fn message_dates_come_from_the_clock_in_rfc3339_shape() {
    let mut rooms: Vec<Room> = Vec::new();
    let tx = lifecycle();
    let room = new_room("general".to_string());
    let room_id = room.id.clone();
    create(&mut rooms, &tx, room);
    let m = prepare_message(&rooms, &room_id, "alice".to_string(), "hi".to_string()).unwrap();
    assert!(m.date.contains('T'));
    assert!(m.date.len() >= 20);
}
