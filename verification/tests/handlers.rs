use ws_room_server::database::db_local::DatabaseLocal;
use ws_room_server::database::db_trait::IDatabase;
use ws_room_server::database::websocket_table::WebsocketTable;
use ws_room_server::domain::errors::{ErrorKind, LogicError};
use ws_room_server::domain::websocket_record::WebsocketRecord;
use ws_room_server::notifier::notifier_fake::NotifierFake;
use ws_room_server::service::event::{handle_event, parse_route, Route};
use ws_room_server::service::on_connect::on_connect;
use ws_room_server::service::on_disconnect::on_disconnect;
use ws_room_server::service::socket::{on_socket_event, SocketEvent, SocketStep};
use ws_room_server::service::on_message::{
    on_message, on_message_at, parse_user_update_request, update_text_body,
};

const USER_UPDATE_PREFIX: &str = "UserUpdate:";

fn text_of(payload: &str) -> String {
    let value: serde_json::Value = serde_json::from_str(payload).unwrap();
    value.get("text").unwrap().as_str().unwrap().to_string()
}

#[test]
fn test_creates_new_record() {
    let id = "test";
    let mut db = DatabaseLocal::new();
    let result = on_connect(id, &mut db);
    assert!(result.is_ok());
    let record = WebsocketTable::from_db(id, &db);
    assert!(record.is_ok());
}

#[test]
fn test_deletes_record() {
    let id = "test";
    let mut db = DatabaseLocal::new();
    WebsocketTable::to_db(&WebsocketRecord::new(id), &mut db).unwrap();
    let result = on_disconnect(id, &mut db);
    assert!(result.is_ok());
    let record = WebsocketTable::from_db(id, &db);
    assert!(record.is_err());
}

#[test]
fn test_user_change_updates_record() {
    let id = "test";
    let room_id = "room";
    let name = "name";
    let text = format!("{}RoomId={}&Name={}", USER_UPDATE_PREFIX, room_id, name);
    let mut db = DatabaseLocal::new();
    WebsocketTable::to_db(&WebsocketRecord::new(id), &mut db).unwrap();
    let mut notifier = NotifierFake::new();
    let result = on_message(id, &text, &mut notifier, &mut db);
    assert!(result.is_ok());
    let record = WebsocketTable::from_db(id, &db).unwrap();
    assert!(record.room_id == room_id);
    assert!(record.name == name);
}

#[test]
fn test_message_notifies_room() {
    // 3 records, 2 in the same room
    let id1 = "test1";
    let id2 = "test2";
    let id3 = "test3";
    let room = "room";
    let text = "hello";
    let mut db = DatabaseLocal::new();
    db.write(vec![
        WebsocketTable::save(&WebsocketRecord::new_with_room(id1, room)).unwrap(),
        WebsocketTable::save(&WebsocketRecord::new_with_room(id2, room)).unwrap(),
        WebsocketTable::save(&WebsocketRecord::new(id3)).unwrap(),
    ])
    .unwrap();
    let mut notifier_fake = NotifierFake::new();
    on_message(id1, text, &mut notifier_fake, &mut db).unwrap();
    let log1 = notifier_fake.get_log(id1);
    let log2 = notifier_fake.get_log(id2);
    let log3 = notifier_fake.get_log(id3);
    assert_eq!(log1.len(), 1);
    assert_eq!(log2.len(), 1);
    assert_eq!(log3.len(), 0);
    let message1 = text_of(&log1[0]);
    let message2 = text_of(&log1[0]);
    assert_eq!(message1, text);
    assert_eq!(message2, text);
}

#[test]
fn connect_stores_a_record_with_fresh_room_and_name() {
    let mut db = DatabaseLocal::new();
    on_connect("c-1", &mut db).unwrap();
    let record = WebsocketTable::from_db("c-1", &db).unwrap();
    assert_eq!(record.id, "c-1");
    assert_eq!(record.room_id.len(), 36);
    assert_eq!(record.name.len(), 36);
    assert_ne!(record.room_id, record.name);
    assert!(record.modified_at > 0);
}

#[test]
fn connect_twice_replaces_the_record() {
    let mut db = DatabaseLocal::new();
    on_connect("c-1", &mut db).unwrap();
    let first = WebsocketTable::from_db("c-1", &db).unwrap();
    on_connect("c-1", &mut db).unwrap();
    let second = WebsocketTable::from_db("c-1", &db).unwrap();
    assert_ne!(first.room_id, second.room_id);
    assert!(first.modified_at <= second.modified_at);
}

#[test]
fn connects_with_distinct_ids_keep_every_record() {
    let mut db = DatabaseLocal::new();
    let ids = ["a", "b", "c", "d", "e"];
    for id in ids {
        on_connect(id, &mut db).unwrap();
    }
    let mut rooms = Vec::new();
    for id in ids {
        let record = WebsocketTable::from_db(id, &db).unwrap();
        assert_eq!(record.id, id);
        rooms.push(record.room_id);
    }
    on_connect("f", &mut db).unwrap();
    for (i, id) in ids.iter().enumerate() {
        assert_eq!(WebsocketTable::from_db(id, &db).unwrap().room_id, rooms[i]);
    }
}

#[test]
fn disconnect_after_connect_gives_not_found() {
    let mut db = DatabaseLocal::new();
    on_connect("gone", &mut db).unwrap();
    on_connect("stays", &mut db).unwrap();
    on_disconnect("gone", &mut db).unwrap();
    let err = WebsocketTable::from_db("gone", &db).unwrap_err();
    assert_eq!(err.kind(), ErrorKind::NotFound);
    assert!(WebsocketTable::from_db("stays", &db).is_ok());
}

#[test]
fn disconnect_of_unknown_connection_is_not_found() {
    let mut db = DatabaseLocal::new();
    on_connect("known", &mut db).unwrap();
    let err = on_disconnect("unknown", &mut db).unwrap_err();
    assert_eq!(err.kind(), ErrorKind::NotFound);
    assert!(WebsocketTable::from_db("known", &db).is_ok());
    let again = on_disconnect("known", &mut db);
    assert!(again.is_ok());
    let err = on_disconnect("known", &mut db).unwrap_err();
    assert_eq!(err.kind(), ErrorKind::NotFound);
}

#[test]
fn update_sets_room_and_name_and_keeps_id() {
    let mut db = DatabaseLocal::new();
    let mut notifier = NotifierFake::new();
    WebsocketTable::to_db(&WebsocketRecord::from_parts("me", "r0", "n0", 5), &mut db).unwrap();
    on_connect("other", &mut db).unwrap();
    let other_before = WebsocketTable::from_db("other", &db).unwrap();
    on_message_at("me", "UserUpdate:RoomId=room&Name=name", 77, &mut notifier, &mut db).unwrap();
    let record = WebsocketTable::from_db("me", &db).unwrap();
    assert_eq!(record.id, "me");
    assert_eq!(record.room_id, "room");
    assert_eq!(record.name, "name");
    assert_eq!(record.modified_at, 77);
    let other_after = WebsocketTable::from_db("other", &db).unwrap();
    assert_eq!(other_before.room_id, other_after.room_id);
    assert_eq!(other_before.name, other_after.name);
    assert_eq!(notifier.len(), 0);
}

#[test]
fn update_without_name_is_bad_request_and_changes_nothing() {
    let mut db = DatabaseLocal::new();
    let mut notifier = NotifierFake::new();
    WebsocketTable::to_db(&WebsocketRecord::from_parts("me", "r0", "n0", 5), &mut db).unwrap();
    let err = on_message("me", "UserUpdate:RoomId=room", &mut notifier, &mut db).unwrap_err();
    assert_eq!(err, LogicError::BadRequest("Invalid user update request".to_string()));
    let record = WebsocketTable::from_db("me", &db).unwrap();
    assert_eq!(record.room_id, "r0");
    assert_eq!(record.name, "n0");
    assert_eq!(record.modified_at, 5);
    assert_eq!(notifier.len(), 0);
}

#[test]
fn update_without_room_is_bad_request() {
    let mut db = DatabaseLocal::new();
    let mut notifier = NotifierFake::new();
    let err = on_message("nobody", "UserUpdate:Name=n", &mut notifier, &mut db).unwrap_err();
    assert_eq!(err.kind(), ErrorKind::BadRequest);
}

#[test]
fn update_from_unknown_connection_is_not_found() {
    let mut db = DatabaseLocal::new();
    let mut notifier = NotifierFake::new();
    let err = on_message("nobody", "UserUpdate:RoomId=r&Name=n", &mut notifier, &mut db)
        .unwrap_err();
    assert_eq!(err.kind(), ErrorKind::NotFound);
    assert!(WebsocketTable::from_db("nobody", &db).is_err());
}

#[test]
fn chat_from_unknown_connection_is_not_found() {
    let mut db = DatabaseLocal::new();
    let mut notifier = NotifierFake::new();
    let err = on_message("nobody", "hello", &mut notifier, &mut db).unwrap_err();
    assert_eq!(err.kind(), ErrorKind::NotFound);
    assert_eq!(notifier.len(), 0);
}

#[test]
fn chat_goes_once_to_each_member_and_to_no_one_else() {
    let mut db = DatabaseLocal::new();
    let mut notifier = NotifierFake::new();
    WebsocketTable::to_db(&WebsocketRecord::from_parts("a", "room", "ann", 1), &mut db).unwrap();
    WebsocketTable::to_db(&WebsocketRecord::from_parts("b", "room", "bob", 2), &mut db).unwrap();
    WebsocketTable::to_db(&WebsocketRecord::from_parts("c", "else", "cat", 3), &mut db).unwrap();
    on_message_at("a", "hello", 0, &mut notifier, &mut db).unwrap();
    let expected = "{\"author_name\":\"ann\",\"text\":\"hello\",\"sent_at\":\"1970-01-01T00:00:00+00:00\"}";
    assert_eq!(notifier.get_log("a"), vec![expected.to_string()]);
    assert_eq!(notifier.get_log("b"), vec![expected.to_string()]);
    assert_eq!(notifier.get_log("c"), Vec::<String>::new());
    assert_eq!(notifier.len(), 2);
    assert_eq!(WebsocketTable::from_db("a", &db).unwrap().name, "ann");
}

#[test]
fn chat_after_moving_rooms_reaches_the_new_room() {
    let mut db = DatabaseLocal::new();
    let mut notifier = NotifierFake::new();
    WebsocketTable::to_db(&WebsocketRecord::from_parts("a", "one", "ann", 1), &mut db).unwrap();
    WebsocketTable::to_db(&WebsocketRecord::from_parts("b", "two", "bob", 2), &mut db).unwrap();
    on_message("a", "first", &mut notifier, &mut db).unwrap();
    assert_eq!(notifier.get_log("a").len(), 1);
    assert_eq!(notifier.get_log("b").len(), 0);
    on_message("a", "UserUpdate:Name=anna&RoomId=two", &mut notifier, &mut db).unwrap();
    on_message("a", "second", &mut notifier, &mut db).unwrap();
    let log_a = notifier.get_log("a");
    let log_b = notifier.get_log("b");
    assert_eq!(log_a.len(), 2);
    assert_eq!(log_b.len(), 1);
    assert_eq!(text_of(&log_a[0]), "first");
    assert_eq!(text_of(&log_a[1]), "second");
    assert_eq!(text_of(&log_b[0]), "second");
    let value: serde_json::Value = serde_json::from_str(&log_b[0]).unwrap();
    assert_eq!(value.get("author_name").unwrap().as_str().unwrap(), "anna");
}

#[test]
fn chat_with_a_time_out_of_range_is_a_delivery_failure() {
    let mut db = DatabaseLocal::new();
    let mut notifier = NotifierFake::new();
    WebsocketTable::to_db(&WebsocketRecord::from_parts("a", "room", "ann", 1), &mut db).unwrap();
    let err = on_message_at("a", "hello", i64::MAX, &mut notifier, &mut db).unwrap_err();
    assert_eq!(err.kind(), ErrorKind::DeliveryFailure);
    assert_eq!(notifier.len(), 0);
}

#[test]
fn parse_reads_both_fields() {
    let (room, name) = parse_user_update_request("RoomId=room&Name=name").unwrap();
    assert_eq!(room, "room");
    assert_eq!(name, "name");
}

#[test]
fn parse_takes_the_fields_in_any_order_and_ignores_other_keys() {
    let (room, name) = parse_user_update_request("x=1&Name=n&y&RoomId=r&z=2").unwrap();
    assert_eq!(room, "r");
    assert_eq!(name, "n");
}

#[test]
fn parse_reads_its_input_as_it_stands() {
    assert_eq!(
        parse_user_update_request("RoomId=r&Name=n").unwrap(),
        ("r".to_string(), "n".to_string())
    );
    let err = parse_user_update_request("UserUpdate:RoomId=r&Name=n").unwrap_err();
    assert_eq!(err, LogicError::BadRequest("Invalid user update request".to_string()));
    let err = parse_user_update_request("Name=n&UserUpdate:RoomId=r").unwrap_err();
    assert_eq!(err.kind(), ErrorKind::BadRequest);
}

#[test]
fn update_with_a_repeated_prefix_is_bad_request_and_changes_nothing() {
    let mut db = DatabaseLocal::new();
    let mut notifier = NotifierFake::new();
    WebsocketTable::to_db(&WebsocketRecord::from_parts("me", "r0", "n0", 5), &mut db).unwrap();
    let err = on_message("me", "UserUpdate:UserUpdate:RoomId=r&Name=n", &mut notifier, &mut db)
        .unwrap_err();
    assert_eq!(err.kind(), ErrorKind::BadRequest);
    let record = WebsocketTable::from_db("me", &db).unwrap();
    assert_eq!(record.room_id, "r0");
    assert_eq!(record.name, "n0");
    assert_eq!(record.modified_at, 5);
    assert_eq!(notifier.len(), 0);
}

#[test]
fn update_body_is_what_follows_the_one_prefix() {
    assert_eq!(update_text_body("UserUpdate:RoomId=r&Name=n"), Some("RoomId=r&Name=n"));
    assert_eq!(update_text_body("UserUpdate:UserUpdate:x"), Some("UserUpdate:x"));
    assert_eq!(update_text_body("UserUpdate:"), Some(""));
    assert_eq!(update_text_body("UserUpdate:\u{e9}=\u{4f60}"), Some("\u{e9}=\u{4f60}"));
    assert_eq!(update_text_body("UserUpdat"), None);
    assert_eq!(update_text_body("hello UserUpdate:"), None);
    assert_eq!(update_text_body(""), None);
}

#[test]
fn parse_splits_a_pair_on_its_first_equals_sign() {
    let (room, name) = parse_user_update_request("RoomId=a=b&Name==").unwrap();
    assert_eq!(room, "a=b");
    assert_eq!(name, "=");
}

#[test]
fn parse_accepts_empty_values() {
    let (room, name) = parse_user_update_request("RoomId=&Name=").unwrap();
    assert_eq!(room, "");
    assert_eq!(name, "");
}

#[test]
fn parse_lets_the_last_pair_of_a_key_decide() {
    let (room, name) = parse_user_update_request("RoomId=a&Name=n&RoomId=b").unwrap();
    assert_eq!(room, "b");
    assert_eq!(name, "n");
    let err = parse_user_update_request("RoomId=a&Name=n&RoomId").unwrap_err();
    assert_eq!(err.kind(), ErrorKind::BadRequest);
}

#[test]
fn parse_keeps_characters_outside_ascii() {
    let (room, name) = parse_user_update_request("RoomId=caf\u{e9}&Name=\u{4f60}\u{597d}")
        .unwrap();
    assert_eq!(room, "caf\u{e9}");
    assert_eq!(name, "\u{4f60}\u{597d}");
}

#[test]
fn parse_refuses_texts_with_a_field_missing() {
    for text in ["", "&", "RoomId=room", "Name=n", "RoomId&Name", "roomid=r&name=n",
        " RoomId=r&Name=n", "RoomId=r&Name", "UserUpdate:RoomId=r&Name=n"]
    {
        let err = parse_user_update_request(text).unwrap_err();
        assert_eq!(err, LogicError::BadRequest("Invalid user update request".to_string()));
    }
}

#[test]
fn update_prefix_is_recognised_only_at_the_start() {
    assert!(update_text_body("UserUpdate:").is_some());
    assert!(update_text_body("UserUpdate:RoomId=r").is_some());
    assert!(update_text_body("UserUpdate").is_none());
    assert!(update_text_body(" UserUpdate:RoomId=r").is_none());
    assert!(update_text_body("userupdate:RoomId=r").is_none());
    assert!(update_text_body("").is_none());
}

#[test]
fn route_keys_name_their_routes() {
    assert_eq!(parse_route("$connect").unwrap(), Route::Connect);
    assert_eq!(parse_route("$disconnect").unwrap(), Route::Disconnect);
    assert_eq!(parse_route("$default").unwrap(), Route::Message);
    let err = parse_route("connect").unwrap_err();
    assert_eq!(err, LogicError::BadRequest("unrecognised route key".to_string()));
}

#[test]
fn events_go_to_their_handlers() {
    let mut db = DatabaseLocal::new();
    let mut notifier = NotifierFake::new();
    handle_event("a", "$connect", "", &mut notifier, &mut db).unwrap();
    handle_event("b", "$connect", "", &mut notifier, &mut db).unwrap();
    handle_event("a", "$default", "UserUpdate:RoomId=r&Name=ann", &mut notifier, &mut db).unwrap();
    handle_event("b", "$default", "UserUpdate:RoomId=r&Name=bob", &mut notifier, &mut db).unwrap();
    handle_event("b", "$default", "hi", &mut notifier, &mut db).unwrap();
    assert_eq!(notifier.get_log("a").len(), 1);
    assert_eq!(notifier.get_log("b").len(), 1);
    assert_eq!(text_of(&notifier.get_log("a")[0]), "hi");
    handle_event("a", "$disconnect", "", &mut notifier, &mut db).unwrap();
    assert_eq!(WebsocketTable::from_db("a", &db).unwrap_err().kind(), ErrorKind::NotFound);
    let err = handle_event("b", "$other", "hi", &mut notifier, &mut db).unwrap_err();
    assert_eq!(err.kind(), ErrorKind::BadRequest);
    assert_eq!(notifier.len(), 2);
    assert!(WebsocketTable::from_db("b", &db).is_ok());
}

#[test]
fn socket_events_decide_the_next_step() {
    let mut db = DatabaseLocal::new();
    let mut notifier = NotifierFake::new();
    on_connect("a", &mut db).unwrap();
    let text = SocketEvent::Text("hello".to_string());
    assert_eq!(on_socket_event("a", &text, &mut notifier, &mut db), SocketStep::Continue);
    assert_eq!(notifier.get_log("a").len(), 1);
    assert_eq!(on_socket_event("a", &SocketEvent::Other, &mut notifier, &mut db), SocketStep::Continue);
    let bad = SocketEvent::Text("UserUpdate:RoomId=r".to_string());
    assert_eq!(on_socket_event("a", &bad, &mut notifier, &mut db), SocketStep::Close);
    assert_eq!(on_socket_event("a", &SocketEvent::Closed, &mut notifier, &mut db), SocketStep::Close);
    assert_eq!(on_socket_event("nobody", &text, &mut notifier, &mut db), SocketStep::Close);
    assert_eq!(notifier.len(), 1);
    assert!(WebsocketTable::from_db("a", &db).is_ok());
}

#[test]
fn update_at_an_earlier_time_keeps_the_time_of_the_record() {
    let mut db = DatabaseLocal::new();
    let mut notifier = NotifierFake::new();
    WebsocketTable::to_db(&WebsocketRecord::from_parts("me", "r0", "n0", 100), &mut db).unwrap();
    on_message_at("me", "UserUpdate:RoomId=r1&Name=n1", 50, &mut notifier, &mut db).unwrap();
    let record = WebsocketTable::from_db("me", &db).unwrap();
    assert_eq!(record.room_id, "r1");
    assert_eq!(record.name, "n1");
    assert_eq!(record.modified_at, 100);
    on_message_at("me", "UserUpdate:RoomId=r2&Name=n2", 100, &mut notifier, &mut db).unwrap();
    assert_eq!(WebsocketTable::from_db("me", &db).unwrap().modified_at, 100);
    on_message_at("me", "UserUpdate:RoomId=r3&Name=n3", 101, &mut notifier, &mut db).unwrap();
    assert_eq!(WebsocketTable::from_db("me", &db).unwrap().modified_at, 101);
}
