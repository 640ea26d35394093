use ws_room_server::database::db_local::DatabaseLocal;
use ws_room_server::database::db_trait::{
    GetRequest, IDatabase, ItemResponse, QueryRequest, Rows, WriteRequest,
};
use ws_room_server::database::item::Item;
use ws_room_server::database::websocket_table::WebsocketTable;
use ws_room_server::domain::errors::{ErrorKind, LogicError};
use ws_room_server::domain::message::Message;
use ws_room_server::domain::websocket_record::WebsocketRecord;
use ws_room_server::notifier::notifier_fake::NotifierFake;
use ws_room_server::notifier::notifier_trait::{History, INotifier};
use ws_room_server::service::event::handle_event;
use ws_room_server::service::on_connect::on_connect;
use ws_room_server::service::on_disconnect::on_disconnect;
use ws_room_server::service::on_message::{notify_room, on_message};

/// A store that answers every request with `StoreUnavailable`.
struct DownStore;

fn down() -> LogicError {
    LogicError::StoreUnavailable("down".to_string())
}

impl IDatabase for DownStore {
    fn rows(&self) -> Rows {
        unreachable!("the table of a store is never computed")
    }

    fn read_single(&self, _request: GetRequest) -> Result<ItemResponse, LogicError> {
        Err(down())
    }

    fn write(&mut self, _items: Vec<WriteRequest>) -> Result<(), LogicError> {
        Err(down())
    }

    fn write_single(&mut self, _item: WriteRequest) -> Result<(), LogicError> {
        Err(down())
    }

    fn query(&self, _query: QueryRequest) -> Result<Vec<Item>, LogicError> {
        Err(down())
    }
}

/// A store that reads from a table and refuses every write.
struct ReadOnlyStore {
    inner: DatabaseLocal,
}

impl IDatabase for ReadOnlyStore {
    fn rows(&self) -> Rows {
        unreachable!("the table of a store is never computed")
    }

    fn read_single(&self, request: GetRequest) -> Result<ItemResponse, LogicError> {
        self.inner.read_single(request)
    }

    fn write(&mut self, _items: Vec<WriteRequest>) -> Result<(), LogicError> {
        Err(down())
    }

    fn write_single(&mut self, _item: WriteRequest) -> Result<(), LogicError> {
        Err(down())
    }

    fn query(&self, query: QueryRequest) -> Result<Vec<Item>, LogicError> {
        self.inner.query(query)
    }
}

/// A channel that cannot reach one connection and records the others.
struct PartialNotifier {
    unreachable: String,
    reached: Vec<String>,
}

impl INotifier for PartialNotifier {
    fn sent(&self) -> History {
        unreachable!("the history of a channel is never computed")
    }

    fn notify(&mut self, id: &str, _message: &Message) -> Result<(), LogicError> {
        if id == self.unreachable {
            return Err(LogicError::DeliveryFailure(format!("cannot reach {}", id)));
        }
        self.reached.push(id.to_string());
        Ok(())
    }
}

#[test]
fn handlers_surface_store_unavailable() {
    let mut db = DownStore;
    let mut notifier = NotifierFake::new();
    assert_eq!(on_connect("a", &mut db).unwrap_err(), down());
    assert_eq!(on_disconnect("a", &mut db).unwrap_err(), down());
    assert_eq!(on_message("a", "hello", &mut notifier, &mut db).unwrap_err(), down());
    assert_eq!(
        on_message("a", "UserUpdate:RoomId=r&Name=n", &mut notifier, &mut db).unwrap_err(),
        down()
    );
    assert_eq!(handle_event("a", "$connect", "", &mut notifier, &mut db).unwrap_err(), down());
    assert_eq!(WebsocketTable::from_db("a", &db).unwrap_err().kind(), ErrorKind::StoreUnavailable);
    assert_eq!(
        WebsocketTable::get_room_connections("r", &db).unwrap_err().kind(),
        ErrorKind::StoreUnavailable
    );
    assert_eq!(notifier.len(), 0);
}

#[test]
fn bad_request_comes_before_any_store_access() {
    let mut db = DownStore;
    let mut notifier = NotifierFake::new();
    let err = on_message("a", "UserUpdate:RoomId=r", &mut notifier, &mut db).unwrap_err();
    assert_eq!(err.kind(), ErrorKind::BadRequest);
    let err = handle_event("a", "$nothing", "", &mut notifier, &mut db).unwrap_err();
    assert_eq!(err.kind(), ErrorKind::BadRequest);
}

#[test]
fn failed_write_of_an_update_leaves_the_record() {
    let mut inner = DatabaseLocal::new();
    WebsocketTable::to_db(&WebsocketRecord::from_parts("a", "r0", "n0", 1), &mut inner).unwrap();
    let mut db = ReadOnlyStore { inner };
    let mut notifier = NotifierFake::new();
    let err = on_message("a", "UserUpdate:RoomId=r&Name=n", &mut notifier, &mut db).unwrap_err();
    assert_eq!(err.kind(), ErrorKind::StoreUnavailable);
    assert_eq!(on_disconnect("a", &mut db).unwrap_err().kind(), ErrorKind::StoreUnavailable);
    let record = WebsocketTable::from_db("a", &db).unwrap();
    assert_eq!(record.room_id, "r0");
    assert_eq!(record.name, "n0");
}

#[test]
fn fan_out_stops_at_the_first_connection_that_cannot_be_reached() {
    let records = vec![
        WebsocketRecord::from_parts("a", "r", "n", 1),
        WebsocketRecord::from_parts("b", "r", "n", 1),
        WebsocketRecord::from_parts("c", "r", "n", 1),
    ];
    let message = Message { author_name: "n".to_string(), text: "t".to_string(), sent_at: 0 };
    let mut notifier = PartialNotifier { unreachable: "b".to_string(), reached: Vec::new() };
    let err = notify_room(&records, &message, &mut notifier).unwrap_err();
    assert_eq!(err, LogicError::DeliveryFailure("cannot reach b".to_string()));
    assert_eq!(notifier.reached, vec!["a".to_string()]);
}

#[test]
fn chat_reports_a_delivery_failure_and_leaves_the_store() {
    let mut db = DatabaseLocal::new();
    WebsocketTable::to_db(&WebsocketRecord::from_parts("a", "r", "ann", 1), &mut db).unwrap();
    WebsocketTable::to_db(&WebsocketRecord::from_parts("b", "r", "bob", 1), &mut db).unwrap();
    let mut notifier = PartialNotifier { unreachable: "b".to_string(), reached: Vec::new() };
    let err = on_message("a", "hello", &mut notifier, &mut db).unwrap_err();
    assert_eq!(err.kind(), ErrorKind::DeliveryFailure);
    assert!(notifier.reached.len() <= 1);
    assert!(WebsocketTable::from_db("a", &db).is_ok());
    assert!(WebsocketTable::from_db("b", &db).is_ok());
    let mut open = PartialNotifier { unreachable: "zz".to_string(), reached: Vec::new() };
    on_message("b", "hello", &mut open, &mut db).unwrap();
    open.reached.sort();
    assert_eq!(open.reached, vec!["a".to_string(), "b".to_string()]);
}
