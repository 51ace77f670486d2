use pinhole::capabilities::{Capability, CapabilitySet};
use pinhole::form::{convert_form_state, FormValue, LocalFormState, LocalFormValue};
use pinhole::messages::{Action, ClientToServerMessage, ErrorCode};
use pinhole::server::{after_handler, check_capability, AfterHandler, Dispatch, ServerConnection};
use pinhole::router::RoutePattern;
use pinhole::session::{ClientSession, Inbound, Step};
use pinhole::state::{StateMap, StateValue, StorageScope};
use pinhole::storage::StorageManager;

fn session() -> ClientSession {
    ClientSession::new(StorageManager::new_with_dir(
        "localhost:8443".to_string(),
        "/tmp/pinhole".to_string(),
        Vec::new(),
    ))
}

fn routes() -> Vec<RoutePattern> {
    vec![RoutePattern::new("/hello"), RoutePattern::new("/counter")]
}

fn hello() -> ClientToServerMessage {
    let mut caps = CapabilitySet::new();
    caps.add(Capability::CORE_V1);
    ClientToServerMessage::ClientHello { capabilities: caps }
}

#[test]
fn first_client_message_is_hello() {
    let mut s = session();
    let out = s.on_connected();
    assert_eq!(out.len(), 1);
    match &out[0] {
        ClientToServerMessage::ClientHello { capabilities } => {
            assert_eq!(capabilities.len(), 1);
            assert!(capabilities.contains("pinhole:core:v1"));
        }
        _ => panic!("expected ClientHello"),
    }
}

#[test]
fn handshake_negotiates_core() {
    let mut conn = ServerConnection::new();
    match conn.dispatch(&routes(), &hello()) {
        Dispatch::Hello { capabilities } => {
            assert_eq!(capabilities.len(), 1);
            assert!(capabilities.contains("pinhole:core:v1"));
        }
        _ => panic!("expected Hello"),
    }
    assert!(conn.capabilities().contains("pinhole:core:v1"));
    assert_eq!(conn.message_count(), 1);
}

#[test]
fn load_before_hello_is_refused() {
    let mut conn = ServerConnection::new();
    let load = ClientToServerMessage::Load { path: "/hello".to_string(), storage: StateMap::new() };
    match conn.dispatch(&routes(), &load) {
        Dispatch::Reject { code, .. } => assert_eq!(code, ErrorCode::BadRequest),
        _ => panic!("expected a refusal"),
    }
}

#[test]
fn load_renders_matching_route() {
    let mut conn = ServerConnection::new();
    conn.dispatch(&routes(), &hello());
    let load = ClientToServerMessage::Load { path: "/hello".to_string(), storage: StateMap::new() };
    match conn.dispatch(&routes(), &load) {
        Dispatch::Render { route, params } => {
            assert_eq!(route, 0);
            assert!(params.is_empty());
        }
        _ => panic!("expected Render"),
    }
}

#[test]
fn action_runs_route_handler() {
    let mut conn = ServerConnection::new();
    conn.dispatch(&routes(), &hello());
    let mut storage = StateMap::new();
    storage.insert("count".to_string(), StateValue::String("0".to_string()));
    let action = ClientToServerMessage::Action {
        path: "/counter".to_string(),
        action: Action::named("increment", Vec::new()),
        storage,
    };
    match conn.dispatch(&routes(), &action) {
        Dispatch::Act { route, .. } => assert_eq!(route, 1),
        _ => panic!("expected Act"),
    }
}

#[test]
fn client_applies_store_and_sends_it_back() {
    let mut s = session();
    s.on_connected();
    let step = s.on_message(Inbound::Store {
        scope: StorageScope::Session,
        key: "count".to_string(),
        value: StateValue::String("1".to_string()),
    });
    assert!(matches!(step, Step::Continue));
    match s.load("/counter".to_string()) {
        ClientToServerMessage::Load { path, storage } => {
            assert_eq!(path, "/counter");
            assert_eq!(storage.get("count").unwrap().string(), "1");
        }
        _ => panic!("expected Load"),
    }
    let step = s.on_message(Inbound::Store {
        scope: StorageScope::Persistent,
        key: "k".to_string(),
        value: StateValue::Boolean(true),
    });
    assert!(matches!(step, Step::Persist));
}

#[test]
fn unknown_route_is_not_found_and_connection_continues() {
    let mut conn = ServerConnection::new();
    conn.dispatch(&routes(), &hello());
    let load = ClientToServerMessage::Load {
        path: "/nonexistent".to_string(),
        storage: StateMap::new(),
    };
    match conn.dispatch(&routes(), &load) {
        Dispatch::Reject { code, message } => {
            assert_eq!(code, ErrorCode::NotFound);
            assert!(message.contains("/nonexistent"));
            assert_eq!(message, "Route not found: /nonexistent");
        }
        _ => panic!("expected NotFound"),
    }
    let load = ClientToServerMessage::Load { path: "/hello".to_string(), storage: StateMap::new() };
    assert!(matches!(conn.dispatch(&routes(), &load), Dispatch::Render { route: 0, .. }));
}

#[test]
fn reconnect_reloads_current_path_and_follows_redirect() {
    let mut s = session();
    s.on_connected();
    s.load("/a".to_string());
    s.on_message(Inbound::Store {
        scope: StorageScope::Session,
        key: "s".to_string(),
        value: StateValue::Null,
    });
    s.on_disconnected();
    assert!(s.storage().get(StorageScope::Session, "s").is_none());
    let out = s.on_connected();
    assert_eq!(out.len(), 2);
    assert!(matches!(out[0], ClientToServerMessage::ClientHello { .. }));
    match &out[1] {
        ClientToServerMessage::Load { path, .. } => assert_eq!(path, "/a"),
        _ => panic!("expected Load"),
    }
    s.on_message(Inbound::Store {
        scope: StorageScope::Local,
        key: "l".to_string(),
        value: StateValue::Null,
    });
    match s.on_message(Inbound::RedirectTo { path: "/b".to_string() }) {
        Step::Send(ClientToServerMessage::Load { path, storage }) => {
            assert_eq!(path, "/b");
            assert!(storage.get("l").is_none());
        }
        _ => panic!("expected a Load"),
    }
    assert_eq!(s.current_path().unwrap(), "/b");
    assert!(s.storage().get(StorageScope::Local, "l").is_none());
}

#[test]
fn upgrade_required_ends_the_session() {
    let mut s = session();
    match s.on_message(Inbound::Error {
        code: ErrorCode::UpgradeRequired,
        message: "Incompatible".to_string(),
    }) {
        Step::Terminate { message } => {
            assert_eq!(message, "Incompatible protocol version: Incompatible")
        }
        _ => panic!("expected Terminate"),
    }
    match s.on_message(Inbound::Error {
        code: ErrorCode::NotFound,
        message: "gone".to_string(),
    }) {
        Step::ReportError { code, message } => {
            assert_eq!(code, 404);
            assert_eq!(message, "gone");
        }
        _ => panic!("expected ReportError"),
    }
    assert!(matches!(s.on_message(Inbound::Render), Step::ShowDocument));
}

#[test]
fn action_needs_a_current_path() {
    let mut s = session();
    assert!(s.action(Action::named("go", Vec::new()), StateMap::new()).is_none());
    s.load("/p".to_string());
    match s.action(Action::named("go", vec!["k".to_string()]), StateMap::new()) {
        Some(ClientToServerMessage::Action { path, action, .. }) => {
            assert_eq!(path, "/p");
            assert_eq!(action.name, "go");
            assert_eq!(action.keys, vec!["k".to_string()]);
        }
        _ => panic!("expected an Action"),
    }
}

#[test]
fn missing_capability_message() {
    let caps = CapabilitySet::new();
    assert_eq!(
        check_capability(&caps, "pinhole:x:v1").unwrap_err(),
        "Missing required capability: pinhole:x:v1"
    );
    let mut caps = CapabilitySet::new();
    caps.add("pinhole:x:v1");
    assert!(check_capability(&caps, "pinhole:x:v1").is_ok());
}

#[test]
fn form_state_converts_each_field() {
    let mut local = LocalFormState::new();
    local.insert("name".to_string(), LocalFormValue::String("Ann".to_string()));
    local.insert("done".to_string(), LocalFormValue::Boolean(true));
    let remote = convert_form_state(&local);
    assert_eq!(remote.len(), 2);
    assert!(matches!(remote.get("name"), Some(FormValue::String(s)) if s == "Ann"));
    assert!(matches!(remote.get("done"), Some(FormValue::Boolean(true))));
    assert_eq!(local.get("name").unwrap().string(), "Ann");
    assert!(local.get("done").unwrap().boolean());
    assert!(!local.get("name").unwrap().boolean());
    assert_eq!(local.get("done").unwrap().string(), "");
}

#[test]
fn handler_outcome_decides_what_follows() {
    assert!(matches!(after_handler(Ok(()), false), AfterHandler::Continue));
    match after_handler(Err("boom".to_string()), false) {
        AfterHandler::ReportFailure { code, message } => {
            assert_eq!(code, ErrorCode::InternalServerError);
            assert_eq!(message, "boom");
        }
        _ => panic!("expected ReportFailure"),
    }
    assert!(matches!(
        after_handler(Err("Missing required capability: x".to_string()), true),
        AfterHandler::Close
    ));
    assert!(matches!(after_handler(Ok(()), true), AfterHandler::Close));
}
