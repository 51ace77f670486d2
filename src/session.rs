use vstd::prelude::*;

use crate::capabilities::{supported_capabilities, supported_set, CapabilitySet};
use crate::messages::{Action, ClientToServerMessage, ErrorCode};
use crate::state::{StateMap, StateValue, StorageScope};
use crate::storage::{merged, StorageManager};

verus! {

/// A message from the server, as the client session sees it. The document of a
/// `Render` stays with the caller, which shows it.
#[derive(Debug)]
pub enum Inbound {
    /// The capabilities the handshake agreed on.
    ServerHello { capabilities: CapabilitySet },
    /// A document to show.
    Render,
    /// Load `path` instead.
    RedirectTo { path: String },
    /// Set `key` to `value` in `scope`.
    Store { scope: StorageScope, key: String, value: StateValue },
    /// An error the server reports.
    Error { code: ErrorCode, message: String },
}

/// What the session does after a message from the server.
#[derive(Debug)]
pub enum Step {
    /// Nothing more.
    Continue,
    /// Rewrite the persistent storage file.
    Persist,
    /// Hand the document to the user interface.
    ShowDocument,
    /// Send this message to the server.
    Send(ClientToServerMessage),
    /// Tell the user interface of a server error.
    ReportError { code: u16, message: String },
    /// End the session for good: the server needs a protocol this client lacks.
    Terminate { message: String },
}

/// The message that ends a session on `UpgradeRequired`.
pub open spec fn incompatible_text(message: Seq<char>) -> Seq<char> {
    "Incompatible protocol version: "@ + message
}

/// The client side of a session: the storage and the path being shown.
pub struct ClientSession {
    storage: StorageManager,
    current_path: Option<String>,
}

/// The state of a storage after moving to `path`: the route is `path` and local
/// storage is empty.
pub open spec fn moved_to(before: StorageManager, after: StorageManager, path: Seq<char>) -> bool {
    &&& after.route() == Some(path)
    &&& after.local() == Map::<Seq<char>, StateValue>::empty()
    &&& after.persistent() == before.persistent()
    &&& after.session() == before.session()
    &&& after.origin_text() == before.origin_text()
    &&& after.dir_text() == before.dir_text()
}

/// `m` is a `Load` of `path` carrying everything `s` holds.
pub open spec fn is_load_of(m: ClientToServerMessage, path: Seq<char>, s: StorageManager) -> bool {
    m matches ClientToServerMessage::Load { path: p, storage } && p@ == path && storage@ == merged(
        s.persistent(),
        s.session(),
        s.local(),
    )
}

impl ClientSession {
    /// The storage of the session.
    pub closed spec fn store_state(&self) -> StorageManager {
        self.storage
    }

    /// The path being shown, if any.
    pub closed spec fn path(&self) -> Option<Seq<char>> {
        match self.current_path {
            Some(p) => Some(p@),
            None => None,
        }
    }

    /// A session over `storage` that shows no path yet.
    pub fn new(storage: StorageManager) -> (r: ClientSession)
        ensures
            r.store_state() == storage,
            r.path() is None,
    {
        ClientSession { storage, current_path: None }
    }

    /// The storage of the session.
    pub fn storage(&self) -> (r: &StorageManager)
        ensures
            *r == self.store_state(),
    {
        &self.storage
    }

    /// The path being shown, if any.
    pub fn current_path(&self) -> (r: Option<&String>)
        ensures
            match r {
                Some(p) => self.path() == Some(p@),
                None => self.path() is None,
            },
    {
        match &self.current_path {
            Some(p) => Some(p),
            None => None,
        }
    }

    /// Moves to `path` and makes the `Load` for it.
    fn load_path(&mut self, path: String) -> (m: ClientToServerMessage)
        ensures
            moved_to(old(self).store_state(), final(self).store_state(), path@),
            final(self).path() == Some(path@),
            is_load_of(m, path@, final(self).store_state()),
    {
        self.current_path = Some(path.clone());
        self.storage.navigate_to(path.clone());
        self.storage.clear_local_storage();
        let storage = self.storage.get_all_storage();
        ClientToServerMessage::Load { path, storage }
    }

    /// The messages to send on a new connection: `ClientHello` with the
    /// supported capabilities first, then, when a path is being shown, a fresh
    /// `Load` of it.
    pub fn on_connected(&mut self) -> (r: Vec<ClientToServerMessage>)
        ensures
            r@.len() >= 1,
            r@[0] matches ClientToServerMessage::ClientHello { capabilities } && capabilities@
                == supported_set(),
            match old(self).path() {
                None => r@.len() == 1 && final(self).store_state() == old(self).store_state()
                    && final(self).path() is None,
                Some(p) => r@.len() == 2 && moved_to(
                    old(self).store_state(),
                    final(self).store_state(),
                    p,
                ) && final(self).path() == Some(p) && is_load_of(
                    r@[1],
                    p,
                    final(self).store_state(),
                ),
            },
    {
        let mut out: Vec<ClientToServerMessage> = Vec::new();
        out.push(ClientToServerMessage::ClientHello { capabilities: supported_capabilities() });
        let path = match &self.current_path {
            Some(p) => Some(p.clone()),
            None => None,
        };
        match path {
            Some(p) => {
                let m = self.load_path(p);
                out.push(m);
            },
            None => {},
        }
        out
    }

    /// The connection was lost: session storage is emptied.
    pub fn on_disconnected(&mut self)
        ensures
            final(self).path() == old(self).path(),
            final(self).store_state().session() == Map::<Seq<char>, StateValue>::empty(),
            final(self).store_state().persistent() == old(self).store_state().persistent(),
            final(self).store_state().local() == old(self).store_state().local(),
            final(self).store_state().route() == old(self).store_state().route(),
    {
        self.storage.clear_session_storage();
    }

    /// The user asks for `path`: move there and send its `Load`.
    pub fn load(&mut self, path: String) -> (m: ClientToServerMessage)
        ensures
            moved_to(old(self).store_state(), final(self).store_state(), path@),
            final(self).path() == Some(path@),
            is_load_of(m, path@, final(self).store_state()),
    {
        self.load_path(path)
    }

    /// The user fires `action`: it goes to the server for the path being shown;
    /// with no path shown it is dropped.
    pub fn action(&self, action: Action, storage: StateMap) -> (r: Option<ClientToServerMessage>)
        ensures
            match self.path() {
                None => r is None,
                Some(p) => r matches Some(ClientToServerMessage::Action { path, action: a, storage: s })
                    && path@ == p && a == action && s == storage,
            },
    {
        match &self.current_path {
            Some(p) => Some(ClientToServerMessage::Action { path: p.clone(), action, storage }),
            None => None,
        }
    }

    /// Handles a message from the server.
    pub fn on_message(&mut self, message: Inbound) -> (r: Step)
        ensures
            match message {
                Inbound::ServerHello { .. } => r is Continue && *final(self) == *old(self),
                Inbound::Render => r is ShowDocument && *final(self) == *old(self),
                Inbound::RedirectTo { path } => {
                    &&& r matches Step::Send(m) && is_load_of(m, path@, final(self).store_state())
                    &&& moved_to(old(self).store_state(), final(self).store_state(), path@)
                    &&& final(self).path() == Some(path@)
                },
                Inbound::Store { scope, key, value } => {
                    &&& (if scope == StorageScope::Persistent {
                        r is Persist
                    } else {
                        r is Continue
                    })
                    &&& final(self).path() == old(self).path()
                    &&& final(self).store_state().persistent() == if scope
                        == StorageScope::Persistent {
                        old(self).store_state().persistent().insert(key@, value)
                    } else {
                        old(self).store_state().persistent()
                    }
                    &&& final(self).store_state().session() == if scope == StorageScope::Session {
                        old(self).store_state().session().insert(key@, value)
                    } else {
                        old(self).store_state().session()
                    }
                    &&& final(self).store_state().local() == if scope == StorageScope::Local {
                        old(self).store_state().local().insert(key@, value)
                    } else {
                        old(self).store_state().local()
                    }
                    &&& final(self).store_state().route() == old(self).store_state().route()
                },
                Inbound::Error { code, message } => {
                    &&& *final(self) == *old(self)
                    &&& if code == ErrorCode::UpgradeRequired {
                        r matches Step::Terminate { message: t } && t@ == incompatible_text(
                            message@,
                        )
                    } else {
                        r matches Step::ReportError { code: c, message: t } && c
                            == crate::messages::status_number(code) && t@ == message@
                    }
                },
            },
    {
        match message {
            Inbound::ServerHello { .. } => Step::Continue,
            Inbound::Render => Step::ShowDocument,
            Inbound::RedirectTo { path } => Step::Send(self.load_path(path)),
            Inbound::Store { scope, key, value } => {
                if self.storage.store(scope, key, value) {
                    Step::Persist
                } else {
                    Step::Continue
                }
            },
            Inbound::Error { code, message } => {
                if code == ErrorCode::UpgradeRequired {
                    Step::Terminate {
                        message: crate::text::join("Incompatible protocol version: ", message.as_str()),
                    }
                } else {
                    Step::ReportError { code: code.as_u16(), message }
                }
            },
        }
    }
}

} // verus!
