use vstd::prelude::*;

use crate::capabilities::CapabilitySet;
use crate::state::{StateMap, StringMap};

verus! {

/// Status of an error reported by the server, with its HTTP-style number.
#[derive(Clone, Copy, Debug, PartialEq, Eq, Structural)]
pub enum ErrorCode {
    /// The request was malformed or invalid.
    BadRequest,
    /// No route matches the requested path.
    NotFound,
    /// The peer lacks a capability the request needs; the connection ends.
    UpgradeRequired,
    /// A route handler failed.
    InternalServerError,
}

/// The number that stands for each error code.
pub open spec fn status_number(code: ErrorCode) -> u16 {
    match code {
        ErrorCode::BadRequest => 400,
        ErrorCode::NotFound => 404,
        ErrorCode::UpgradeRequired => 426,
        ErrorCode::InternalServerError => 500,
    }
}

impl ErrorCode {
    /// The HTTP-style status number of this code.
    pub fn as_u16(&self) -> (r: u16)
        ensures
            r == status_number(*self),
    {
        match self {
            ErrorCode::BadRequest => 400,
            ErrorCode::NotFound => 404,
            ErrorCode::UpgradeRequired => 426,
            ErrorCode::InternalServerError => 500,
        }
    }
}


/// A named event fired by a UI element.
#[derive(Debug)]
pub struct Action {
    /// The handler this action asks for.
    pub name: String,
    /// Literal parameters attached to the element.
    pub args: StringMap<String>,
    /// Names of state entries the client includes when it sends the action.
    pub keys: Vec<String>,
}

impl Action {
    /// An action without arguments.
    pub fn named(name: &str, keys: Vec<String>) -> (r: Action)
        ensures
            r.name@ == name@,
            r.args@ == Map::<Seq<char>, String>::empty(),
            r.keys == keys,
    {
        Action::new(name, StringMap::new(), keys)
    }

    /// An action with the given arguments.
    pub fn new(name: &str, args: StringMap<String>, keys: Vec<String>) -> (r: Action)
        ensures
            r.name@ == name@,
            r.args@ == args@,
            r.keys == keys,
    {
        Action { name: name.to_owned(), args, keys }
    }
}

/// A message from the client to the server.
#[derive(Debug)]
pub enum ClientToServerMessage {
    /// The first message of every connection: the capabilities the client offers.
    ClientHello { capabilities: CapabilitySet },
    /// Asks for the document at `path`.
    Load { path: String, storage: StateMap },
    /// Dispatches `action` in the context of `path`.
    Action { path: String, action: Action, storage: StateMap },
}

} // verus!
