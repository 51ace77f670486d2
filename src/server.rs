use vstd::prelude::*;

use crate::capabilities::{supported_capabilities, supported_set, CapabilitySet};
use crate::messages::{ClientToServerMessage, ErrorCode};
use crate::router::{match_result, texts, Params, RoutePattern};

verus! {

/// The index of the first pattern that `path` matches, if any.
pub open spec fn first_match(patterns: Seq<Seq<char>>, path: Seq<char>) -> Option<int> {
    if exists|i: int| 0 <= i < patterns.len() && match_result(patterns[i], path) is Some {
        Some(
            choose|i: int|
                0 <= i < patterns.len() && match_result(patterns[i], path) is Some && forall|j: int|
                    0 <= j < i ==> match_result(patterns[j], path) is None,
        )
    } else {
        None
    }
}

/// The texts of a list of route patterns.
pub open spec fn pattern_texts(routes: Seq<RoutePattern>) -> Seq<Seq<char>> {
    routes.map_values(|r: RoutePattern| r.text())
}

/// Finds the first route whose pattern `path` matches, in declaration order,
/// with the parameters the match binds.
pub fn find_route(routes: &Vec<RoutePattern>, path: &str) -> (r: Option<(usize, Params)>)
    ensures
        match r {
            Some((i, params)) => i < routes@.len() && match_result(routes@[i as int].text(), path@)
                == Some(texts(params@)) && forall|j: int|
                0 <= j < i ==> match_result(routes@[j].text(), path@) is None,
            None => forall|j: int|
                0 <= j < routes@.len() ==> match_result(routes@[j].text(), path@) is None,
        },
{
    let mut i: usize = 0;
    while i < routes.len()
        invariant
            i <= routes@.len(),
            forall|j: int| 0 <= j < i ==> match_result(routes@[j].text(), path@) is None,
        decreases routes@.len() - i,
    {
        match routes[i].matches(path) {
            Some(params) => {
                return Some((i, params));
            },
            None => {},
        }
        i = i + 1;
    }
    None
}

/// The first route found is the first in declaration order that matches.
pub proof fn lemma_first_match_wins(routes: Seq<RoutePattern>, path: Seq<char>, i: int)
    requires
        0 <= i < routes.len(),
        match_result(routes[i].text(), path) is Some,
        forall|j: int| 0 <= j < i ==> match_result(routes[j].text(), path) is None,
    ensures
        first_match(pattern_texts(routes), path) == Some(i),
{
    let ps = pattern_texts(routes);
    assert(ps[i] == routes[i].text());
    assert(exists|k: int| 0 <= k < ps.len() && match_result(ps[k], path) is Some);
    let k = choose|k: int|
        0 <= k < ps.len() && match_result(ps[k], path) is Some && forall|j: int|
            0 <= j < k ==> match_result(ps[j], path) is None;
    assert(forall|j: int| 0 <= j < i ==> match_result(ps[j], path) is None);
    if k < i {
        assert(ps[k] == routes[k].text());
    }
    if k > i {
        assert(match_result(ps[i], path) is None);
    }
}

/// The capabilities a handshake agrees on: those the client offers that this
/// server supports.
pub fn negotiate(offered: &CapabilitySet) -> (r: CapabilitySet)
    ensures
        r@ == supported_set().intersect(offered@),
{
    let supported = supported_capabilities();
    supported.intersect(offered)
}

/// Negotiated capabilities are both supported by the server and offered by the
/// client.
pub proof fn lemma_negotiated_subset(offered: Set<Seq<char>>)
    ensures
        supported_set().intersect(offered).subset_of(supported_set()),
        supported_set().intersect(offered).subset_of(offered),
{
}

/// The message of the error sent for a path no route matches.
pub open spec fn not_found_text(path: Seq<char>) -> Seq<char> {
    "Route not found: "@ + path
}

/// The message of the error sent for a missing capability.
pub open spec fn missing_capability_text(uri: Seq<char>) -> Seq<char> {
    "Missing required capability: "@ + uri
}

/// Succeeds when `capabilities` holds `uri`; otherwise gives the message of the
/// `UpgradeRequired` error that ends the connection.
pub fn check_capability(capabilities: &CapabilitySet, uri: &str) -> (r: Result<(), String>)
    ensures
        r is Ok <==> capabilities@.contains(uri@),
        r is Err ==> r->Err_0@ == missing_capability_text(uri@),
{
    if capabilities.contains(uri) {
        Ok(())
    } else {
        Err(crate::text::join("Missing required capability: ", uri))
    }
}

/// What the server does with one request.
#[derive(Debug)]
pub enum Dispatch {
    /// Answer with `ServerHello` carrying these capabilities, which the
    /// connection now holds.
    Hello { capabilities: CapabilitySet },
    /// Answer with an error; the connection stays open.
    Reject { code: ErrorCode, message: String },
    /// Render the route at this index with these parameters.
    Render { route: usize, params: Params },
    /// Run the action handler of the route at this index with these parameters.
    Act { route: usize, params: Params },
}

/// The message of the error sent for a request that comes before `ClientHello`.
pub open spec fn hello_required_text() -> Seq<char> {
    "ClientHello required before other messages"@
}

/// The state of one server connection.
#[derive(Debug)]
pub struct ServerConnection {
    capabilities: CapabilitySet,
    greeted: bool,
    message_count: u64,
}

impl ServerConnection {
    /// The capabilities negotiated on this connection.
    pub closed spec fn negotiated(&self) -> Set<Seq<char>> {
        self.capabilities@
    }

    /// Whether the client has sent `ClientHello`.
    pub closed spec fn is_greeted(&self) -> bool {
        self.greeted
    }

    /// The number of requests read on this connection.
    pub closed spec fn count(&self) -> nat {
        self.message_count as nat
    }

    /// A new connection: nothing negotiated, no request read.
    pub fn new() -> (r: ServerConnection)
        ensures
            r.negotiated() == Set::<Seq<char>>::empty(),
            !r.is_greeted(),
            r.count() == 0,
    {
        ServerConnection { capabilities: CapabilitySet::new(), greeted: false, message_count: 0 }
    }

    /// The capabilities negotiated on this connection.
    pub fn capabilities(&self) -> (r: &CapabilitySet)
        ensures
            r@ == self.negotiated(),
    {
        &self.capabilities
    }

    /// The number of requests read on this connection.
    pub fn message_count(&self) -> (r: u64)
        ensures
            r == self.count(),
    {
        self.message_count
    }

    /// Decides what to do with `request`. `ClientHello` negotiates capabilities
    /// and replaces those of the connection; `Load` and `Action` before it are
    /// refused with `BadRequest`; otherwise the first route that matches the
    /// path is chosen, or `NotFound` is answered.
    pub fn dispatch(&mut self, routes: &Vec<RoutePattern>, request: &ClientToServerMessage) -> (r:
        Dispatch)
        ensures
            dispatch_result(*old(self), *final(self), routes@, *request, r),
    {
        if self.message_count < u64::MAX {
            self.message_count = self.message_count + 1;
        }
        match request {
            ClientToServerMessage::ClientHello { capabilities } => {
                let negotiated = negotiate(capabilities);
                self.capabilities = negotiated.clone();
                self.greeted = true;
                Dispatch::Hello { capabilities: negotiated }
            },
            ClientToServerMessage::Load { path, .. } => {
                route_request(self.greeted, routes, path.as_str(), false)
            },
            ClientToServerMessage::Action { path, .. } => {
                route_request(self.greeted, routes, path.as_str(), true)
            },
        }
    }
}

/// What handling `request` on connection `before` leads to: the reply `r` and
/// the connection `after`.
pub open spec fn dispatch_result(
    before: ServerConnection,
    after: ServerConnection,
    routes: Seq<RoutePattern>,
    request: ClientToServerMessage,
    r: Dispatch,
) -> bool {
    &&& after.count() == if before.count() < u64::MAX {
        before.count() + 1
    } else {
        before.count()
    }
    &&& match request {
        ClientToServerMessage::ClientHello { capabilities } => {
            &&& r matches Dispatch::Hello { capabilities: c }
            &&& c@ == supported_set().intersect(capabilities@)
            &&& after.negotiated() == c@
            &&& after.is_greeted()
        },
        ClientToServerMessage::Load { path, .. } => {
            &&& after.negotiated() == before.negotiated()
            &&& after.is_greeted() == before.is_greeted()
            &&& dispatched(r, before.is_greeted(), routes, path@, false)
        },
        ClientToServerMessage::Action { path, .. } => {
            &&& after.negotiated() == before.negotiated()
            &&& after.is_greeted() == before.is_greeted()
            &&& dispatched(r, before.is_greeted(), routes, path@, true)
        },
    }
}

/// On a connection that has not had `ClientHello`, the client's first message,
/// a `ClientHello` offering the supported capabilities, is answered first by
/// `ServerHello` with those capabilities; any other request there is refused,
/// never rendered or run.
pub proof fn lemma_hello_comes_first(
    before: ServerConnection,
    after: ServerConnection,
    routes: Seq<RoutePattern>,
    request: ClientToServerMessage,
    r: Dispatch,
)
    requires
        !before.is_greeted(),
        dispatch_result(before, after, routes, request, r),
    ensures
        request matches ClientToServerMessage::ClientHello { capabilities } && capabilities@
            == supported_set() ==> (r matches Dispatch::Hello { capabilities: c } && c@
            == supported_set()),
        !(request is ClientHello) ==> r is Reject,
{
    if let ClientToServerMessage::ClientHello { capabilities } = request {
        assert(supported_set().intersect(supported_set()) =~= supported_set());
    }
}

/// What a `Load` (or, with `act`, an `Action`) for `path` leads to.
pub open spec fn dispatched(
    r: Dispatch,
    greeted: bool,
    routes: Seq<RoutePattern>,
    path: Seq<char>,
    act: bool,
) -> bool {
    if !greeted {
        r matches Dispatch::Reject { code, message } && code == ErrorCode::BadRequest && message@
            == hello_required_text()
    } else if forall|j: int| 0 <= j < routes.len() ==> match_result(routes[j].text(), path) is None {
        r matches Dispatch::Reject { code, message } && code == ErrorCode::NotFound && message@
            == not_found_text(path)
    } else {
        match r {
            Dispatch::Render { route, params } => !act && route < routes.len() && match_result(
                routes[route as int].text(),
                path,
            ) == Some(texts(params@)) && forall|j: int|
                0 <= j < route ==> match_result(routes[j].text(), path) is None,
            Dispatch::Act { route, params } => act && route < routes.len() && match_result(
                routes[route as int].text(),
                path,
            ) == Some(texts(params@)) && forall|j: int|
                0 <= j < route ==> match_result(routes[j].text(), path) is None,
            _ => false,
        }
    }
}

fn route_request(greeted: bool, routes: &Vec<RoutePattern>, path: &str, act: bool) -> (r: Dispatch)
    ensures
        dispatched(r, greeted, routes@, path@, act),
{
    if !greeted {
        return Dispatch::Reject {
            code: ErrorCode::BadRequest,
            message: String::from_str("ClientHello required before other messages"),
        };
    }
    match find_route(routes, path) {
        Some((route, params)) => {
            if act {
                Dispatch::Act { route, params }
            } else {
                Dispatch::Render { route, params }
            }
        },
        None => Dispatch::Reject {
            code: ErrorCode::NotFound,
            message: crate::text::join("Route not found: ", path),
        },
    }
}

/// What follows a route's action handler.
#[derive(Debug)]
pub enum AfterHandler {
    /// Read the next request.
    Continue,
    /// Reply with this error; the connection stays open.
    ReportFailure { code: ErrorCode, message: String },
    /// End the connection: a capability the handler required is missing, and
    /// the client was told `UpgradeRequired`.
    Close,
}

/// Decides what follows an action handler that ended with `outcome`, where
/// `upgrade_required` tells whether it found a required capability missing.
/// A missing capability ends the connection; another failure is reported as
/// `InternalServerError` with the failure's text.
pub fn after_handler(outcome: Result<(), String>, upgrade_required: bool) -> (r: AfterHandler)
    ensures
        upgrade_required ==> r is Close,
        !upgrade_required && outcome is Ok ==> r is Continue,
        !upgrade_required && outcome is Err ==> (r matches AfterHandler::ReportFailure {
            code,
            message,
        } && code == ErrorCode::InternalServerError && message@ == outcome->Err_0@),
{
    if upgrade_required {
        return AfterHandler::Close;
    }
    match outcome {
        Ok(()) => AfterHandler::Continue,
        Err(message) => AfterHandler::ReportFailure { code: ErrorCode::InternalServerError, message },
    }
}

} // verus!
