//! The connection handler: a state machine that takes one connection from
//! its request to its response.
//!
//! The machine never reads or writes anything itself. Each step answers an
//! event with the next state and an action for the caller to perform; the
//! outcome of that action is the next event. A connection starts in
//! `State::ReadingRequest` with the event `Event::Received` and is over when
//! the machine answers `Action::Close`.

use crate::listing::{entries_of, listing_of, render_listing, DirectoryEntry, EntryView};
use crate::request::{parse_request, request_of, Request, RequestView};
use crate::response::{
    file_response, forbidden, internal_server_error, method_not_allowed, not_found, page,
    sniffed_type, Response, ResponseView,
};
use crate::sandbox::{candidate_of, candidate_path, resolve, resolved, Rejected};
use crate::text::text_eq;
use vstd::prelude::*;

verus! {

/// What a canonical path names.
#[derive(Clone, Copy, Debug, PartialEq, Eq, Structural)]
pub enum EntryKind {
    Directory,
    File,
    /// Anything else, such as a device or a socket.
    Other,
}

/// Where a connection stands.
#[derive(Clone, Debug, PartialEq, Eq)]
pub enum State {
    /// Nothing has been read yet.
    ReadingRequest,
    /// The request was accepted; its candidate path is being canonicalized.
    Dispatching,
    /// The file at `path` is being read.
    ServingFile { path: String },
    /// The children of the directory at `path` are being enumerated.
    ListingDirectory { path: String },
    /// The request was refused; the refusal is being sent.
    Rejecting,
    /// The connection is done.
    Responded,
}

/// What the caller reports back to the machine.
#[derive(Clone, Debug, PartialEq, Eq)]
pub enum Event {
    /// The bytes that were read from the connection.
    Received { bytes: Vec<u8> },
    /// The candidate path was canonicalized to `path`, which names a `kind`.
    Resolved { path: String, kind: EntryKind },
    /// The candidate path could not be canonicalized.
    Unresolved,
    /// The immediate children of the directory.
    Listed { entries: Vec<DirectoryEntry> },
    /// The directory could not be enumerated in full.
    ListingFailed,
    /// The whole content of the file.
    FileRead { content: Vec<u8> },
    /// The file could not be read.
    ReadFailed,
    /// The response was written and flushed.
    Sent,
}

/// What the machine asks the caller to do next.
#[derive(Clone, Debug, PartialEq, Eq)]
pub enum Action {
    /// Canonicalize `candidate` and report `Resolved` or `Unresolved`.
    Resolve { candidate: String },
    /// Enumerate the immediate children of `path` and report `Listed` or
    /// `ListingFailed`.
    ListDirectory { path: String },
    /// Read the file at `path` and report `FileRead` or `ReadFailed`.
    ReadFile { path: String },
    /// Write `response` to the connection and report `Sent`.
    Send { response: Response },
    /// Close the connection.
    Close,
}

/// A state as plain values.
pub enum StateView {
    ReadingRequest,
    Dispatching,
    ServingFile { path: Seq<char> },
    ListingDirectory { path: Seq<char> },
    Rejecting,
    Responded,
}

/// An event as plain values.
pub enum EventView {
    Received { bytes: Seq<u8> },
    Resolved { path: Seq<char>, kind: EntryKind },
    Unresolved,
    Listed { entries: Seq<EntryView> },
    ListingFailed,
    FileRead { content: Seq<u8> },
    ReadFailed,
    Sent,
}

/// An action as plain values.
pub enum ActionView {
    Resolve { candidate: Seq<char> },
    ListDirectory { path: Seq<char> },
    ReadFile { path: Seq<char> },
    Send { response: ResponseView },
    Close,
}

impl View for State {
    type V = StateView;

    open spec fn view(&self) -> StateView {
        match self {
            State::ReadingRequest => StateView::ReadingRequest,
            State::Dispatching => StateView::Dispatching,
            State::ServingFile { path } => StateView::ServingFile { path: path@ },
            State::ListingDirectory { path } => StateView::ListingDirectory { path: path@ },
            State::Rejecting => StateView::Rejecting,
            State::Responded => StateView::Responded,
        }
    }
}

impl View for Event {
    type V = EventView;

    open spec fn view(&self) -> EventView {
        match self {
            Event::Received { bytes } => EventView::Received { bytes: bytes@ },
            Event::Resolved { path, kind } => EventView::Resolved { path: path@, kind: *kind },
            Event::Unresolved => EventView::Unresolved,
            Event::Listed { entries } => EventView::Listed { entries: entries_of(entries@) },
            Event::ListingFailed => EventView::ListingFailed,
            Event::FileRead { content } => EventView::FileRead { content: content@ },
            Event::ReadFailed => EventView::ReadFailed,
            Event::Sent => EventView::Sent,
        }
    }
}

impl View for Action {
    type V = ActionView;

    open spec fn view(&self) -> ActionView {
        match self {
            Action::Resolve { candidate } => ActionView::Resolve { candidate: candidate@ },
            Action::ListDirectory { path } => ActionView::ListDirectory { path: path@ },
            Action::ReadFile { path } => ActionView::ReadFile { path: path@ },
            Action::Send { response } => ActionView::Send { response: response@ },
            Action::Close => ActionView::Close,
        }
    }
}

/// The step that refuses a request with `response`.
pub open spec fn reject_with(response: ResponseView) -> (StateView, ActionView) {
    (StateView::Rejecting, ActionView::Send { response })
}

/// The step that ends a connection.
pub open spec fn finish() -> (StateView, ActionView) {
    (StateView::Responded, ActionView::Close)
}

/// The step that answers a connection with `response`.
pub open spec fn respond_with(response: ResponseView) -> (StateView, ActionView) {
    (StateView::Responded, ActionView::Send { response })
}

/// What a parsed request leads to. The favicon is refused whatever the
/// method; then any method but `GET` is refused; a request without a target
/// is answered like a missing resource; anything else has its candidate path
/// resolved.
pub open spec fn route_of(root: Seq<char>, request: RequestView) -> (StateView, ActionView) {
    if request.target == "/favicon.ico"@ {
        reject_with(not_found())
    } else if request.method != "GET"@ {
        reject_with(method_not_allowed())
    } else if request.target.len() == 0 {
        reject_with(not_found())
    } else {
        (
            StateView::Dispatching,
            ActionView::Resolve { candidate: candidate_of(root, request.target) },
        )
    }
}

/// The response that tells a client why its target was not resolved.
pub open spec fn rejection_of(rejected: Rejected) -> ResponseView {
    match rejected {
        Rejected::Forbidden => forbidden(),
        Rejected::NotFound => not_found(),
    }
}

/// What canonicalizing the candidate path leads to: `canonical` is the
/// canonical path, which names a `kind`, or `None` where nothing is there. A
/// path outside the root is refused before its kind is looked at.
pub open spec fn dispatch_of(root: Seq<char>, canonical: Option<Seq<char>>, kind: EntryKind) -> (
    StateView,
    ActionView,
) {
    match resolved(root, canonical) {
        Err(rejected) => reject_with(rejection_of(rejected)),
        Ok(path) => match kind {
            EntryKind::Directory => (
                StateView::ListingDirectory { path },
                ActionView::ListDirectory { path },
            ),
            EntryKind::File => (StateView::ServingFile { path }, ActionView::ReadFile { path }),
            EntryKind::Other => reject_with(not_found()),
        },
    }
}

/// The transition function of a connection. An event that the state does not
/// wait for ends the connection.
pub open spec fn step_of(root: Seq<char>, state: StateView, event: EventView) -> (
    StateView,
    ActionView,
) {
    match (state, event) {
        (StateView::ReadingRequest, EventView::Received { bytes }) => route_of(
            root,
            request_of(bytes),
        ),
        (StateView::Dispatching, EventView::Resolved { path, kind }) => dispatch_of(
            root,
            Some(path),
            kind,
        ),
        (StateView::Dispatching, EventView::Unresolved) => dispatch_of(
            root,
            None,
            EntryKind::Other,
        ),
        (StateView::ServingFile { .. }, EventView::FileRead { content }) => respond_with(
            file_response(content, sniffed_type(content)),
        ),
        (StateView::ServingFile { .. }, EventView::ReadFailed) => respond_with(
            internal_server_error(),
        ),
        (StateView::ListingDirectory { path }, EventView::Listed { entries }) => respond_with(
            page(listing_of(path, entries)),
        ),
        _ => finish(),
    }
}

/// A server: the root directory that it serves, and nothing else.
#[derive(Clone, Debug, PartialEq, Eq)]
pub struct Server {
    /// The canonical path of the root directory.
    pub root: String,
}

impl Server {
    /// A server for the directory whose canonical path is `root`.
    pub fn new(root: String) -> (server: Server)
        ensures
            server.root@ == root@,
    {
        Server { root }
    }

    /// The state in which every connection starts.
    pub fn start() -> (state: State)
        ensures
            state@ == StateView::ReadingRequest,
    {
        State::ReadingRequest
    }

    /// Decides what a parsed request leads to.
    pub fn route(&self, request: &Request) -> (next: (State, Action))
        ensures
            (next.0@, next.1@) == route_of(self.root@, request@),
    {
        if text_eq(request.target.as_str(), "/favicon.ico") {
            (State::Rejecting, Action::Send { response: Response::not_found() })
        } else if !text_eq(request.method.as_str(), "GET") {
            (State::Rejecting, Action::Send { response: Response::method_not_allowed() })
        } else if request.target.as_str().unicode_len() == 0 {
            (State::Rejecting, Action::Send { response: Response::not_found() })
        } else {
            let candidate = candidate_path(self.root.as_str(), request.target.as_str());
            (State::Dispatching, Action::Resolve { candidate })
        }
    }

    /// Decides what canonicalizing the candidate path leads to: `canonical`
    /// is the canonical path, which names a `kind`, or `None` where nothing
    /// is there.
    pub fn dispatch(&self, canonical: Option<&str>, kind: EntryKind) -> (next: (State, Action))
        ensures
            (next.0@, next.1@) == dispatch_of(
                self.root@,
                match canonical {
                    Some(path) => Some(path@),
                    None => None,
                },
                kind,
            ),
    {
        match resolve(self.root.as_str(), canonical) {
            Err(Rejected::Forbidden) => (
                State::Rejecting,
                Action::Send { response: Response::forbidden() },
            ),
            Err(Rejected::NotFound) => (
                State::Rejecting,
                Action::Send { response: Response::not_found() },
            ),
            Ok(path) => match kind {
                EntryKind::Directory => {
                    let listed = path.clone();
                    (State::ListingDirectory { path }, Action::ListDirectory { path: listed })
                },
                EntryKind::File => {
                    let read = path.clone();
                    (State::ServingFile { path }, Action::ReadFile { path: read })
                },
                EntryKind::Other => (
                    State::Rejecting,
                    Action::Send { response: Response::not_found() },
                ),
            },
        }
    }

    /// Takes a connection one step further: from its state and the event
    /// that the caller reports to the next state and the next action. Serving
    /// a file sniffs its content, which needs a 64-bit `usize`.
    pub fn step(&self, state: State, event: Event) -> (next: (State, Action))
        requires
            usize::BITS == 64,
        ensures
            (next.0@, next.1@) == step_of(self.root@, state@, event@),
    {
        match (state, event) {
            (State::ReadingRequest, Event::Received { bytes }) => {
                let request = parse_request(bytes.as_slice());
                self.route(&request)
            },
            (State::Dispatching, Event::Resolved { path, kind }) => self.dispatch(
                Some(path.as_str()),
                kind,
            ),
            (State::Dispatching, Event::Unresolved) => self.dispatch(None, EntryKind::Other),
            (State::ServingFile { .. }, Event::FileRead { content }) => (
                State::Responded,
                Action::Send { response: Response::file(content) },
            ),
            (State::ServingFile { .. }, Event::ReadFailed) => (
                State::Responded,
                Action::Send { response: Response::internal_server_error() },
            ),
            (State::ListingDirectory { path }, Event::Listed { entries }) => {
                let html = render_listing(path.as_str(), &entries);
                (State::Responded, Action::Send { response: Response::page(html.as_str()) })
            },
            _ => (State::Responded, Action::Close),
        }
    }
}

} // verus!
