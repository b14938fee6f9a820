//! Whole connections. The state machine answers one event at a time; this
//! module says what a connection comes to when every action is answered as a
//! given filesystem would answer it, and proves that the machine then sends
//! the response that the request calls for.

use crate::handler::{
    finish, reject_with, respond_with, step_of, ActionView, EntryKind, EventView, StateView,
};
use crate::listing::{listing_of, EntryView};
use crate::request::{request_of, RequestView};
use crate::response::{
    file_response, forbidden, internal_server_error, method_not_allowed, not_found, page,
    sniffed_type, wire_of, ResponseView,
};
use crate::sandbox::{candidate_of, within};
use vstd::prelude::*;

verus! {

/// What the filesystem holds, as far as a server can tell.
pub struct Files {
    /// The canonical form of each path that can be canonicalized.
    pub canonical: Map<Seq<char>, Seq<char>>,
    /// What each canonical path names; a path that is not listed here names
    /// neither a directory nor a regular file.
    pub kinds: Map<Seq<char>, EntryKind>,
    /// The immediate children of each directory that can be enumerated.
    pub children: Map<Seq<char>, Seq<EntryView>>,
    /// The content of each file that can be read.
    pub contents: Map<Seq<char>, Seq<u8>>,
}

/// What a canonical path names in `files`.
pub open spec fn kind_in(files: Files, path: Seq<char>) -> EntryKind {
    if files.kinds.contains_key(path) {
        files.kinds[path]
    } else {
        EntryKind::Other
    }
}

/// The event with which `files` answers an action.
pub open spec fn answer_of(files: Files, action: ActionView) -> EventView {
    match action {
        ActionView::Resolve { candidate } => if files.canonical.contains_key(candidate) {
            let path = files.canonical[candidate];
            EventView::Resolved { path, kind: kind_in(files, path) }
        } else {
            EventView::Unresolved
        },
        ActionView::ListDirectory { path } => if files.children.contains_key(path) {
            EventView::Listed { entries: files.children[path] }
        } else {
            EventView::ListingFailed
        },
        ActionView::ReadFile { path } => if files.contents.contains_key(path) {
            EventView::FileRead { content: files.contents[path] }
        } else {
            EventView::ReadFailed
        },
        _ => EventView::Sent,
    }
}

/// How many steps a connection in `state` can still take before it closes.
pub open spec fn steps_left(state: StateView) -> nat {
    match state {
        StateView::ReadingRequest => 4,
        StateView::Dispatching => 3,
        StateView::ServingFile { .. } => 2,
        StateView::ListingDirectory { .. } => 2,
        StateView::Rejecting => 1,
        StateView::Responded => 0,
    }
}

/// Every step that does not close the connection brings it nearer its end.
pub proof fn lemma_step_makes_progress(root: Seq<char>, state: StateView, event: EventView)
    ensures
        step_of(root, state, event).1 is Close || steps_left(step_of(root, state, event).0)
            < steps_left(state),
{
}

/// The actions of a connection from `state` on, the first in answer to
/// `event` and each later one in answer to what `files` made of the action
/// before it, up to the action that closes the connection.
pub open spec fn run_of(root: Seq<char>, files: Files, state: StateView, event: EventView) -> Seq<
    ActionView,
>
    decreases steps_left(state),
{
    let (next, action) = step_of(root, state, event);
    if action is Close {
        seq![action]
    } else {
        proof {
            lemma_step_makes_progress(root, state, event);
        }
        seq![action] + run_of(root, files, next, answer_of(files, action))
    }
}

/// The actions of a whole connection on which `bytes` arrive.
pub open spec fn connection_of(root: Seq<char>, files: Files, bytes: Seq<u8>) -> Seq<ActionView> {
    run_of(root, files, StateView::ReadingRequest, EventView::Received { bytes })
}

/// The responses among some actions, in order.
pub open spec fn responses_in(actions: Seq<ActionView>) -> Seq<ResponseView>
    decreases actions.len(),
{
    if actions.len() == 0 {
        seq![]
    } else {
        match actions[0] {
            ActionView::Send { response } => seq![response] + responses_in(actions.drop_first()),
            _ => responses_in(actions.drop_first()),
        }
    }
}

/// All the bytes that some actions put on the wire, in order.
pub open spec fn bytes_sent(actions: Seq<ActionView>) -> Seq<u8>
    decreases actions.len(),
{
    if actions.len() == 0 {
        seq![]
    } else {
        match actions[0] {
            ActionView::Send { response } => wire_of(response) + bytes_sent(
                actions.drop_first(),
            ),
            _ => bytes_sent(actions.drop_first()),
        }
    }
}

/// The response that a canonical path calls for: `None` where a directory
/// cannot be enumerated, since the connection is then dropped without one.
pub open spec fn response_for_path(root: Seq<char>, files: Files, path: Seq<char>) -> Option<
    ResponseView,
> {
    if !within(root, path) {
        Some(forbidden())
    } else {
        match kind_in(files, path) {
            EntryKind::Directory => if files.children.contains_key(path) {
                Some(page(listing_of(path, files.children[path])))
            } else {
                None
            },
            EntryKind::File => if files.contents.contains_key(path) {
                let content = files.contents[path];
                Some(file_response(content, sniffed_type(content)))
            } else {
                Some(internal_server_error())
            },
            EntryKind::Other => Some(not_found()),
        }
    }
}

/// The response that a request calls for.
pub open spec fn response_for(root: Seq<char>, files: Files, request: RequestView) -> Option<
    ResponseView,
> {
    if request.target == "/favicon.ico"@ {
        Some(not_found())
    } else if request.method != "GET"@ {
        Some(method_not_allowed())
    } else if request.target.len() == 0 {
        Some(not_found())
    } else {
        let candidate = candidate_of(root, request.target);
        if files.canonical.contains_key(candidate) {
            response_for_path(root, files, files.canonical[candidate])
        } else {
            Some(not_found())
        }
    }
}

/// Whether an action reads the filesystem.
pub open spec fn touches_files(action: ActionView) -> bool {
    action is Resolve || action is ListDirectory || action is ReadFile
}

/// Whether an action reads below `root` only. Canonicalizing reads nothing
/// of what a path names, so it is not held to the root.
pub open spec fn stays_within(root: Seq<char>, action: ActionView) -> bool {
    match action {
        ActionView::ListDirectory { path } => within(root, path),
        ActionView::ReadFile { path } => within(root, path),
        _ => true,
    }
}

proof fn lemma_responses_in_cons(first: ActionView, rest: Seq<ActionView>)
    ensures
        responses_in(seq![first] + rest) == match first {
            ActionView::Send { response } => seq![response] + responses_in(rest),
            _ => responses_in(rest),
        },
{
    assert((seq![first] + rest).drop_first() =~= rest);
}

proof fn lemma_responses_in_close()
    ensures
        responses_in(seq![ActionView::Close]) == Seq::<ResponseView>::empty(),
{
    lemma_responses_in_cons(ActionView::Close, seq![]);
    assert(seq![ActionView::Close] + seq![] =~= seq![ActionView::Close]);
}

/// A step that sends a response is followed by nothing but the close.
proof fn lemma_run_with_response(
    root: Seq<char>,
    files: Files,
    state: StateView,
    event: EventView,
    response: ResponseView,
)
    requires
        step_of(root, state, event) == reject_with(response) || step_of(root, state, event)
            == respond_with(response),
    ensures
        run_of(root, files, state, event) == seq![
            ActionView::Send { response },
            ActionView::Close,
        ],
        responses_in(run_of(root, files, state, event)) == seq![response],
{
    let (next, action) = step_of(root, state, event);
    assert(step_of(root, next, EventView::Sent) == finish());
    assert(run_of(root, files, next, EventView::Sent) == seq![ActionView::Close]);
    assert(run_of(root, files, state, event) =~= seq![action, ActionView::Close]);
    lemma_responses_in_cons(action, seq![ActionView::Close]);
    lemma_responses_in_close();
    assert(seq![action] + seq![ActionView::Close] =~= seq![action, ActionView::Close]);
}

/// A step that closes the connection at once sends nothing.
proof fn lemma_run_without_response(
    root: Seq<char>,
    files: Files,
    state: StateView,
    event: EventView,
)
    requires
        step_of(root, state, event) == finish(),
    ensures
        run_of(root, files, state, event) == seq![ActionView::Close],
        responses_in(run_of(root, files, state, event)) == Seq::<ResponseView>::empty(),
{
    lemma_responses_in_close();
}

/// A step that asks for something from the filesystem is followed by the run
/// from the answer on, and sends nothing itself.
proof fn lemma_run_with_question(
    root: Seq<char>,
    files: Files,
    state: StateView,
    event: EventView,
)
    requires
        touches_files(step_of(root, state, event).1),
    ensures
        run_of(root, files, state, event) == seq![step_of(root, state, event).1] + run_of(
            root,
            files,
            step_of(root, state, event).0,
            answer_of(files, step_of(root, state, event).1),
        ),
        responses_in(run_of(root, files, state, event)) == responses_in(
            run_of(
                root,
                files,
                step_of(root, state, event).0,
                answer_of(files, step_of(root, state, event).1),
            ),
        ),
{
    let (next, action) = step_of(root, state, event);
    lemma_responses_in_cons(action, run_of(root, files, next, answer_of(files, action)));
}

/// Containment: whatever the state and the event, the machine never asks to
/// list a directory or to read a file outside the root.
pub proof fn lemma_step_stays_within_root(root: Seq<char>, state: StateView, event: EventView)
    ensures
        stays_within(root, step_of(root, state, event).1),
{
}

/// The same holds of every action of a run.
pub proof fn lemma_run_stays_within_root(
    root: Seq<char>,
    files: Files,
    state: StateView,
    event: EventView,
)
    ensures
        forall|i: int|
            0 <= i < run_of(root, files, state, event).len() ==> stays_within(
                root,
                #[trigger] run_of(root, files, state, event)[i],
            ),
    decreases steps_left(state),
{
    let (next, action) = step_of(root, state, event);
    lemma_step_stays_within_root(root, state, event);
    if !(action is Close) {
        lemma_step_makes_progress(root, state, event);
        let rest = run_of(root, files, next, answer_of(files, action));
        lemma_run_stays_within_root(root, files, next, answer_of(files, action));
        assert forall|i: int| 0 <= i < (seq![action] + rest).len() implies stays_within(
            root,
            #[trigger] (seq![action] + rest)[i],
        ) by {
            if i > 0 {
                assert((seq![action] + rest)[i] == rest[i - 1]);
            }
        }
    }
}

/// A connection sends the response that its request calls for, and no
/// other; where a directory cannot be enumerated it sends none.
pub proof fn lemma_connection_sends_response(root: Seq<char>, files: Files, bytes: Seq<u8>)
    ensures
        responses_in(connection_of(root, files, bytes)) == match response_for(
            root,
            files,
            request_of(bytes),
        ) {
            Some(response) => seq![response],
            None => seq![],
        },
{
    let request = request_of(bytes);
    let start = StateView::ReadingRequest;
    let received = EventView::Received { bytes };
    let (next, action) = step_of(root, start, received);
    if action is Send {
        lemma_run_with_response(root, files, start, received, action->response);
    } else {
        let candidate = candidate_of(root, request.target);
        assert(action == ActionView::Resolve { candidate });
        lemma_run_with_question(root, files, start, received);
        let resolved = answer_of(files, action);
        let (then, asked) = step_of(root, next, resolved);
        if asked is Send {
            lemma_run_with_response(root, files, next, resolved, asked->response);
        } else {
            let path = files.canonical[candidate];
            lemma_run_with_question(root, files, next, resolved);
            let answer = answer_of(files, asked);
            let (last, fin) = step_of(root, then, answer);
            if fin is Send {
                lemma_run_with_response(root, files, then, answer, fin->response);
            } else {
                lemma_run_without_response(root, files, then, answer);
            }
        }
    }
}

/// The favicon is never served: a request for `/favicon.ico` is answered
/// with `404 Not Found` at once, whatever its method and whatever the
/// filesystem holds.
pub proof fn lemma_favicon_is_not_found(root: Seq<char>, files: Files, bytes: Seq<u8>)
    requires
        request_of(bytes).target == "/favicon.ico"@,
    ensures
        connection_of(root, files, bytes) == seq![
            ActionView::Send { response: not_found() },
            ActionView::Close,
        ],
{
    lemma_run_with_response(
        root,
        files,
        StateView::ReadingRequest,
        EventView::Received { bytes },
        not_found(),
    );
}

/// A request with any method but `GET`, for anything but the favicon, is
/// answered with `405 Method Not Allowed` before the filesystem is asked
/// anything.
pub proof fn lemma_other_methods_are_refused(root: Seq<char>, files: Files, bytes: Seq<u8>)
    requires
        request_of(bytes).method != "GET"@,
        request_of(bytes).target != "/favicon.ico"@,
    ensures
        connection_of(root, files, bytes) == seq![
            ActionView::Send { response: method_not_allowed() },
            ActionView::Close,
        ],
{
    lemma_run_with_response(
        root,
        files,
        StateView::ReadingRequest,
        EventView::Received { bytes },
        method_not_allowed(),
    );
}

/// A `GET` request whose candidate path cannot be canonicalized, because
/// nothing is there, is answered with `404 Not Found`.
pub proof fn lemma_missing_entry_is_not_found(root: Seq<char>, files: Files, bytes: Seq<u8>)
    requires
        request_of(bytes).method == "GET"@,
        !files.canonical.contains_key(candidate_of(root, request_of(bytes).target)),
    ensures
        responses_in(connection_of(root, files, bytes)) == seq![not_found()],
{
    lemma_connection_sends_response(root, files, bytes);
}

/// Serving a request leaves nothing behind that a later request could see:
/// what goes out on a connection is settled by the root, the filesystem and
/// the request line. Two requests with the same method and target, served
/// against the same filesystem, get the same actions and so the same bytes.
pub proof fn lemma_same_request_same_response(
    root: Seq<char>,
    files: Files,
    first: Seq<u8>,
    second: Seq<u8>,
)
    requires
        request_of(first) == request_of(second),
    ensures
        connection_of(root, files, first) == connection_of(root, files, second),
        bytes_sent(connection_of(root, files, first)) == bytes_sent(
            connection_of(root, files, second),
        ),
{
    let start = StateView::ReadingRequest;
    assert(step_of(root, start, EventView::Received { bytes: first }) == step_of(
        root,
        start,
        EventView::Received { bytes: second },
    ));
}

} // verus!
