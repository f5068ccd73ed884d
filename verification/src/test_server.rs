//! The server that clients are tested against: what it answers, and how it runs.

use vstd::prelude::*;

use crate::text::same_text;

verus! {

/// The methods of requests.
#[derive(Clone, Copy, Debug, PartialEq, Eq, Structural)]
pub enum Method {
    Get,
    Post,
    Put,
    Delete,
    /// Any other method.
    Other,
}

/// The example documents that are served.
#[allow(non_camel_case_types)]
#[derive(Clone, Copy, Debug, PartialEq, Eq, Structural)]
pub enum Document {
    DC_16_04_11,
    EDL_16_02_08,
    ED_16_01_08,
    FSAL_16_03_11,
    ED_16_03_06,
    ER_16_04_06,
    REG_16_01_10,
}

/// The status of a request that was granted.
pub const OK: u16 = 200;

/// The status of a request that made something new.
pub const CREATED: u16 = 201;

/// The status of a request that was granted and has no document for an answer.
pub const NO_CONTENT: u16 = 204;

/// The status of a request for something that there is not.
pub const NOT_FOUND: u16 = 404;

/// The answer to a request.
#[derive(Clone, Copy, Debug, PartialEq, Eq)]
pub struct Response {
    pub status: u16,
    /// Where to find what was made.
    pub location: Option<&'static str>,
    pub body: Option<Document>,
}

/// The mathematical content of a [`Response`].
pub struct ResponseView {
    pub status: u16,
    pub location: Option<Seq<char>>,
    pub body: Option<Document>,
}

impl View for Response {
    type V = ResponseView;

    open spec fn view(&self) -> ResponseView {
        ResponseView {
            status: self.status,
            location: match self.location {
                Some(location) => Some(location@),
                None => None,
            },
            body: self.body,
        }
    }
}

/// The document at a path.
pub open spec fn document_at(path: Seq<char>) -> Option<Document> {
    if path == "/dcap"@ {
        Some(Document::DC_16_04_11)
    } else if path == "/edev"@ {
        Some(Document::EDL_16_02_08)
    } else if path == "/edev/3"@ {
        Some(Document::ED_16_01_08)
    } else if path == "/edev/4/fsal"@ {
        Some(Document::FSAL_16_03_11)
    } else if path == "/edev/4"@ {
        Some(Document::ED_16_03_06)
    } else if path == "/edev/5"@ {
        Some(Document::ER_16_04_06)
    } else if path == "/edev/3/reg"@ {
        Some(Document::REG_16_01_10)
    } else {
        None
    }
}

/// The answer that there is nothing of the kind.
pub open spec fn not_found() -> ResponseView {
    ResponseView { status: NOT_FOUND, location: None, body: None }
}

/// The answer to a request.
pub open spec fn answer(method: Method, path: Seq<char>) -> ResponseView {
    match method {
        Method::Get => match document_at(path) {
            Some(document) => ResponseView { status: OK, location: None, body: Some(document) },
            None => not_found(),
        },
        Method::Post => if path == "/edev"@ {
            ResponseView { status: CREATED, location: Some("/edev/4"@), body: None }
        } else if path == "/rsp"@ {
            ResponseView { status: CREATED, location: None, body: None }
        } else {
            not_found()
        },
        Method::Put => if path == "/edev/3"@ {
            ResponseView { status: NO_CONTENT, location: None, body: None }
        } else {
            not_found()
        },
        Method::Delete => if path == "/edev/3"@ {
            ResponseView { status: NO_CONTENT, location: None, body: None }
        } else {
            not_found()
        },
        Method::Other => not_found(),
    }
}

fn find_document(path: &str) -> (document: Option<Document>)
    ensures
        document == document_at(path@),
{
    if same_text(path, "/dcap") {
        Some(Document::DC_16_04_11)
    } else if same_text(path, "/edev") {
        Some(Document::EDL_16_02_08)
    } else if same_text(path, "/edev/3") {
        Some(Document::ED_16_01_08)
    } else if same_text(path, "/edev/4/fsal") {
        Some(Document::FSAL_16_03_11)
    } else if same_text(path, "/edev/4") {
        Some(Document::ED_16_03_06)
    } else if same_text(path, "/edev/5") {
        Some(Document::ER_16_04_06)
    } else if same_text(path, "/edev/3/reg") {
        Some(Document::REG_16_01_10)
    } else {
        None
    }
}

/// Answers a request.
pub fn router(method: Method, path: &str) -> (response: Response)
    ensures
        response@ == answer(method, path@),
{
    let mut response = Response { status: OK, location: None, body: None };
    match method {
        Method::Get => {
            response.body = find_document(path);
            if response.body.is_none() {
                response.status = NOT_FOUND;
            }
        },
        Method::Post => {
            if same_text(path, "/edev") {
                response.status = CREATED;
                response.location = Some("/edev/4");
            } else if same_text(path, "/rsp") {
                response.status = CREATED;
            } else {
                response.status = NOT_FOUND;
            }
        },
        Method::Put => {
            response.status = if same_text(path, "/edev/3") {
                NO_CONTENT
            } else {
                NOT_FOUND
            };
        },
        Method::Delete => {
            response.status = if same_text(path, "/edev/3") {
                NO_CONTENT
            } else {
                NOT_FOUND
            };
        },
        Method::Other => {
            response.status = NOT_FOUND;
        },
    }
    response
}

/// An answer has a document in it if and only if a document was asked for and is there, and a
/// location only where something was made.
pub proof fn law_answers_fit_their_status(method: Method, path: Seq<char>)
    ensures
        answer(method, path).body is Some <==> answer(method, path).status == OK,
        answer(method, path).status == OK <==> method == Method::Get && document_at(path) is Some,
        answer(method, path).location is Some ==> answer(method, path).status == CREATED,
        answer(method, path).status == CREATED ==> method == Method::Post,
        answer(method, path).status == NO_CONTENT ==> method == Method::Put || method
            == Method::Delete,
{
}

/// No document stands at two paths.
pub proof fn law_documents_have_one_path(a: Seq<char>, b: Seq<char>)
    requires
        document_at(a) is Some,
        document_at(a) == document_at(b),
    ensures
        a == b,
{
}

/// What the server is doing.
#[derive(Clone, Copy, Debug, PartialEq, Eq, Structural)]
pub enum State {
    /// It waits for a connection or for the word to shut down.
    Accepting,
    /// It performs the TLS handshake on a connection.
    Handshaking,
    /// It waits for the handlers of the connections to finish.
    Draining,
    /// It is done.
    Stopped,
}

/// What happens to the server.
#[derive(Clone, Copy, Debug, PartialEq, Eq, Structural)]
pub enum Event {
    Shutdown,
    Accepted,
    AcceptFailed,
    HandshakeDone,
    HandshakeFailed,
    Drained,
}

/// What the server does next.
#[derive(Clone, Copy, Debug, PartialEq, Eq, Structural)]
pub enum Action {
    /// Wait for a connection or for the word to shut down.
    Accept,
    /// Perform the handshake on the connection that was accepted.
    Handshake,
    /// Hand the connection to a handler of its own, and wait for the next.
    Serve,
    /// Wait for all handlers to finish.
    Drain,
    /// Return.
    Finish,
}

/// Whether an event can happen in a state.
pub open spec fn can_happen(state: State, event: Event) -> bool {
    match state {
        State::Accepting => event == Event::Shutdown || event == Event::Accepted || event
            == Event::AcceptFailed,
        State::Handshaking => event == Event::HandshakeDone || event == Event::HandshakeFailed,
        State::Draining => event == Event::Drained,
        State::Stopped => false,
    }
}

/// Tells whether an event can happen in a state.
pub fn may_happen(state: State, event: Event) -> (possible: bool)
    ensures
        possible == can_happen(state, event),
{
    match (state, event) {
        (State::Accepting, Event::Shutdown) => true,
        (State::Accepting, Event::Accepted) => true,
        (State::Accepting, Event::AcceptFailed) => true,
        (State::Handshaking, Event::HandshakeDone) => true,
        (State::Handshaking, Event::HandshakeFailed) => true,
        (State::Draining, Event::Drained) => true,
        _ => false,
    }
}

/// The state after an event, and what to do.
pub open spec fn next(event: Event) -> (State, Action) {
    match event {
        Event::Shutdown => (State::Draining, Action::Drain),
        Event::Accepted => (State::Handshaking, Action::Handshake),
        Event::AcceptFailed => (State::Accepting, Action::Accept),
        Event::HandshakeDone => (State::Accepting, Action::Serve),
        Event::HandshakeFailed => (State::Accepting, Action::Accept),
        Event::Drained => (State::Stopped, Action::Finish),
    }
}

/// Takes an event in.
pub fn step(state: State, event: Event) -> (result: (State, Action))
    requires
        can_happen(state, event),
    ensures
        result == next(event),
{
    match (state, event) {
        (State::Accepting, Event::Shutdown) => (State::Draining, Action::Drain),
        (State::Accepting, Event::Accepted) => (State::Handshaking, Action::Handshake),
        (State::Handshaking, Event::HandshakeDone) => (State::Accepting, Action::Serve),
        (State::Draining, _) => (State::Stopped, Action::Finish),
        // One connection that fails does not concern the others.
        _ => (State::Accepting, Action::Accept),
    }
}

/// Whether events can happen one after another from a state on.
pub open spec fn is_run(state: State, events: Seq<Event>) -> bool
    decreases events.len(),
{
    events.len() == 0 || {
        &&& is_run(state, events.drop_last())
        &&& can_happen(state_after(state, events.drop_last()), events.last())
    }
}

/// The state after some events.
pub open spec fn state_after(state: State, events: Seq<Event>) -> State {
    if events.len() == 0 {
        state
    } else {
        next(events.last()).0
    }
}

/// How many of some events are equal to a given one.
pub open spec fn occurrences(events: Seq<Event>, event: Event) -> nat
    decreases events.len(),
{
    if events.len() == 0 {
        0
    } else {
        occurrences(events.drop_last(), event) + if events.last() == event {
            1nat
        } else {
            0nat
        }
    }
}

/// The server runs until it is told to shut down, whatever fails.
pub proof fn law_only_shutdown_ends_the_run(events: Seq<Event>)
    requires
        is_run(State::Accepting, events),
    ensures
        occurrences(events, Event::Shutdown) == 0 <==> {
            ||| state_after(State::Accepting, events) == State::Accepting
            ||| state_after(State::Accepting, events) == State::Handshaking
        },
    decreases events.len(),
{
    if events.len() > 0 {
        law_only_shutdown_ends_the_run(events.drop_last());
    }
}

/// Once the server has been told to shut down, it takes no more connections, and it is told only
/// once.
pub proof fn law_shutdown_is_final(events: Seq<Event>, index: int)
    requires
        is_run(State::Accepting, events),
        0 <= index < events.len(),
        events[index] == Event::Shutdown,
    ensures
        forall|later: int| index < later < events.len() ==> #[trigger] events[later]
            == Event::Drained,
        events.len() <= index + 2,
    decreases events.len(),
{
    let before = events.drop_last();
    if index < events.len() - 1 {
        law_shutdown_is_final(before, index);
        assert(before[index] == Event::Shutdown);
        assert(before.last() == Event::Shutdown || before.last() == Event::Drained);
    }
}

/// Every connection that was accepted either got a handler, failed its handshake, or is in it.
pub proof fn law_connections_are_accounted_for(events: Seq<Event>)
    requires
        is_run(State::Accepting, events),
    ensures
        occurrences(events, Event::Accepted) == occurrences(events, Event::HandshakeDone)
            + occurrences(events, Event::HandshakeFailed) + if state_after(
            State::Accepting,
            events,
        ) == State::Handshaking {
            1nat
        } else {
            0nat
        },
    decreases events.len(),
{
    if events.len() > 0 {
        law_connections_are_accounted_for(events.drop_last());
    }
}

/// Documents are served at seven paths, each its own, and at no other.
pub proof fn law_documents_that_are_served(path: Seq<char>)
    ensures
        path == "/dcap"@ <==> answer(Method::Get, path).body == Some(Document::DC_16_04_11),
        path == "/edev"@ <==> answer(Method::Get, path).body == Some(Document::EDL_16_02_08),
        path == "/edev/3"@ <==> answer(Method::Get, path).body == Some(Document::ED_16_01_08),
        path == "/edev/4/fsal"@ <==> answer(Method::Get, path).body == Some(
            Document::FSAL_16_03_11,
        ),
        path == "/edev/4"@ <==> answer(Method::Get, path).body == Some(Document::ED_16_03_06),
        path == "/edev/5"@ <==> answer(Method::Get, path).body == Some(Document::ER_16_04_06),
        path == "/edev/3/reg"@ <==> answer(Method::Get, path).body == Some(Document::REG_16_01_10),
        answer(Method::Get, path).body is Some <==> answer(Method::Get, path).status == 200,
        answer(Method::Get, path).body is None <==> answer(Method::Get, path).status == 404,
        answer(Method::Get, path).location is None,
{
    lemma_paths_differ();
}

/// The paths at which something is served are different texts.
proof fn lemma_paths_differ()
    ensures
        "/dcap"@ != "/edev"@,
        "/dcap"@.len() == 5,
        "/edev"@.len() == 5,
        "/edev/3"@.len() == 7,
        "/edev/4"@.len() == 7,
        "/edev/5"@.len() == 7,
        "/edev/3"@[6] == '3',
        "/edev/4"@[6] == '4',
        "/edev/5"@[6] == '5',
        "/edev/4/fsal"@.len() == 12,
        "/edev/3/reg"@.len() == 11,
        "/rsp"@.len() == 4,
{
    reveal_strlit("/dcap");
    reveal_strlit("/edev");
    reveal_strlit("/edev/3");
    reveal_strlit("/edev/4");
    reveal_strlit("/edev/5");
    reveal_strlit("/edev/4/fsal");
    reveal_strlit("/edev/3/reg");
    reveal_strlit("/rsp");
    assert("/dcap"@[1] == 'd');
    assert("/edev"@[1] == 'e');
}

/// Something is made at two paths, and only one of them says where it is.
pub proof fn law_what_can_be_made(path: Seq<char>)
    ensures
        answer(Method::Post, path).status == 201 <==> path == "/edev"@ || path == "/rsp"@,
        answer(Method::Post, path).status != 201 ==> answer(Method::Post, path).status == 404,
        path == "/edev"@ ==> answer(Method::Post, path).location == Some("/edev/4"@),
        path != "/edev"@ ==> answer(Method::Post, path).location is None,
        answer(Method::Post, path).body is None,
{
    lemma_paths_differ();
}

/// One device can be changed and removed, which is answered without a document; nothing else can.
pub proof fn law_what_can_be_changed(path: Seq<char>)
    ensures
        answer(Method::Put, path) == answer(Method::Delete, path),
        answer(Method::Put, path).status == 204 <==> path == "/edev/3"@,
        answer(Method::Put, path).status != 204 ==> answer(Method::Put, path).status == 404,
        answer(Method::Put, path).location is None,
        answer(Method::Put, path).body is None,
{
}

/// A request by any other method is for something that there is not.
pub proof fn law_other_methods_find_nothing(path: Seq<char>)
    ensures
        answer(Method::Other, path).status == 404,
        answer(Method::Other, path).location is None,
        answer(Method::Other, path).body is None,
{
}

/// The content of an answer is its status, its location as a text, and its document.
pub proof fn law_answer_content(response: Response)
    ensures
        response@.status == response.status,
        response.location matches Some(location) ==> response@.location == Some(location@),
        response.location is None ==> response@.location is None,
        response@.body == response.body,
{
}

/// Each event belongs to one state: a connection comes or the word to shut down is heard while the
/// server waits, a handshake ends while it is performed, and the handlers finish while the server
/// waits for them.
pub proof fn law_when_events_happen(state: State, event: Event)
    ensures
        event is Shutdown || event is Accepted || event is AcceptFailed ==> (can_happen(
            state,
            event,
        ) <==> state is Accepting),
        event is HandshakeDone || event is HandshakeFailed ==> (can_happen(state, event)
            <==> state is Handshaking),
        event is Drained ==> (can_happen(state, event) <==> state is Draining),
{
}

/// What the server does next is what its new state is about, except that it hands a connection over
/// once the handshake is done; a connection or a handshake that fails changes nothing for the others.
pub proof fn law_what_follows_an_event(event: Event)
    ensures
        event is Shutdown ==> next(event).0 is Draining && next(event).1 is Drain,
        event is Accepted ==> next(event).0 is Handshaking && next(event).1 is Handshake,
        event is AcceptFailed ==> next(event).0 is Accepting && next(event).1 is Accept,
        event is HandshakeDone ==> next(event).0 is Accepting && next(event).1 is Serve,
        event is HandshakeFailed ==> next(event).0 is Accepting && next(event).1 is Accept,
        event is Drained ==> next(event).0 is Stopped && next(event).1 is Finish,
{
}

} // verus!
