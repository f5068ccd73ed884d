use sep2_tls::test_server::{
    may_happen, router, step, Action, Document, Event, Method, Response, State, CREATED, NOT_FOUND,
    NO_CONTENT, OK,
};

const METHODS: [Method; 5] =
    [Method::Get, Method::Post, Method::Put, Method::Delete, Method::Other];

fn found(document: Document) -> Response {
    Response { status: OK, location: None, body: Some(document) }
}

fn bare(status: u16) -> Response {
    Response { status, location: None, body: None }
}

#[test]
fn documents_are_served() {
    let documents = [
        ("/dcap", Document::DC_16_04_11),
        ("/edev", Document::EDL_16_02_08),
        ("/edev/3", Document::ED_16_01_08),
        ("/edev/4/fsal", Document::FSAL_16_03_11),
        ("/edev/4", Document::ED_16_03_06),
        ("/edev/5", Document::ER_16_04_06),
        ("/edev/3/reg", Document::REG_16_01_10),
    ];
    for (path, document) in documents {
        assert_eq!(router(Method::Get, path), found(document));
    }
}

#[test]
fn devices_are_made_and_can_be_fetched() {
    let response = router(Method::Post, "/edev");
    assert_eq!(response, Response { status: CREATED, location: Some("/edev/4"), body: None });
    assert_eq!(router(Method::Get, response.location.unwrap()), found(Document::ED_16_03_06));
}

#[test]
fn responses_are_taken_without_a_location() {
    assert_eq!(router(Method::Post, "/rsp"), bare(CREATED));
    assert_eq!(router(Method::Get, "/rsp"), bare(NOT_FOUND));
}

#[test]
fn one_device_can_be_changed() {
    assert_eq!(router(Method::Put, "/edev/3"), bare(NO_CONTENT));
    assert_eq!(router(Method::Delete, "/edev/3"), bare(NO_CONTENT));
    assert_eq!(router(Method::Put, "/edev/4"), bare(NOT_FOUND));
    assert_eq!(router(Method::Delete, "/edev"), bare(NOT_FOUND));
}

#[test]
fn everything_else_is_not_found() {
    for method in METHODS {
        for path in ["", "/", "/dcap/", "/DCAP", "dcap", "/edev/33", "/edev/4/fsal/1"] {
            assert_eq!(router(method, path), bare(NOT_FOUND));
        }
    }
    assert_eq!(router(Method::Other, "/dcap"), bare(NOT_FOUND));
    assert_eq!(router(Method::Post, "/dcap"), bare(NOT_FOUND));
}

#[test]
fn connections_are_accepted_and_served() {
    let (state, action) = step(State::Accepting, Event::Accepted);
    assert_eq!((state, action), (State::Handshaking, Action::Handshake));
    assert_eq!(step(state, Event::HandshakeDone), (State::Accepting, Action::Serve));
}

#[test]
fn failures_do_not_stop_the_server() {
    assert_eq!(step(State::Accepting, Event::AcceptFailed), (State::Accepting, Action::Accept));
    assert_eq!(
        step(State::Handshaking, Event::HandshakeFailed),
        (State::Accepting, Action::Accept)
    );
}

#[test]
fn shutdown_drains_and_finishes() {
    let (state, action) = step(State::Accepting, Event::Shutdown);
    assert_eq!((state, action), (State::Draining, Action::Drain));
    assert_eq!(step(state, Event::Drained), (State::Stopped, Action::Finish));
}

#[test]
fn a_run_serves_what_it_can_until_shutdown() {
    let events = [
        Event::AcceptFailed,
        Event::Accepted,
        Event::HandshakeFailed,
        Event::Accepted,
        Event::HandshakeDone,
        Event::Shutdown,
        Event::Drained,
    ];
    let mut state = State::Accepting;
    let mut served: usize = 0;
    for event in events {
        assert!(may_happen(state, event));
        let (next, action) = step(state, event);
        state = next;
        if action == Action::Serve {
            served += 1;
        }
    }
    assert_eq!(state, State::Stopped);
    assert_eq!(served, 1);
    assert!(!may_happen(state, Event::Drained));
    assert!(!may_happen(State::Accepting, Event::HandshakeDone));
    assert!(!may_happen(State::Handshaking, Event::Shutdown));
    assert!(!may_happen(State::Draining, Event::Accepted));
}
