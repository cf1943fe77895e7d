use net_tools::listener::{
    Endpoint, Listener, ListenerAction, ListenerEvent, ListenerState, BIND_FAILURE_EXIT_CODE,
    DEFAULT_PORT,
};

#[test]
fn default_endpoint_is_loopback_8080() {
    let endpoint = Endpoint::default_endpoint();
    assert_eq!(endpoint.octets(), [127, 0, 0, 1]);
    assert_eq!(endpoint.port, 8080);
    assert_eq!(DEFAULT_PORT, 8080);
    assert_eq!(endpoint, Endpoint::loopback(8080));
}

#[test]
fn loopback_takes_any_port() {
    let endpoint = Endpoint::loopback(0);
    assert_eq!(endpoint.octets(), [127, 0, 0, 1]);
    assert_eq!(endpoint.port, 0);
}

#[test]
fn listener_starts_unbound() {
    let listener = Listener::start(Endpoint::loopback(9000));
    assert_eq!(listener.state(), ListenerState::Starting);
    assert_eq!(listener.endpoint(), Endpoint::loopback(9000));
    assert!(listener.accepts(&ListenerEvent::<u32>::Bound));
    assert!(listener.accepts(&ListenerEvent::<u32>::BindFailed));
    assert!(!listener.accepts(&ListenerEvent::Accepted(1u32)));
    assert!(!listener.accepts(&ListenerEvent::<u32>::AcceptFailed));
}

#[test]
fn bind_success_starts_accepting() {
    let mut listener = Listener::start(Endpoint::default_endpoint());
    assert_eq!(listener.step(ListenerEvent::<u32>::Bound), ListenerAction::Announce);
    assert_eq!(listener.state(), ListenerState::Accepting);
    assert!(!listener.accepts(&ListenerEvent::<u32>::Bound));
}

#[test]
fn bind_failure_is_fatal() {
    let mut listener = Listener::start(Endpoint::default_endpoint());
    assert_eq!(listener.step(ListenerEvent::<u32>::BindFailed), ListenerAction::Exit(1));
    assert_ne!(BIND_FAILURE_EXIT_CODE, 0);
    assert_eq!(listener.state(), ListenerState::Failed);
    assert!(!listener.accepts(&ListenerEvent::<u32>::Bound));
    assert!(!listener.accepts(&ListenerEvent::<u32>::BindFailed));
    assert!(!listener.accepts(&ListenerEvent::Accepted(1u32)));
    assert!(!listener.accepts(&ListenerEvent::<u32>::AcceptFailed));
}

#[test]
fn accepted_connection_is_handed_over() {
    let mut listener = Listener::start(Endpoint::default_endpoint());
    listener.step(ListenerEvent::<String>::Bound);
    let action = listener.step(ListenerEvent::Accepted(String::from("connection 1")));
    assert_eq!(action, ListenerAction::Spawn(String::from("connection 1")));
    assert_eq!(listener.state(), ListenerState::Accepting);
}

#[test]
fn accept_failure_does_not_stop_the_listener() {
    let mut listener = Listener::start(Endpoint::default_endpoint());
    listener.step(ListenerEvent::<u32>::Bound);
    assert_eq!(listener.step(ListenerEvent::Accepted(1u32)), ListenerAction::Spawn(1));
    for _ in 0..100 {
        assert_eq!(
            listener.step(ListenerEvent::<u32>::AcceptFailed),
            ListenerAction::ReportAcceptFailure
        );
        assert_eq!(listener.state(), ListenerState::Accepting);
    }
    assert!(listener.accepts(&ListenerEvent::Accepted(2u32)));
    assert_eq!(listener.step(ListenerEvent::Accepted(2u32)), ListenerAction::Spawn(2));
    assert_eq!(listener.endpoint(), Endpoint::default_endpoint());
}

#[test]
fn many_connections_are_all_accepted() {
    let mut listener = Listener::start(Endpoint::default_endpoint());
    listener.step(ListenerEvent::<usize>::Bound);
    for connection in 0..1000usize {
        assert_eq!(
            listener.step(ListenerEvent::Accepted(connection)),
            ListenerAction::Spawn(connection)
        );
    }
    assert_eq!(listener.state(), ListenerState::Accepting);
}

#[test]
fn try_step_of_the_listener() {
    let mut listener = Listener::start(Endpoint::default_endpoint());
    assert_eq!(
        listener.try_step(ListenerEvent::Accepted(5u32)),
        Err(ListenerEvent::Accepted(5u32))
    );
    assert_eq!(listener.state(), ListenerState::Starting);
    assert_eq!(listener.try_step(ListenerEvent::<u32>::Bound), Ok(ListenerAction::Announce));
    assert_eq!(listener.try_step(ListenerEvent::Accepted(5u32)), Ok(ListenerAction::Spawn(5)));
    assert_eq!(
        listener.try_step(ListenerEvent::<u32>::AcceptFailed),
        Ok(ListenerAction::ReportAcceptFailure)
    );
    assert_eq!(listener.try_step(ListenerEvent::<u32>::Bound), Err(ListenerEvent::Bound));
    assert_eq!(listener.state(), ListenerState::Accepting);
}
