//! What fatal errors lead to.

use database::shutdown::{ShutdownAction, ShutdownSignal};

#[test]
fn a_fatal_error_is_broadcast() {
    let signal = ShutdownSignal::new("channel");
    match signal.signal("disk on fire") {
        ShutdownAction::Broadcast(tx) => assert_eq!(*tx, "channel"),
        other => panic!("{:?}", other),
    }
}

#[test]
fn a_fatal_error_without_listeners_panics() {
    let signal = ShutdownSignal::<&'static str>::panic();
    match signal.signal("disk on fire") {
        ShutdownAction::Panic(msg) => {
            assert_eq!(msg, "Shutting down due to fatal error: disk on fire")
        },
        other => panic!("{:?}", other),
    }
}

#[test]
fn a_clone_reaches_the_same_listeners() {
    assert_eq!(ShutdownSignal::new("channel").clone().shutdown_tx, Some("channel"));
    assert_eq!(ShutdownSignal::<&'static str>::panic().clone().shutdown_tx, None);
}
