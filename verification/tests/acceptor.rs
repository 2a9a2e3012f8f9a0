use mjpeg_stream::acceptor::{Acceptor, Directive};

#[test]
fn new_acceptor_listens() {
    let acceptor = Acceptor::new();
    assert!(acceptor.is_listening());
}

#[test]
fn every_connection_is_spawned() {
    let mut acceptor = Acceptor::new();
    for _ in 0..100 {
        assert_eq!(acceptor.on_accept(true), Directive::Spawn);
        assert!(acceptor.is_listening());
    }
}

#[test]
fn failed_accept_stops_the_server() {
    let mut acceptor = Acceptor::new();
    assert_eq!(acceptor.on_accept(true), Directive::Spawn);
    assert_eq!(acceptor.on_accept(false), Directive::Stop);
    assert!(!acceptor.is_listening());
}

#[test]
fn stopped_acceptor_is_not_restarted() {
    let mut acceptor = Acceptor::new();
    assert_eq!(acceptor.on_accept(false), Directive::Stop);
    assert_eq!(acceptor.on_accept(true), Directive::Stop);
    assert_eq!(acceptor.on_accept(true), Directive::Stop);
    assert!(!acceptor.is_listening());
}
