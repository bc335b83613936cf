use connect_proxy::relay::{relay_step, run_relay, RelayAction, RelayEvent};

fn from_client(data: &[u8]) -> RelayEvent {
    RelayEvent { from_client: true, data: data.to_vec() }
}

fn from_upstream(data: &[u8]) -> RelayEvent {
    RelayEvent { from_client: false, data: data.to_vec() }
}

#[test]
fn nonempty_read_is_forwarded_whole() {
    match relay_step(b"hello".to_vec()) {
        RelayAction::Forward(data) => assert_eq!(data, b"hello".to_vec()),
        RelayAction::Finish => panic!("a non-empty read must be forwarded"),
    }
}

#[test]
fn empty_read_finishes_the_session() {
    assert!(matches!(relay_step(Vec::new()), RelayAction::Finish));
}

#[test]
fn bytes_cross_in_both_directions_in_order() {
    let events = vec![
        from_client(b"hel"),
        from_upstream(b"wor"),
        from_client(b"lo"),
        from_upstream(b"ld"),
    ];
    let outcome = run_relay(events);
    assert_eq!(outcome.to_upstream, b"hello".to_vec());
    assert_eq!(outcome.to_client, b"world".to_vec());
}

#[test]
fn close_on_either_side_ends_the_whole_session() {
    let events = vec![
        from_client(b"before"),
        from_upstream(&[]),
        from_client(b"after"),
        from_upstream(b"late"),
    ];
    let outcome = run_relay(events);
    assert_eq!(outcome.to_upstream, b"before".to_vec());
    assert_eq!(outcome.to_client, Vec::<u8>::new());
}

#[test]
fn immediate_close_relays_nothing() {
    let outcome = run_relay(vec![from_client(&[])]);
    assert_eq!(outcome.to_upstream, Vec::<u8>::new());
    assert_eq!(outcome.to_client, Vec::<u8>::new());
}

#[test]
fn one_sided_talker_is_relayed_verbatim() {
    let events = vec![
        from_client(b"a"),
        from_client(b"bc"),
        from_client(b"def"),
    ];
    let outcome = run_relay(events);
    assert_eq!(outcome.to_upstream, b"abcdef".to_vec());
    assert_eq!(outcome.to_client, Vec::<u8>::new());
}
