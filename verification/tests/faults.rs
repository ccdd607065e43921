use maelstrom_node::message::{Body, Evt, Msg, Pl, Task};
use maelstrom_node::model::Fault;
use maelstrom_node::node::Node;

fn text(t: &str) -> String {
    t.to_string()
}

fn ask(src: &str, dest: &str, msg_id: Option<usize>, pl: Pl) -> Evt {
    Evt::Ext(Msg { src: text(src), dst: text(dest), body: Body { pl, msg_id, in_reply_to: None } })
}

fn ready(with_counter: bool) -> Node {
    let mut node = Node::new(with_counter);
    node.handle(ask(
        "c0",
        "n0",
        Some(1),
        Pl::Init { node_id: text("n0"), node_ids: vec![text("n0"), text("n1")] },
    ))
    .unwrap();
    node
}

#[test]
fn request_before_init_is_refused() {
    let mut node = Node::new(false);
    for pl in [
        Pl::Echo { echo: text("x") },
        Pl::Generate,
        Pl::Read,
        Pl::Broadcast { msg: 1 },
        Pl::Add { delta: 1 },
        Pl::Send { key: text("k"), msg: 1 },
        Pl::SendMany { key: text("k"), msgs: vec![1] },
        Pl::Poll { offsets: vec![] },
        Pl::Txn { txn: vec![] },
        Pl::Gossip { msgs: vec![] },
        Pl::GossipCntr { cntr: 1 },
    ] {
        assert_eq!(node.handle(ask("c0", "n0", Some(1), pl)).unwrap_err(), Fault::NotInitialized);
    }
    assert_eq!(node.msg_id(), 0);
    assert!(!node.is_initialized());
}

#[test]
fn second_init_is_refused() {
    let mut node = ready(false);
    let before = node.msg_id();
    let again = ask("c0", "n0", Some(2), Pl::Init { node_id: text("n0"), node_ids: vec![text("n0")] });
    assert_eq!(node.check(&again), Some(Fault::AlreadyInitialized));
    assert_eq!(node.handle(again).unwrap_err(), Fault::AlreadyInitialized);
    assert_eq!(node.msg_id(), before);
}

#[test]
fn init_with_a_name_outside_the_cluster_is_refused() {
    let mut node = Node::new(false);
    let r = node.handle(ask(
        "c0",
        "n0",
        Some(1),
        Pl::Init { node_id: text("n7"), node_ids: vec![text("n0"), text("n1")] },
    ));
    assert_eq!(r.unwrap_err(), Fault::BadInit);
    let r = node.handle(ask("c0", "n0", Some(1), Pl::Init { node_id: text("n0"), node_ids: vec![] }));
    assert_eq!(r.unwrap_err(), Fault::BadInit);
    assert!(!node.is_initialized());
}

#[test]
fn gossip_from_a_stranger_is_refused() {
    let mut node = ready(false);
    let r = node.handle(ask("n9", "n0", Some(4), Pl::Gossip { msgs: vec![1] }));
    assert_eq!(r.unwrap_err(), Fault::UnknownPeer);
    let out = node.handle(ask("c", "n0", Some(5), Pl::Read)).unwrap();
    assert_eq!(out[0].body.pl, Pl::ReadOk { msgs: None, value: None });
}

#[test]
fn acknowledgement_from_a_stranger_is_refused() {
    let mut node = ready(false);
    node.handle(ask("c", "n0", Some(2), Pl::Broadcast { msg: 1 })).unwrap();
    let sent = node.handle(Evt::Int(Task::MeshGossip)).unwrap();
    let number = sent[0].body.msg_id.unwrap();
    let r = node.handle(ask("n9", "n0", Some(4), Pl::GossipOk { id: number }));
    assert_eq!(r.unwrap_err(), Fault::UnknownPeer);
    // the digest still waits: the peer's own acknowledgement settles it
    assert!(node.handle(ask("n1", "n0", Some(4), Pl::GossipOk { id: number })).unwrap().is_empty());
    assert!(node.handle(Evt::Int(Task::MeshGossip)).unwrap().is_empty());
}

#[test]
fn gossip_without_a_number_is_refused() {
    let mut node = ready(false);
    let r = node.handle(ask("n1", "n0", None, Pl::Gossip { msgs: vec![1] }));
    assert_eq!(r.unwrap_err(), Fault::MissingMsgId);
}

#[test]
fn malformed_transactions_are_refused() {
    let mut node = ready(false);
    let r = node.handle(ask("c", "n0", Some(2), Pl::Txn { txn: vec![('w', 1, None)] }));
    assert_eq!(r.unwrap_err(), Fault::MalformedTxn);
    let r = node.handle(ask("c", "n0", Some(2), Pl::Txn { txn: vec![('r', 1, None), ('x', 1, Some(2))] }));
    assert_eq!(r.unwrap_err(), Fault::MalformedTxn);
    let r = node.handle(ask(
        "n1",
        "n0",
        Some(2),
        Pl::BroadcastTxn {
            txns: vec![maelstrom_node::message::SeqTxn { seq: 0, txn: vec![('w', 1, None)] }],
        },
    ));
    assert_eq!(r.unwrap_err(), Fault::MalformedTxn);
    assert_eq!(node.clock().txn_id, 0);
    // a read may bring a value along
    let out = node.handle(ask("c", "n0", Some(2), Pl::Txn { txn: vec![('r', 1, Some(9))] })).unwrap();
    assert_eq!(out[0].body.pl, Pl::TxnOk { txn: vec![('r', 1, None)] });
}

#[test]
fn counter_overflow_is_refused() {
    let mut node = ready(true);
    node.handle(ask("c", "n0", Some(2), Pl::Add { delta: usize::MAX - 1 })).unwrap();
    let r = node.handle(ask("c", "n0", Some(3), Pl::Add { delta: 2 }));
    assert_eq!(r.unwrap_err(), Fault::Overflow);
    node.handle(ask("c", "n0", Some(4), Pl::Add { delta: 1 })).unwrap();
    let out = node.handle(ask("c", "n0", Some(5), Pl::Read)).unwrap();
    assert_eq!(out[0].body.pl, Pl::ReadOk { msgs: None, value: Some(usize::MAX) });
    // a peer's report lifts the sum out of range: the read is refused
    node.handle(ask("n1", "n0", Some(6), Pl::GossipCntr { cntr: 1 })).unwrap();
    let r = node.handle(ask("c", "n0", Some(7), Pl::Read));
    assert_eq!(r.unwrap_err(), Fault::Overflow);
    // without the counter the read does not look at the sum
    let mut plain = ready(false);
    plain.handle(ask("n1", "n0", Some(6), Pl::GossipCntr { cntr: usize::MAX })).unwrap();
    plain.handle(ask("c", "n0", Some(6), Pl::Add { delta: 1 })).unwrap();
    let out = plain.handle(ask("c", "n0", Some(7), Pl::Read)).unwrap();
    assert_eq!(out[0].body.pl, Pl::ReadOk { msgs: None, value: None });
}

#[test]
fn check_agrees_with_handle() {
    let mut node = ready(false);
    let good = ask("c", "n0", Some(2), Pl::Echo { echo: text("x") });
    assert_eq!(node.check(&good), None);
    assert!(node.handle(good).is_ok());
    let bad = ask("n9", "n0", Some(2), Pl::Gossip { msgs: vec![] });
    assert_eq!(node.check(&bad), Some(Fault::UnknownPeer));
    assert!(node.handle(bad).is_err());
    assert_eq!(node.check(&Evt::Int(Task::SwitchPhase)), None);
}
