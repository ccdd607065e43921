use maelstrom_node::message::{Body, Evt, Msg, Pl, Task};
use maelstrom_node::node::Node;

fn s(text: &str) -> String {
    text.to_string()
}

fn request(src: &str, dest: &str, msg_id: usize, pl: Pl) -> Evt {
    Evt::Ext(Msg { src: s(src), dst: s(dest), body: Body { pl, msg_id: Some(msg_id), in_reply_to: None } })
}

fn started(id: &str, ids: &[&str], with_counter: bool) -> Node {
    let mut node = Node::new(with_counter);
    let node_ids: Vec<String> = ids.iter().map(|x| s(x)).collect();
    let out = node.handle(request("c0", id, 1, Pl::Init { node_id: s(id), node_ids })).unwrap();
    assert_eq!(out.len(), 1);
    assert_eq!(out[0].body.pl, Pl::InitOk);
    node
}

/// Hands each message to the node it is for, and what comes of it too,
/// until nothing is left; returns what went to others than the two nodes.
fn settle(n0: &mut Node, n1: &mut Node, first: Vec<Msg>) -> Vec<Msg> {
    let mut queue = first;
    let mut outside = Vec::new();
    let mut steps = 0;
    while !queue.is_empty() {
        steps += 1;
        assert!(steps < 1000);
        let msg = queue.remove(0);
        if msg.dst == "n0" {
            queue.extend(n0.handle(Evt::Ext(msg)).unwrap());
        } else if msg.dst == "n1" {
            queue.extend(n1.handle(Evt::Ext(msg)).unwrap());
        } else {
            outside.push(msg);
        }
    }
    outside
}

#[test]
fn init_and_echo() {
    let mut node = Node::new(false);
    let out = node
        .handle(request("c0", "n0", 1, Pl::Init { node_id: s("n0"), node_ids: vec![s("n0")] }))
        .unwrap();
    assert_eq!(out.len(), 1);
    assert_eq!(out[0].src, "n0");
    assert_eq!(out[0].dst, "c0");
    assert_eq!(out[0].body.pl, Pl::InitOk);
    assert_eq!(out[0].body.in_reply_to, Some(1));
    assert_eq!(out[0].body.msg_id, Some(0));

    let out = node.handle(request("c1", "n0", 2, Pl::Echo { echo: s("hi") })).unwrap();
    assert_eq!(out.len(), 1);
    assert_eq!(out[0].src, "n0");
    assert_eq!(out[0].dst, "c1");
    assert_eq!(out[0].body.pl, Pl::EchoOk { echo: s("hi") });
    assert_eq!(out[0].body.in_reply_to, Some(2));
    assert_eq!(out[0].body.msg_id, Some(1));
    assert_eq!(node.msg_id(), 2);
}

#[test]
fn broadcast_convergence() {
    let mut n0 = started("n0", &["n0", "n1"], false);
    let mut n1 = started("n1", &["n0", "n1"], false);
    let out = n0.handle(request("c1", "n0", 2, Pl::Broadcast { msg: 7 })).unwrap();
    assert_eq!(out.len(), 1);
    assert_eq!(out[0].body.pl, Pl::BroadcastOk);
    let out = n1.handle(request("c2", "n1", 2, Pl::Broadcast { msg: 9 })).unwrap();
    assert_eq!(out[0].body.pl, Pl::BroadcastOk);

    // nothing is passed on before the tick
    let out = n1.handle(request("c2", "n1", 3, Pl::Read)).unwrap();
    assert_eq!(out[0].body.pl, Pl::ReadOk { msgs: Some(vec![9]), value: None });

    let gossip0 = n0.handle(Evt::Int(Task::MeshGossip)).unwrap();
    assert_eq!(gossip0.len(), 1);
    assert_eq!(gossip0[0].src, "n0");
    assert_eq!(gossip0[0].dst, "n1");
    assert_eq!(gossip0[0].body.pl, Pl::Gossip { msgs: vec![7] });
    assert_eq!(gossip0[0].body.in_reply_to, None);
    let gossip1 = n1.handle(Evt::Int(Task::MeshGossip)).unwrap();
    assert_eq!(gossip1[0].body.pl, Pl::Gossip { msgs: vec![9] });
    let mut all = gossip0;
    all.extend(gossip1);
    let outside = settle(&mut n0, &mut n1, all);
    assert!(outside.is_empty());

    let out = n0.handle(request("c1", "n0", 4, Pl::Read)).unwrap();
    match &out[0].body.pl {
        Pl::ReadOk { msgs: Some(m), value: None } => {
            assert!(m.contains(&7) && m.contains(&9));
            assert_eq!(m.len(), 2);
        }
        other => panic!("{:?}", other),
    }
    let out = n1.handle(request("c2", "n1", 4, Pl::Read)).unwrap();
    match &out[0].body.pl {
        Pl::ReadOk { msgs: Some(m), value: None } => {
            assert!(m.contains(&7) && m.contains(&9));
            assert_eq!(m.len(), 2);
        }
        other => panic!("{:?}", other),
    }

    // everything is acknowledged: the next round sends nothing
    assert!(n0.handle(Evt::Int(Task::MeshGossip)).unwrap().is_empty());
    assert!(n1.handle(Evt::Int(Task::CentralGossip)).unwrap().is_empty());
}

#[test]
fn gossip_is_sent_again_until_acknowledged() {
    let mut n0 = started("n0", &["n0", "n1"], false);
    n0.handle(request("c1", "n0", 2, Pl::Broadcast { msg: 7 })).unwrap();
    let first = n0.handle(Evt::Int(Task::CentralGossip)).unwrap();
    assert_eq!(first.len(), 1);
    assert_eq!(first[0].body.pl, Pl::Gossip { msgs: vec![7] });
    let number = first[0].body.msg_id.unwrap();
    // the gossip is lost: the next round holds the value again
    let second = n0.handle(Evt::Int(Task::CentralGossip)).unwrap();
    assert_eq!(second[0].body.pl, Pl::Gossip { msgs: vec![7] });
    assert_eq!(second[0].body.msg_id, Some(number + 1));
    // on the acknowledgement of the first the peer is known to hold it
    let out = n0
        .handle(Evt::Ext(Msg {
            src: s("n1"),
            dst: s("n0"),
            body: Body { pl: Pl::GossipOk { id: number }, msg_id: Some(9), in_reply_to: Some(number) },
        }))
        .unwrap();
    assert!(out.is_empty());
    assert!(n0.handle(Evt::Int(Task::CentralGossip)).unwrap().is_empty());
    // an acknowledgement of nothing that waits changes nothing
    let out = n0
        .handle(Evt::Ext(Msg {
            src: s("n1"),
            dst: s("n0"),
            body: Body { pl: Pl::GossipOk { id: 4000 }, msg_id: Some(10), in_reply_to: None },
        }))
        .unwrap();
    assert!(out.is_empty());
}

#[test]
fn gossip_is_acknowledged_by_its_number() {
    let mut n1 = started("n1", &["n0", "n1"], false);
    let out = n1
        .handle(Evt::Ext(Msg {
            src: s("n0"),
            dst: s("n1"),
            body: Body { pl: Pl::Gossip { msgs: vec![3, 4, 3] }, msg_id: Some(77), in_reply_to: None },
        }))
        .unwrap();
    assert_eq!(out.len(), 1);
    assert_eq!(out[0].src, "n1");
    assert_eq!(out[0].dst, "n0");
    assert_eq!(out[0].body.pl, Pl::GossipOk { id: 77 });
    assert_eq!(out[0].body.in_reply_to, Some(77));
    let out = n1.handle(request("c", "n1", 5, Pl::Read)).unwrap();
    assert_eq!(out[0].body.pl, Pl::ReadOk { msgs: Some(vec![3, 4]), value: None });
    // the sender is known to hold what it sent
    assert!(n1.handle(Evt::Int(Task::MeshGossip)).unwrap().is_empty());
}

#[test]
fn counter_sum() {
    let mut n0 = started("n0", &["n0", "n1"], true);
    let mut n1 = started("n1", &["n0", "n1"], true);
    let out = n0.handle(request("c1", "n0", 2, Pl::Add { delta: 3 })).unwrap();
    assert_eq!(out[0].body.pl, Pl::AddOk);
    let out = n1.handle(request("c2", "n1", 2, Pl::Add { delta: 5 })).unwrap();
    assert_eq!(out[0].body.pl, Pl::AddOk);

    let out = n0.handle(request("c1", "n0", 3, Pl::Read)).unwrap();
    assert_eq!(out[0].body.pl, Pl::ReadOk { msgs: None, value: Some(3) });

    let mut spread = n0.handle(Evt::Int(Task::GossipCntr)).unwrap();
    assert_eq!(spread.len(), 1);
    assert_eq!(spread[0].dst, "n1");
    assert_eq!(spread[0].body.pl, Pl::GossipCntr { cntr: 3 });
    spread.extend(n1.handle(Evt::Int(Task::GossipCntr)).unwrap());
    assert!(settle(&mut n0, &mut n1, spread).is_empty());

    let out = n0.handle(request("c1", "n0", 4, Pl::Read)).unwrap();
    assert_eq!(out[0].body.pl, Pl::ReadOk { msgs: None, value: Some(8) });
    let out = n1.handle(request("c2", "n1", 4, Pl::Read)).unwrap();
    assert_eq!(out[0].body.pl, Pl::ReadOk { msgs: None, value: Some(8) });
}

#[test]
fn counter_read_never_falls() {
    let mut n0 = started("n0", &["n0", "n1"], true);
    let mut last = 0;
    let steps = vec![
        Pl::Add { delta: 2 },
        Pl::GossipCntr { cntr: 4 },
        Pl::Add { delta: 0 },
        Pl::GossipCntr { cntr: 4 },
        Pl::GossipCntr { cntr: 9 },
        Pl::Add { delta: 1 },
    ];
    let mut number = 2;
    for pl in steps {
        n0.handle(request("n1", "n0", number, pl)).unwrap();
        number += 1;
        let out = n0.handle(request("c", "n0", number, Pl::Read)).unwrap();
        number += 1;
        match out[0].body.pl {
            Pl::ReadOk { value: Some(v), .. } => {
                assert!(v >= last);
                last = v;
            }
            _ => panic!(),
        }
    }
    assert_eq!(last, 12);
}

#[test]
fn kafka_offsets() {
    let mut n0 = started("n0", &["n0"], false);
    let out = n0.handle(request("c1", "n0", 2, Pl::Send { key: s("logs"), msg: 100 })).unwrap();
    assert_eq!(out.len(), 1);
    assert_eq!(out[0].body.pl, Pl::SendOk { offset: 0 });
    assert_eq!(out[0].body.in_reply_to, Some(2));
    let out = n0.handle(request("c1", "n0", 3, Pl::Send { key: s("logs"), msg: 200 })).unwrap();
    assert_eq!(out[0].body.pl, Pl::SendOk { offset: 1 });
    let out = n0.handle(request("c1", "n0", 4, Pl::Poll { offsets: vec![(s("logs"), 0)] })).unwrap();
    assert_eq!(out[0].body.pl, Pl::PollOk { msgs: vec![(s("logs"), vec![(0, 100), (1, 200)])] });
}

#[test]
fn poll_from_an_offset_and_of_unknown_keys() {
    let mut n0 = started("n0", &["n0"], false);
    for (i, m) in [10usize, 20, 30].iter().enumerate() {
        n0.handle(request("c1", "n0", 2 + i, Pl::Send { key: s("a"), msg: *m })).unwrap();
    }
    let out = n0
        .handle(request(
            "c1",
            "n0",
            9,
            Pl::Poll { offsets: vec![(s("nope"), 0), (s("a"), 1), (s("a"), 3), (s("a"), 7)] },
        ))
        .unwrap();
    assert_eq!(
        out[0].body.pl,
        Pl::PollOk {
            msgs: vec![(s("a"), vec![(1, 20), (2, 30)]), (s("a"), vec![]), (s("a"), vec![])]
        }
    );
}

#[test]
fn send_again_gives_the_same_offset() {
    let mut n0 = started("n0", &["n0"], false);
    n0.handle(request("c1", "n0", 2, Pl::Send { key: s("k"), msg: 5 })).unwrap();
    let once = n0.handle(request("c1", "n0", 3, Pl::Send { key: s("k"), msg: 6 })).unwrap();
    let twice = n0.handle(request("c1", "n0", 4, Pl::Send { key: s("k"), msg: 6 })).unwrap();
    assert_eq!(once[0].body.pl, Pl::SendOk { offset: 1 });
    assert_eq!(twice[0].body.pl, Pl::SendOk { offset: 1 });
    let out = n0.handle(request("c1", "n0", 5, Pl::Poll { offsets: vec![(s("k"), 0)] })).unwrap();
    assert_eq!(out[0].body.pl, Pl::PollOk { msgs: vec![(s("k"), vec![(0, 5), (1, 6)])] });
}

#[test]
fn leader_spreads_its_log_and_replica_forwards() {
    let mut n0 = started("n0", &["n0", "n1", "n2"], false);
    let mut n1 = started("n1", &["n0", "n1", "n2"], false);
    // a replica passes the write on to the leader
    let out = n1.handle(request("c1", "n1", 2, Pl::Send { key: s("k"), msg: 5 })).unwrap();
    assert_eq!(out.len(), 1);
    assert_eq!(out[0].src, "n1");
    assert_eq!(out[0].dst, "n0");
    assert_eq!(out[0].body.pl, Pl::Send { key: s("k"), msg: 5 });
    assert_eq!(out[0].body.in_reply_to, Some(2));
    // the leader answers and spreads
    let before = n0.msg_id();
    let out = n0.handle(request("c1", "n0", 2, Pl::Send { key: s("k"), msg: 5 })).unwrap();
    assert_eq!(out.len(), 3);
    assert_eq!(out[0].dst, "c1");
    assert_eq!(out[0].body.pl, Pl::SendOk { offset: 0 });
    assert_eq!(out[0].body.msg_id, Some(before));
    assert_eq!(out[1].src, "n0");
    assert_eq!(out[1].dst, "n1");
    assert_eq!(out[1].body.pl, Pl::SendMany { key: s("k"), msgs: vec![5] });
    assert_eq!(out[1].body.msg_id, Some(before + 1));
    assert_eq!(out[1].body.in_reply_to, None);
    assert_eq!(out[2].dst, "n2");
    assert_eq!(out[2].body.msg_id, Some(before + 2));
    assert_eq!(n0.msg_id(), before + 3);
    // the replica takes the log and serves reads from it
    let many = Evt::Ext(Msg {
        src: s("n0"),
        dst: s("n1"),
        body: Body { pl: Pl::SendMany { key: s("k"), msgs: vec![5, 6] }, msg_id: Some(3), in_reply_to: None },
    });
    assert!(n1.handle(many).unwrap().is_empty());
    // a shorter one is passed over
    let shorter = Evt::Ext(Msg {
        src: s("n0"),
        dst: s("n1"),
        body: Body { pl: Pl::SendMany { key: s("k"), msgs: vec![9] }, msg_id: Some(4), in_reply_to: None },
    });
    assert!(n1.handle(shorter).unwrap().is_empty());
    let out = n1.handle(request("c1", "n1", 7, Pl::Poll { offsets: vec![(s("k"), 0)] })).unwrap();
    assert_eq!(out[0].body.pl, Pl::PollOk { msgs: vec![(s("k"), vec![(0, 5), (1, 6)])] });
}

#[test]
fn commit_offsets() {
    let mut n0 = started("n0", &["n0"], false);
    let out = n0
        .handle(request("c1", "n0", 2, Pl::CommitOffsets { offsets: vec![(s("logs"), 1)] }))
        .unwrap();
    assert_eq!(out.len(), 1);
    assert_eq!(out[0].body.pl, Pl::CommitOffsetsOk);
    let out = n0
        .handle(request("c1", "n0", 3, Pl::ListCommittedOffsets { keys: vec![s("logs")] }))
        .unwrap();
    assert_eq!(out[0].body.pl, Pl::ListCommittedOffsetsOk { offsets: vec![(s("logs"), 1)] });
    n0.handle(request("c1", "n0", 4, Pl::CommitOffsets { offsets: vec![(s("logs"), 0)] })).unwrap();
    let out = n0
        .handle(request(
            "c1",
            "n0",
            5,
            Pl::ListCommittedOffsets { keys: vec![s("other"), s("logs")] },
        ))
        .unwrap();
    assert_eq!(out[0].body.pl, Pl::ListCommittedOffsetsOk { offsets: vec![(s("logs"), 1)] });
}

#[test]
fn commit_offsets_is_spread_and_forwarded() {
    let mut n0 = started("n0", &["n0", "n1"], false);
    let mut n1 = started("n1", &["n0", "n1"], false);
    let out = n0
        .handle(request("c1", "n0", 2, Pl::CommitOffsets { offsets: vec![(s("a"), 3), (s("a"), 2)] }))
        .unwrap();
    assert_eq!(out.len(), 2);
    assert_eq!(out[0].body.pl, Pl::CommitOffsetsOk);
    assert_eq!(out[1].dst, "n1");
    assert_eq!(out[1].body.pl, Pl::CommitOffsets { offsets: vec![(s("a"), 3), (s("a"), 2)] });
    let out = n0.handle(request("c1", "n0", 3, Pl::ListCommittedOffsets { keys: vec![s("a")] })).unwrap();
    assert_eq!(out[0].body.pl, Pl::ListCommittedOffsetsOk { offsets: vec![(s("a"), 3)] });
    let out = n1
        .handle(request("c1", "n1", 2, Pl::CommitOffsets { offsets: vec![(s("a"), 3)] }))
        .unwrap();
    assert_eq!(out.len(), 1);
    assert_eq!(out[0].dst, "n0");
    assert_eq!(out[0].body.pl, Pl::CommitOffsets { offsets: vec![(s("a"), 3)] });
}

fn broadcast_txn(from: &str, to: &str, seq: usize, txn: Vec<(char, usize, Option<usize>)>) -> Evt {
    Evt::Ext(Msg {
        src: s(from),
        dst: s(to),
        body: Body {
            pl: Pl::BroadcastTxn { txns: vec![maelstrom_node::message::SeqTxn { seq, txn }] },
            msg_id: Some(50),
            in_reply_to: None,
        },
    })
}

#[test]
fn txn_determinism() {
    let mut n0 = started("n0", &["n0", "n1"], false);
    let mut n1 = started("n1", &["n0", "n1"], false);
    let out = n0.handle(request("c1", "n0", 2, Pl::Txn { txn: vec![('w', 1, Some(10))] })).unwrap();
    assert_eq!(out[0].body.pl, Pl::TxnOk { txn: vec![('w', 1, Some(10))] });
    let out = n1.handle(request("c2", "n1", 2, Pl::Txn { txn: vec![('w', 1, Some(20))] })).unwrap();
    assert_eq!(out[0].body.pl, Pl::TxnOk { txn: vec![('w', 1, Some(20))] });
    // nothing is committed before the flush
    assert_eq!(n0.stored(1), None);
    assert_eq!(n1.stored(1), None);
    // each learns what the other contributed, in either order
    assert!(n0.handle(broadcast_txn("n1", "n0", 0, vec![('w', 1, Some(20))])).unwrap().is_empty());
    assert!(n1.handle(broadcast_txn("n0", "n1", 0, vec![('w', 1, Some(10))])).unwrap().is_empty());
    let out0 = n0.handle(Evt::Int(Task::SwitchPhase)).unwrap();
    let out1 = n1.handle(Evt::Int(Task::SwitchPhase)).unwrap();
    assert_eq!(out0.len(), 1);
    assert_eq!(out1.len(), 1);
    assert_eq!(out0[0].dst, "n1");
    assert_eq!(out0[0].body.pl, out1[0].body.pl);
    match &out0[0].body.pl {
        Pl::BroadcastTxn { txns } => {
            assert_eq!(txns.len(), 2);
            assert_eq!(txns[0].txn, vec![('w', 1, Some(10))]);
            assert_eq!(txns[1].txn, vec![('w', 1, Some(20))]);
        }
        other => panic!("{:?}", other),
    }
    assert_eq!(n0.stored(1), Some(20));
    assert_eq!(n1.stored(1), Some(20));
    let r0 = n0.handle(request("c1", "n0", 3, Pl::Txn { txn: vec![('r', 1, None)] })).unwrap();
    let r1 = n1.handle(request("c2", "n1", 3, Pl::Txn { txn: vec![('r', 1, None)] })).unwrap();
    assert_eq!(r0[0].body.pl, Pl::TxnOk { txn: vec![('r', 1, Some(20))] });
    assert_eq!(r0[0].body.pl, r1[0].body.pl);
    assert_eq!(n0.clock().cur_epoch, 1);
    assert!(!n0.clock().receiving);
    assert_eq!(n0.clock().txn_id, 2);
}

#[test]
fn broadcast_txn_twice_is_as_once() {
    let run = |times: usize| {
        let mut n0 = started("n0", &["n0", "n1"], false);
        n0.handle(request("c1", "n0", 2, Pl::Txn { txn: vec![('w', 2, Some(1))] })).unwrap();
        for _ in 0..times {
            n0.handle(broadcast_txn("n1", "n0", 4, vec![('w', 1, Some(7)), ('w', 2, Some(8))]))
                .unwrap();
        }
        assert_eq!(n0.stored(1), None);
        n0.handle(Evt::Int(Task::SwitchPhase)).unwrap();
        (n0.stored(1), n0.stored(2))
    };
    assert_eq!(run(1), (Some(7), Some(8)));
    assert_eq!(run(2), run(1));
}

#[test]
fn epoch_without_every_contribution_is_not_flushed() {
    let mut n0 = started("n0", &["n0", "n1"], false);
    n0.handle(request("c1", "n0", 2, Pl::Txn { txn: vec![('w', 1, Some(10))] })).unwrap();
    let out = n0.handle(Evt::Int(Task::SwitchPhase)).unwrap();
    assert!(out.is_empty());
    assert_eq!(n0.stored(1), None);
    assert_eq!(n0.clock().cur_epoch, 1);
    assert!(!n0.clock().receiving);
    // the way back to receiving opens no epoch
    let out = n0.handle(Evt::Int(Task::SwitchPhase)).unwrap();
    assert!(out.is_empty());
    assert_eq!(n0.clock().cur_epoch, 1);
    assert!(n0.clock().receiving);
}

#[test]
fn single_node_commits_its_own_epoch() {
    let mut n0 = started("n0", &["n0"], false);
    let out = n0
        .handle(request("c1", "n0", 2, Pl::Txn { txn: vec![('r', 5, None), ('w', 5, Some(1)), ('r', 5, None)] }))
        .unwrap();
    assert_eq!(
        out[0].body.pl,
        Pl::TxnOk { txn: vec![('r', 5, None), ('w', 5, Some(1)), ('r', 5, Some(1))] }
    );
    n0.handle(request("c1", "n0", 3, Pl::Txn { txn: vec![('w', 5, Some(2))] })).unwrap();
    assert_eq!(n0.stored(5), None);
    let out = n0.handle(Evt::Int(Task::SwitchPhase)).unwrap();
    assert!(out.is_empty());
    assert_eq!(n0.stored(5), Some(2));
}

#[test]
fn tasks_before_init_send_nothing() {
    let mut node = Node::new(true);
    for task in [Task::CentralGossip, Task::MeshGossip, Task::GossipCntr, Task::SwitchPhase] {
        assert!(node.handle(Evt::Int(task)).unwrap().is_empty());
    }
    assert_eq!(node.msg_id(), 0);
    assert!(!node.is_initialized());
}

#[test]
fn answers_and_errors_are_passed_over() {
    let mut node = started("n0", &["n0", "n1"], false);
    let before = node.msg_id();
    for pl in [
        Pl::InitOk,
        Pl::EchoOk { echo: s("x") },
        Pl::BroadcastOk,
        Pl::AddOk,
        Pl::SendOk { offset: 3 },
        Pl::TopologyOk,
        Pl::Error { code: 30, text: s("timeout") },
        Pl::Error { code: 10, text: s("not supported") },
    ] {
        assert!(node.handle(request("n1", "n0", 9, pl)).unwrap().is_empty());
    }
    // each message from outside uses up a number all the same
    assert_eq!(node.msg_id(), before + 8);
    let mut fresh = Node::new(false);
    assert!(fresh.handle(request("n1", "n0", 9, Pl::InitOk)).unwrap().is_empty());
}

#[test]
fn topology_is_acknowledged_and_changes_no_route() {
    let mut n0 = started("n0", &["n0", "n1", "n2"], false);
    let out = n0
        .handle(request("c1", "n0", 2, Pl::Topology { topology: vec![(s("n0"), vec![s("n1")])] }))
        .unwrap();
    assert_eq!(out.len(), 1);
    assert_eq!(out[0].body.pl, Pl::TopologyOk);
    n0.handle(request("c1", "n0", 3, Pl::Broadcast { msg: 1 })).unwrap();
    let out = n0.handle(Evt::Int(Task::MeshGossip)).unwrap();
    assert_eq!(out.len(), 2);
    assert_eq!(out[0].dst, "n1");
    assert_eq!(out[1].dst, "n2");
}

#[test]
fn star_and_mesh() {
    // the leader gossips with everybody in the star, the others with the leader
    let mut n0 = started("n0", &["n0", "n1", "n2"], false);
    let mut n2 = started("n2", &["n0", "n1", "n2"], false);
    n0.handle(request("c1", "n0", 2, Pl::Broadcast { msg: 1 })).unwrap();
    n2.handle(request("c1", "n2", 2, Pl::Broadcast { msg: 1 })).unwrap();
    let out = n0.handle(Evt::Int(Task::CentralGossip)).unwrap();
    assert_eq!(out.iter().map(|m| m.dst.clone()).collect::<Vec<_>>(), vec![s("n1"), s("n2")]);
    let out = n2.handle(Evt::Int(Task::CentralGossip)).unwrap();
    assert_eq!(out.iter().map(|m| m.dst.clone()).collect::<Vec<_>>(), vec![s("n0")]);
    let out = n2.handle(Evt::Int(Task::MeshGossip)).unwrap();
    assert_eq!(out.iter().map(|m| m.dst.clone()).collect::<Vec<_>>(), vec![s("n0"), s("n1")]);
}

#[test]
fn generate_gives_a_new_identifier_each_time() {
    let mut n0 = started("n0", &["n0"], false);
    let mut seen = Vec::new();
    for i in 0..20 {
        let out = n0.handle(request("c1", "n0", 2 + i, Pl::Generate)).unwrap();
        assert_eq!(out.len(), 1);
        assert_eq!(out[0].body.in_reply_to, Some(2 + i));
        match &out[0].body.pl {
            Pl::GenerateOk { id } => {
                assert_eq!(id.chars().count(), 36);
                for (at, c) in id.chars().enumerate() {
                    if at == 8 || at == 13 || at == 18 || at == 23 {
                        assert_eq!(c, '-');
                    } else {
                        assert!(c.is_ascii_digit() || ('a'..='f').contains(&c));
                    }
                }
                assert!(!id.is_empty());
                assert!(!seen.contains(id));
                seen.push(id.clone());
            }
            other => panic!("{:?}", other),
        }
    }
}

#[test]
fn generate_with_a_given_identifier() {
    let mut n0 = started("n0", &["n0"], false);
    let out = n0.handle_with(request("c1", "n0", 2, Pl::Generate), s("abc")).unwrap();
    assert_eq!(out[0].body.pl, Pl::GenerateOk { id: s("abc") });
    assert_eq!(out[0].src, "n0");
    assert_eq!(out[0].dst, "c1");
}

fn read_values(node: &mut Node, number: usize) -> Vec<usize> {
    let out = node.handle(request("c9", "n0", number, Pl::Read)).unwrap();
    match &out[0].body.pl {
        Pl::ReadOk { msgs, .. } => msgs.clone().unwrap_or_default(),
        other => panic!("{:?}", other),
    }
}

#[test]
fn held_values_never_leave() {
    let mut n0 = started("n0", &["n0", "n1"], false);
    let mut held: Vec<usize> = Vec::new();
    let events = vec![
        request("c1", "n0", 2, Pl::Broadcast { msg: 4 }),
        Evt::Int(Task::MeshGossip),
        request("n1", "n0", 3, Pl::Gossip { msgs: vec![9, 4, 1] }),
        request("c1", "n0", 4, Pl::Broadcast { msg: 9 }),
        Evt::Int(Task::CentralGossip),
        request("n1", "n0", 5, Pl::GossipOk { id: 2 }),
        request("c1", "n0", 6, Pl::Add { delta: 1 }),
        request("c1", "n0", 7, Pl::Send { key: s("k"), msg: 77 }),
        Evt::Int(Task::SwitchPhase),
        request("c1", "n0", 8, Pl::Broadcast { msg: 0 }),
    ];
    let mut number = 100;
    for evt in events {
        n0.handle(evt).unwrap();
        number += 1;
        let now = read_values(&mut n0, number);
        assert!(now.len() >= held.len());
        assert_eq!(&now[..held.len()], &held[..]);
        held = now;
    }
    assert_eq!(held, vec![4, 9, 1, 0]);
}

#[test]
fn logs_never_get_shorter() {
    let mut n0 = started("n0", &["n0", "n1"], false);
    let mut n1 = started("n1", &["n0", "n1"], false);
    let length = |node: &mut Node, to: &str, number: usize| -> usize {
        let out = node.handle(request("c9", to, number, Pl::Poll { offsets: vec![(s("k"), 0)] })).unwrap();
        match &out[0].body.pl {
            Pl::PollOk { msgs } => msgs.first().map(|x| x.1.len()).unwrap_or(0),
            other => panic!("{:?}", other),
        }
    };
    let mut leader = 0;
    let mut replica = 0;
    for (i, m) in [5usize, 6, 5, 7, 7, 8].iter().enumerate() {
        let out = n0.handle(request("c1", "n0", 10 + i, Pl::Send { key: s("k"), msg: *m })).unwrap();
        let now = length(&mut n0, "n0", 50 + i);
        assert!(now >= leader);
        leader = now;
        // every second spreading is lost on the way
        if i % 2 == 0 {
            for msg in out.into_iter().filter(|x| x.dst == "n1") {
                assert!(n1.handle(Evt::Ext(msg)).unwrap().is_empty());
            }
        }
        let now = length(&mut n1, "n1", 50 + i);
        assert!(now >= replica);
        assert!(now <= leader);
        replica = now;
    }
    assert_eq!(leader, 4);
    assert_eq!(replica, 3);
}
