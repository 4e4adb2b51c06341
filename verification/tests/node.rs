use gossip_node::error::ProtocolError;
use gossip_node::message::{Message, MessageBody};
use gossip_node::node::{Continuation, Node};
use gossip_node::scheduler::Action;
use gossip_node::state::{
    IDS_EXHAUSTED, NO_HANDLER, RETRY_INTERVAL, UNEXPECTED_REPLY, UNSOLICITED_REPLY,
};
use gossip_node::topology::Topology;

fn name(text: &str) -> String {
    text.to_string()
}

fn echo(msg_id: u64, text: &str) -> MessageBody {
    MessageBody::Echo { msg_id, echo: text.to_string() }
}

fn echo_ok(text: &str, in_reply_to: u64) -> MessageBody {
    MessageBody::EchoOk { echo: text.to_string(), in_reply_to }
}

fn topology_ok(in_reply_to: u64) -> MessageBody {
    MessageBody::TopologyOk { in_reply_to }
}

fn broadcast(msg_id: u64, value: i64) -> MessageBody {
    MessageBody::Broadcast { msg_id, message: value }
}

fn broadcast_ok(in_reply_to: u64) -> MessageBody {
    MessageBody::BroadcastOk { in_reply_to }
}

fn read(msg_id: u64) -> MessageBody {
    MessageBody::Read { msg_id }
}

fn add(msg_id: u64, element: i64) -> MessageBody {
    MessageBody::Add { msg_id, element }
}

fn add_ok(in_reply_to: u64) -> MessageBody {
    MessageBody::AddOk { in_reply_to }
}

fn names(list: &[&str]) -> Vec<String> {
    list.iter().map(|text| text.to_string()).collect()
}

fn message(src: &str, dest: &str, body: MessageBody) -> Message {
    Message { src: name(src), dest: name(dest), body }
}

fn node_with_neighbors(node_id: &str, neighbors: &[&str]) -> Node {
    let mut node = Node::new(&name(node_id));
    let mut topology = Topology::new();
    topology.insert(name(node_id), names(neighbors));
    let request = message("c0", node_id, MessageBody::Topology { msg_id: 0, topology });
    assert_eq!(node.handle_topology(&request), Ok(()));
    node.take_outbox();
    node
}

fn sorted(mut list: Vec<i64>) -> Vec<i64> {
    list.sort();
    list
}

#[test]
fn a_new_node_has_seen_nothing() {
    let mut node = Node::new(&name("n1"));
    assert_eq!(node.node_id(), "n1");
    assert_eq!(node.ids_left(), u64::MAX);
    assert_eq!(node.read_messages(), Vec::<i64>::new());
    assert_eq!(node.neighbors(), Vec::<String>::new());
    assert_eq!(node.clock(), 0);
    assert_eq!(node.task_count(), 0);
    assert!(!node.awaits_reply(0));
    assert_eq!(node.take_outbox(), Vec::<Message>::new());
    assert_eq!(node.take_diagnostics(), Vec::<String>::new());
}

#[test]
fn message_ids_count_up_from_zero() {
    let mut node = Node::new(&name("n1"));
    assert_eq!(node.get_next_msg_id(), 0);
    assert_eq!(node.get_next_msg_id(), 1);
    assert_eq!(node.next_message_id(), Some(2));
    assert_eq!(node.get_next_msg_id(), 3);
    assert_eq!(node.ids_left(), u64::MAX - 4);
}

#[test]
fn the_last_message_id_is_never_issued() {
    let mut node = Node::starting_at(&name("n1"), u64::MAX - 1);
    assert_eq!(node.ids_left(), 1);
    assert_eq!(node.next_message_id(), Some(u64::MAX - 1));
    assert_eq!(node.ids_left(), 0);
    assert_eq!(node.next_message_id(), None);
    assert_eq!(node.next_message_id(), None);
    assert_eq!(node.ids_left(), 0);
}

#[test]
fn send_puts_a_message_in_the_outbox() {
    let mut node = Node::new(&name("n1"));
    node.send(&name("n2"), read(4));
    node.send(&name("n3"), add_ok(5));
    assert_eq!(
        node.take_outbox(),
        vec![
            message("n1", "n2", read(4)),
            message("n1", "n3", add_ok(5)),
        ]
    );
    assert_eq!(node.take_outbox(), Vec::<Message>::new());
}

#[test]
fn log_puts_a_line_in_the_log() {
    let mut node = Node::new(&name("n1"));
    node.log("first");
    node.log("second");
    assert_eq!(node.take_diagnostics(), names(&["first", "second"]));
    assert_eq!(node.take_diagnostics(), Vec::<String>::new());
}

#[test]
fn add_message_is_idempotent() {
    let mut node = Node::new(&name("n1"));
    assert!(node.add_message(3));
    assert!(!node.add_message(3));
    assert!(node.messages_contain(&3));
    assert!(!node.messages_contain(&4));
    assert_eq!(node.read_messages(), vec![3]);
    assert_eq!(node.get_all_messages(), vec![3]);
}

#[test]
fn handle_echo_answers_with_what_was_said() {
    let mut node = Node::new(&name("n1"));
    let request = message("c1", "n1", echo(7, "Please echo 35"));
    assert_eq!(node.handle_echo(&request), Ok(()));
    assert_eq!(
        node.take_outbox(),
        vec![message("n1", "c1", echo_ok("Please echo 35", 7))]
    );
    assert_eq!(node.ids_left(), u64::MAX);
}

#[test]
fn handle_topology_replaces_the_topology() {
    let mut node = Node::new(&name("n1"));
    let mut first = Topology::new();
    first.insert(name("n1"), names(&["n2", "n3"]));
    first.insert(name("n2"), names(&["n1"]));
    let request = message("c1", "n1", MessageBody::Topology { msg_id: 1, topology: first });
    assert_eq!(node.handle_topology(&request), Ok(()));
    assert_eq!(node.neighbors(), names(&["n2", "n3"]));
    assert_eq!(
        node.take_outbox(),
        vec![message("n1", "c1", topology_ok(1))]
    );

    let mut second = Topology::new();
    second.insert(name("n2"), names(&["n1"]));
    let request = message("c1", "n1", MessageBody::Topology { msg_id: 2, topology: second });
    assert_eq!(node.handle_topology(&request), Ok(()));
    assert_eq!(node.neighbors(), Vec::<String>::new());
    assert_eq!(
        node.take_outbox(),
        vec![message("n1", "c1", topology_ok(2))]
    );
}

#[test]
fn handle_add_learns_the_element() {
    let mut node = Node::new(&name("n1"));
    let request = message("c1", "n1", add(3, 42));
    assert_eq!(node.handle_add(&request), Ok(()));
    assert_eq!(node.handle_add(&request), Ok(()));
    assert_eq!(node.read_messages(), vec![42]);
    assert_eq!(
        node.take_outbox(),
        vec![
            message("n1", "c1", add_ok(3)),
            message("n1", "c1", add_ok(3)),
        ]
    );
}

#[test]
fn handle_read_answers_with_a_snapshot() {
    let mut node = Node::new(&name("n1"));
    node.add_message(1);
    let request = message("c1", "n1", read(9));
    assert_eq!(node.handle_read(&request), Ok(()));
    node.add_message(2);
    assert_eq!(
        node.take_outbox(),
        vec![message("n1", "c1", MessageBody::ReadOk { in_reply_to: 9, messages: vec![1] })]
    );
}

#[test]
fn handle_read_of_nothing_answers_with_nothing() {
    let mut node = Node::new(&name("n1"));
    let request = message("c1", "n1", read(0));
    assert_eq!(node.handle_read(&request), Ok(()));
    assert_eq!(
        node.take_outbox(),
        vec![message("n1", "c1", MessageBody::ReadOk { in_reply_to: 0, messages: vec![] })]
    );
}

#[test]
fn a_handler_refuses_a_body_of_another_kind() {
    let mut node = Node::new(&name("n1"));
    let read = message("c1", "n1", read(1));
    let echo = message("c1", "n1", echo(1, "x"));
    assert_eq!(node.handle_echo(&read), Err(ProtocolError::MismatchedBody));
    assert_eq!(node.handle_topology(&read), Err(ProtocolError::MismatchedBody));
    assert_eq!(node.handle_broadcast(&read), Err(ProtocolError::MismatchedBody));
    assert_eq!(node.handle_add(&read), Err(ProtocolError::MismatchedBody));
    assert_eq!(node.handle_read(&echo), Err(ProtocolError::MismatchedBody));
    assert_eq!(node.take_outbox(), Vec::<Message>::new());
    assert_eq!(node.take_diagnostics(), Vec::<String>::new());
    assert_eq!(node.read_messages(), Vec::<i64>::new());
}

#[test]
fn a_broadcast_without_topology_is_learned_and_answered() {
    let mut node = Node::new(&name("n1"));
    let request = message("c1", "n1", broadcast(1, 5));
    assert_eq!(node.handle_broadcast(&request), Ok(()));
    assert_eq!(node.read_messages(), vec![5]);
    assert_eq!(
        node.take_outbox(),
        vec![message("n1", "c1", broadcast_ok(1))]
    );
    assert_eq!(node.task_count(), 0);
    assert_eq!(node.unacked(5), Vec::<String>::new());
    assert_eq!(node.ids_left(), u64::MAX);
}

#[test]
fn a_new_value_goes_to_every_neighbor_but_the_sender() {
    let mut node = node_with_neighbors("n1", &["n2", "n3", "n4"]);
    let request = message("n3", "n1", broadcast(11, 5));
    assert_eq!(node.handle_broadcast(&request), Ok(()));
    assert_eq!(
        node.take_outbox(),
        vec![
            message("n1", "n3", broadcast_ok(11)),
            message("n1", "n2", broadcast(0, 5)),
            message("n1", "n4", broadcast(1, 5)),
        ]
    );
    assert_eq!(node.unacked(5), names(&["n2", "n4"]));
    assert!(node.awaits_reply(0));
    assert!(node.awaits_reply(1));
    assert!(!node.awaits_reply(2));
    assert_eq!(node.task_count(), 1);
    assert_eq!(node.ids_left(), u64::MAX - 2);
}

#[test]
fn a_known_value_is_answered_and_not_sent_on() {
    let mut node = node_with_neighbors("n1", &["n2", "n3"]);
    let first = message("c1", "n1", broadcast(1, 5));
    assert_eq!(node.handle_broadcast(&first), Ok(()));
    node.take_outbox();
    let again = message("n2", "n1", broadcast(8, 5));
    assert_eq!(node.handle_broadcast(&again), Ok(()));
    assert_eq!(
        node.take_outbox(),
        vec![message("n1", "n2", broadcast_ok(8))]
    );
    assert_eq!(node.unacked(5), names(&["n2", "n3"]));
    assert_eq!(node.task_count(), 1);
    assert_eq!(node.ids_left(), u64::MAX - 2);
    assert_eq!(node.read_messages(), vec![5]);
}

#[test]
fn a_value_whose_only_neighbor_sent_it_is_not_pending() {
    let mut node = node_with_neighbors("n1", &["n2"]);
    let request = message("n2", "n1", broadcast(3, 5));
    assert_eq!(node.handle_broadcast(&request), Ok(()));
    assert_eq!(
        node.take_outbox(),
        vec![message("n1", "n2", broadcast_ok(3))]
    );
    assert_eq!(node.unacked(5), Vec::<String>::new());
    assert_eq!(node.task_count(), 0);
}

#[test]
fn a_broadcast_fails_when_ids_run_out() {
    let mut node = Node::starting_at(&name("n1"), u64::MAX - 1);
    let mut topology = Topology::new();
    topology.insert(name("n1"), names(&["n2", "n3"]));
    let request = message("c0", "n1", MessageBody::Topology { msg_id: 0, topology });
    assert_eq!(node.handle_topology(&request), Ok(()));
    node.take_outbox();

    let request = message("c1", "n1", broadcast(1, 5));
    assert_eq!(node.handle_broadcast(&request), Err(ProtocolError::MessageIdsExhausted));
    assert_eq!(
        node.take_outbox(),
        vec![message("n1", "c1", broadcast_ok(1))]
    );
    assert_eq!(node.read_messages(), vec![5]);
    assert_eq!(node.unacked(5), Vec::<String>::new());
    assert_eq!(node.ids_left(), 1);

    let request = message("n3", "n1", broadcast(2, 6));
    assert_eq!(node.dispatch(&request), Ok(()));
    assert_eq!(
        node.take_outbox(),
        vec![
            message("n1", "n3", broadcast_ok(2)),
            message("n1", "n2", broadcast(u64::MAX - 1, 6)),
        ]
    );
    assert_eq!(node.ids_left(), 0);

    let request = message("c1", "n1", broadcast(3, 7));
    assert_eq!(node.dispatch(&request), Err(ProtocolError::MessageIdsExhausted));
}

#[test]
fn a_retry_without_ids_is_logged() {
    let mut node = Node::starting_at(&name("n1"), u64::MAX - 1);
    let mut topology = Topology::new();
    topology.insert(name("n1"), names(&["n2"]));
    let request = message("c0", "n1", MessageBody::Topology { msg_id: 0, topology });
    assert_eq!(node.handle_topology(&request), Ok(()));
    let request = message("c1", "n1", broadcast(1, 5));
    assert_eq!(node.handle_broadcast(&request), Ok(()));
    node.take_outbox();
    assert_eq!(node.ids_left(), 0);
    node.tick(RETRY_INTERVAL);
    assert_eq!(node.take_outbox(), Vec::<Message>::new());
    assert_eq!(node.take_diagnostics(), names(&[IDS_EXHAUSTED]));
    assert_eq!(node.unacked(5), names(&["n2"]));
}

#[test]
fn rpc_files_the_continuation_and_sends() {
    let mut node = Node::new(&name("n1"));
    let id = node.get_next_msg_id();
    let body = broadcast(id, 9);
    let continuation = Continuation::BroadcastAck { value: 9, neighbor: name("n2") };
    assert_eq!(node.rpc(&name("n2"), body, continuation), Ok(()));
    assert!(node.awaits_reply(id));
    assert_eq!(
        node.take_outbox(),
        vec![message("n1", "n2", broadcast(0, 9))]
    );
}

#[test]
fn rpc_refuses_a_body_that_is_no_request() {
    let mut node = Node::new(&name("n1"));
    node.get_next_msg_id();
    let continuation = Continuation::BroadcastAck { value: 9, neighbor: name("n2") };
    assert_eq!(
        node.rpc(&name("n2"), broadcast_ok(0), continuation),
        Err(ProtocolError::MissingMessageId)
    );
    assert!(!node.awaits_reply(0));
    assert_eq!(node.take_outbox(), Vec::<Message>::new());
}

#[test]
fn rpc_refuses_an_id_that_was_not_issued() {
    let mut node = Node::new(&name("n1"));
    let continuation = Continuation::BroadcastAck { value: 9, neighbor: name("n2") };
    assert_eq!(
        node.rpc(&name("n2"), read(0), continuation),
        Err(ProtocolError::StaleMessageId)
    );
    assert!(!node.awaits_reply(0));
    assert_eq!(node.take_outbox(), Vec::<Message>::new());
}

#[test]
fn rpc_refuses_an_id_that_awaits_a_reply() {
    let mut node = Node::new(&name("n1"));
    let id = node.get_next_msg_id();
    let first = Continuation::BroadcastAck { value: 9, neighbor: name("n2") };
    let second = Continuation::BroadcastAck { value: 9, neighbor: name("n3") };
    assert_eq!(node.rpc(&name("n2"), read(id), first), Ok(()));
    assert_eq!(
        node.rpc(&name("n3"), read(id), second),
        Err(ProtocolError::StaleMessageId)
    );
    assert_eq!(node.take_outbox().len(), 1);
}

#[test]
fn every_registers_from_the_latest_tick() {
    let mut node = node_with_neighbors("n1", &["n2"]);
    node.tick(400);
    assert_eq!(node.clock(), 400);
    node.every(100, Action::RetryBroadcast { value: 1 });
    assert_eq!(node.task_count(), 1);
    node.tick(499);
    node.tick(500);
    assert_eq!(node.take_outbox(), Vec::<Message>::new());
    assert_eq!(node.take_diagnostics(), Vec::<String>::new());
    assert_eq!(node.ids_left(), u64::MAX);
}

#[test]
fn dispatch_routes_requests_to_their_handlers() {
    let mut node = Node::new(&name("n1"));
    assert_eq!(node.dispatch(&message("c1", "n1", echo(1, "hi"))), Ok(()));
    assert_eq!(node.dispatch(&message("c1", "n1", add(2, 3))), Ok(()));
    assert_eq!(node.dispatch(&message("c1", "n1", broadcast(3, 7))), Ok(()));
    assert_eq!(node.dispatch(&message("c1", "n1", read(4))), Ok(()));
    let mut topology = Topology::new();
    topology.insert(name("n1"), names(&["n2"]));
    let request = message("c1", "n1", MessageBody::Topology { msg_id: 5, topology });
    assert_eq!(node.dispatch(&request), Ok(()));
    let outbox = node.take_outbox();
    assert_eq!(outbox.len(), 5);
    assert_eq!(outbox[0], message("n1", "c1", echo_ok("hi", 1)));
    assert_eq!(outbox[1], message("n1", "c1", add_ok(2)));
    assert_eq!(outbox[2], message("n1", "c1", broadcast_ok(3)));
    match &outbox[3] {
        Message { src, dest, body: MessageBody::ReadOk { in_reply_to, messages } } => {
            assert_eq!(src, "n1");
            assert_eq!(dest, "c1");
            assert_eq!(*in_reply_to, 4);
            assert_eq!(sorted(messages.clone()), vec![3, 7]);
        }
        other => panic!("expected read_ok, got {:?}", other),
    }
    assert_eq!(outbox[4], message("n1", "c1", topology_ok(5)));
    assert_eq!(node.neighbors(), names(&["n2"]));
    assert_eq!(node.take_diagnostics(), Vec::<String>::new());
}

#[test]
fn dispatch_drops_what_has_no_handler() {
    let mut node = Node::new(&name("n1"));
    let init = MessageBody::Init { msg_id: 1, node_id: name("n9"), node_ids: names(&["n9"]) };
    assert_eq!(node.dispatch(&message("c1", "n1", init)), Ok(()));
    assert_eq!(node.dispatch(&message("n2", "n1", echo_ok("x", 0))), Ok(()));
    assert_eq!(node.dispatch(&message("n2", "n1", broadcast_ok(0))), Ok(()));
    assert_eq!(node.take_outbox(), Vec::<Message>::new());
    assert_eq!(node.take_diagnostics(), names(&[NO_HANDLER, UNSOLICITED_REPLY, UNSOLICITED_REPLY]));
    assert_eq!(node.node_id(), "n1");
}

#[test]
fn a_reply_runs_its_continuation_once() {
    let mut node = node_with_neighbors("n1", &["n2", "n3"]);
    let request = message("c1", "n1", broadcast(1, 5));
    assert_eq!(node.dispatch(&request), Ok(()));
    node.take_outbox();
    let reply = message("n2", "n1", broadcast_ok(0));
    assert_eq!(node.dispatch(&reply), Ok(()));
    assert!(!node.awaits_reply(0));
    assert!(node.awaits_reply(1));
    assert_eq!(node.unacked(5), names(&["n3"]));
    assert_eq!(node.take_diagnostics(), Vec::<String>::new());

    assert_eq!(node.dispatch(&reply), Ok(()));
    assert_eq!(node.unacked(5), names(&["n3"]));
    assert_eq!(node.take_diagnostics(), names(&[UNSOLICITED_REPLY]));
    assert_eq!(node.take_outbox(), Vec::<Message>::new());
}

#[test]
fn resolve_tells_whether_a_continuation_ran() {
    let mut node = node_with_neighbors("n1", &["n2"]);
    let request = message("c1", "n1", broadcast(1, 5));
    assert_eq!(node.dispatch(&request), Ok(()));
    assert!(!node.resolve(7, &broadcast_ok(7)));
    assert_eq!(node.take_diagnostics(), names(&[UNSOLICITED_REPLY]));
    assert_eq!(node.unacked(5), names(&["n2"]));
    assert!(node.resolve(0, &broadcast_ok(0)));
    assert_eq!(node.unacked(5), Vec::<String>::new());
    assert!(!node.resolve(0, &broadcast_ok(0)));
    assert_eq!(node.take_diagnostics(), names(&[UNSOLICITED_REPLY]));
}

#[test]
fn resolve_runs_a_continuation_only_for_a_reply_that_quotes_its_id() {
    let mut node = node_with_neighbors("n1", &["n2"]);
    let request = message("c1", "n1", broadcast(1, 5));
    assert_eq!(node.dispatch(&request), Ok(()));
    assert!(!node.resolve(0, &broadcast_ok(3)));
    assert!(!node.resolve(0, &read(0)));
    assert!(node.awaits_reply(0));
    assert_eq!(node.unacked(5), names(&["n2"]));
    assert_eq!(node.take_diagnostics(), names(&[UNSOLICITED_REPLY, UNSOLICITED_REPLY]));
}

#[test]
fn a_reply_of_another_kind_uses_up_the_continuation() {
    let mut node = node_with_neighbors("n1", &["n2"]);
    let request = message("c1", "n1", broadcast(1, 5));
    assert_eq!(node.dispatch(&request), Ok(()));
    node.take_outbox();
    let reply = message("n2", "n1", add_ok(0));
    assert_eq!(node.dispatch(&reply), Ok(()));
    assert!(!node.awaits_reply(0));
    assert_eq!(node.unacked(5), names(&["n2"]));
    assert_eq!(node.take_diagnostics(), names(&[UNEXPECTED_REPLY]));
    assert_eq!(node.task_count(), 1);
}

#[test]
fn a_request_is_never_taken_for_a_reply() {
    let mut node = node_with_neighbors("n1", &["n2"]);
    let request = message("c1", "n1", broadcast(0, 5));
    assert_eq!(node.dispatch(&request), Ok(()));
    assert!(node.awaits_reply(0));
    node.take_outbox();
    let echo = message("n2", "n1", echo(0, "x"));
    assert_eq!(node.dispatch(&echo), Ok(()));
    assert!(node.awaits_reply(0));
    assert_eq!(
        node.take_outbox(),
        vec![message("n1", "n2", echo_ok("x", 0))]
    );
}

#[test]
fn the_last_acknowledgment_ends_the_retries() {
    let mut node = node_with_neighbors("n1", &["n2", "n3"]);
    let request = message("c1", "n1", broadcast(1, 5));
    assert_eq!(node.dispatch(&request), Ok(()));
    assert_eq!(node.task_count(), 1);
    node.dispatch(&message("n3", "n1", broadcast_ok(1))).unwrap();
    assert_eq!(node.task_count(), 1);
    node.dispatch(&message("n2", "n1", broadcast_ok(0))).unwrap();
    assert_eq!(node.task_count(), 0);
    assert_eq!(node.unacked(5), Vec::<String>::new());
    node.take_outbox();
    node.tick(10 * RETRY_INTERVAL);
    assert_eq!(node.take_outbox(), Vec::<Message>::new());
}

#[test]
fn the_end_of_one_value_leaves_the_retries_of_another() {
    let mut node = node_with_neighbors("n1", &["n2"]);
    node.dispatch(&message("c1", "n1", broadcast(1, 5))).unwrap();
    node.dispatch(&message("c1", "n1", broadcast(2, 6))).unwrap();
    node.every(RETRY_INTERVAL, Action::RetryBroadcast { value: 5 });
    assert_eq!(node.task_count(), 3);
    node.dispatch(&message("n2", "n1", broadcast_ok(0))).unwrap();
    assert_eq!(node.task_count(), 1);
    node.take_outbox();
    node.tick(RETRY_INTERVAL);
    assert_eq!(
        node.take_outbox(),
        vec![message("n1", "n2", broadcast(2, 6))]
    );
}

#[test]
fn a_neighbor_named_twice_is_sent_to_twice_and_settled_at_once() {
    let mut node = node_with_neighbors("n1", &["n2", "n3", "n2"]);
    node.dispatch(&message("c1", "n1", broadcast(1, 5))).unwrap();
    assert_eq!(
        node.take_outbox(),
        vec![
            message("n1", "c1", broadcast_ok(1)),
            message("n1", "n2", broadcast(0, 5)),
            message("n1", "n3", broadcast(1, 5)),
            message("n1", "n2", broadcast(2, 5)),
        ]
    );
    node.dispatch(&message("n2", "n1", broadcast_ok(2))).unwrap();
    assert_eq!(node.unacked(5), names(&["n3"]));
}

#[test]
fn a_node_that_is_its_own_neighbor_sends_to_itself() {
    let mut node = node_with_neighbors("n1", &["n1", "n2"]);
    node.dispatch(&message("n2", "n1", broadcast(1, 5))).unwrap();
    assert_eq!(
        node.take_outbox(),
        vec![
            message("n1", "n2", broadcast_ok(1)),
            message("n1", "n1", broadcast(0, 5)),
        ]
    );
}

#[test]
fn a_new_topology_does_not_change_who_owes_an_acknowledgment() {
    let mut node = node_with_neighbors("n1", &["n2", "n3"]);
    node.dispatch(&message("c1", "n1", broadcast(1, 5))).unwrap();
    let mut topology = Topology::new();
    topology.insert(name("n1"), names(&["n4"]));
    node.dispatch(&message("c1", "n1", MessageBody::Topology { msg_id: 2, topology })).unwrap();
    assert_eq!(node.neighbors(), names(&["n4"]));
    assert_eq!(node.unacked(5), names(&["n2", "n3"]));
    node.take_outbox();
    node.tick(RETRY_INTERVAL);
    assert_eq!(
        node.take_outbox(),
        vec![
            message("n1", "n2", broadcast(2, 5)),
            message("n1", "n3", broadcast(3, 5)),
        ]
    );
    node.dispatch(&message("c1", "n1", broadcast(3, 6))).unwrap();
    assert_eq!(
        node.take_outbox(),
        vec![
            message("n1", "c1", broadcast_ok(3)),
            message("n1", "n4", broadcast(4, 6)),
        ]
    );
}

#[test]
fn values_are_retried_apart() {
    let mut node = node_with_neighbors("n1", &["n2"]);
    node.dispatch(&message("c1", "n1", broadcast(1, 5))).unwrap();
    node.tick(600);
    node.dispatch(&message("c1", "n1", broadcast(2, 6))).unwrap();
    node.take_outbox();
    node.tick(1000);
    assert_eq!(
        node.take_outbox(),
        vec![message("n1", "n2", broadcast(2, 5))]
    );
    node.tick(1600);
    assert_eq!(
        node.take_outbox(),
        vec![message("n1", "n2", broadcast(3, 6))]
    );
    node.dispatch(&message("n2", "n1", broadcast_ok(0))).unwrap();
    node.tick(2600);
    assert_eq!(
        node.take_outbox(),
        vec![message("n1", "n2", broadcast(4, 6))]
    );
}

#[test]
fn a_late_reply_to_an_old_request_still_counts() {
    let mut node = node_with_neighbors("n1", &["n2"]);
    node.dispatch(&message("c1", "n1", broadcast(1, 5))).unwrap();
    node.tick(RETRY_INTERVAL);
    node.tick(2 * RETRY_INTERVAL);
    assert!(node.awaits_reply(0));
    assert!(node.awaits_reply(1));
    assert!(node.awaits_reply(2));
    node.dispatch(&message("n2", "n1", broadcast_ok(1))).unwrap();
    assert_eq!(node.unacked(5), Vec::<String>::new());
    assert!(node.awaits_reply(0));
    assert!(!node.awaits_reply(1));
    assert!(node.awaits_reply(2));
    node.dispatch(&message("n2", "n1", broadcast_ok(2))).unwrap();
    assert_eq!(node.take_diagnostics(), Vec::<String>::new());
}

#[test]
fn errors_say_what_went_wrong() {
    assert_eq!(
        ProtocolError::FirstMessageNotInit.describe(),
        "First message received must be init"
    );
    assert_eq!(
        ProtocolError::MismatchedBody.describe(),
        "Handler called on a message of another kind"
    );
    assert_eq!(ProtocolError::MissingMessageId.describe(), "Request carries no message id");
    assert_eq!(
        ProtocolError::StaleMessageId.describe(),
        "Request carries a message id that is not fresh"
    );
    assert_eq!(ProtocolError::MessageIdsExhausted.describe(), "No message id left");
}
