use spawner_driver::handles::{Agent, Controller, StdioMapping};
use spawner_driver::wire::AgentIdx;
use std::io::Write;
use std::sync::mpsc::channel;

fn mapping(stdin: usize, stdout: usize) -> StdioMapping {
    StdioMapping { stdin, stdout }
}

#[test]
fn controller_keeps_its_mapping() {
    let (sender, _receiver) = channel::<u32>();
    let controller = Controller::new(sender, Vec::<u8>::new(), mapping(3, 4));
    assert_eq!(controller.stdio_mapping(), mapping(3, 4));
    assert_eq!(controller.clone().stdio_mapping(), mapping(3, 4));
}

#[test]
fn agent_keeps_its_index_and_mapping() {
    let (sender, _receiver) = channel::<u32>();
    let agent = Agent::new(AgentIdx(7), sender, mapping(1, 2));
    assert_eq!(agent.idx(), AgentIdx(7));
    assert_eq!(agent.stdio_mapping(), mapping(1, 2));
    let copy = agent.clone();
    assert_eq!(copy.idx(), AgentIdx(7));
    assert_eq!(copy.stdio_mapping(), mapping(1, 2));
}

#[test]
fn controller_forwards_in_order() {
    let (sender, receiver) = channel::<u32>();
    let controller = Controller::new(sender, Vec::<u8>::new(), mapping(0, 0));
    controller.send(1).send(2).send(3);
    drop(controller);
    let got: Vec<u32> = receiver.iter().collect();
    assert_eq!(got, vec![1, 2, 3]);
}

#[test]
fn agent_forwards_in_order() {
    let (sender, receiver) = channel::<u32>();
    let agent = Agent::new(AgentIdx(0), sender, mapping(0, 0));
    agent.send(10).send(20);
    agent.send(30);
    drop(agent);
    let got: Vec<u32> = receiver.iter().collect();
    assert_eq!(got, vec![10, 20, 30]);
}

#[test]
fn clones_forward_to_the_same_supervisor() {
    let (sender, receiver) = channel::<(usize, u32)>();
    let controller = Controller::new(sender.clone(), Vec::<u8>::new(), mapping(0, 0));
    let agent = Agent::new(AgentIdx(1), sender, mapping(0, 0));
    let second = agent.clone();
    let other = controller.clone();
    for i in 0u32..50 {
        controller.send((0, i));
        other.send((1, i));
        agent.send((2, i));
        second.send((3, i));
    }
    drop(controller);
    drop(other);
    drop(agent);
    drop(second);
    let got: Vec<(usize, u32)> = receiver.iter().collect();
    assert_eq!(got.len(), 200);
    for source in 0usize..4 {
        let from_source: Vec<u32> =
            got.iter().filter(|m| m.0 == source).map(|m| m.1).collect();
        let expected: Vec<u32> = (0u32..50).collect();
        assert_eq!(from_source, expected);
    }
}

#[test]
fn send_after_the_supervisor_is_gone_is_silent() {
    let (sender, receiver) = channel::<u32>();
    let controller = Controller::new(sender.clone(), Vec::<u8>::new(), mapping(0, 0));
    let agent = Agent::new(AgentIdx(0), sender, mapping(0, 0));
    drop(receiver);
    controller.send(1).send(2);
    agent.send(3).send(4);
    assert_eq!(agent.idx(), AgentIdx(0));
}

#[test]
fn clones_write_to_one_stream() {
    let (sender, _receiver) = channel::<u32>();
    let mut controller = Controller::new(sender, Vec::<u8>::new(), mapping(0, 0));
    let mut other = controller.clone();
    controller.stdin().write_all(b"first;").unwrap();
    other.stdin().write_all(b"second;").unwrap();
    controller.stdin().write_all(b"third;").unwrap();
    assert_eq!(other.stdin().as_slice(), b"first;second;third;");
}

#[test]
fn guard_gives_the_stream_that_was_handed_in() {
    let (sender, _receiver) = channel::<u32>();
    let mut controller = Controller::new(sender, b"already".to_vec(), mapping(0, 0));
    assert_eq!(controller.stdin().as_slice(), b"already");
}
