use mpc::address::{Ipv4Addr, SocketAddr};
use mpc::context::{Context, Phase};
use mpc::node::Node;
use mpc::run::{Action, Event, RunError, SyncMsg, SyncState};
use std::collections::HashMap;

type Happening = Event<&'static str, u8, char, u32>;
type Reaction = Action<&'static str, u8, char>;

fn created() -> Context<u32> {
    let here = SocketAddr::V4 { ip: Ipv4Addr { a: 127, b: 0, c: 0, d: 1 }, port: 4000 };
    let mut net_map = HashMap::new();
    net_map.insert(6, here);
    let config = Node {
        id: 6,
        num_nodes: 1,
        num_faults: 0,
        net_map,
        client_addr: here,
        client_port: 4001,
        sk_map: HashMap::new(),
    };
    Context::spawn(config, 1, 1, 1, false).context
}

fn turn(context: &mut Context<u32>, event: Happening) -> Reaction {
    assert!(context.can_run(&event));
    context.run(event)
}

fn listening() -> Context<u32> {
    let mut context = created();
    turn(&mut context, Event::Launched);
    turn(&mut context, Event::Announced(8));
    context
}

fn sync(state: SyncState) -> Happening {
    Event::Sync(Some(SyncMsg { sender: 0, state, value: Vec::new() }))
}

#[test]
fn announces_itself_first() {
    let mut context = created();
    assert!(!context.can_run(&sync(SyncState::START)));
    assert!(!context.can_run::<u8, u8, u8>(&Event::Announced(1)));
    match turn(&mut context, Event::Launched) {
        Action::Announce(message) => {
            assert_eq!(message.replica, 0);
            assert_eq!(message.payload.sender, 6);
            assert_eq!(message.payload.state, SyncState::ALIVE);
            assert!(message.payload.value.is_empty());
        }
        _ => panic!("no announcement"),
    }
    assert_eq!(context.phase, Phase::Announcing);
    assert!(context.cancel_handlers.is_empty());
    assert!(!context.can_run::<u8, u8, u8>(&Event::Network(Some(1))));
    assert!(matches!(turn(&mut context, Event::Announced(8)), Action::Listen));
    assert_eq!(context.phase, Phase::Listening);
    assert_eq!(context.cancel_handlers[&0], vec![8]);
    assert!(!context.can_run::<u8, u8, u8>(&Event::Launched));
}

#[test]
fn passes_messages_on() {
    let mut context = listening();
    let c = &mut context;
    assert!(matches!(turn(c, Event::Network(Some("m"))), Action::ProcessMsg("m")));
    assert!(matches!(turn(c, Event::Sh2t(Some((9, 2, None)))), Action::HandleSh2tTermMsg(9, 2, None)));
    match turn(c, Event::Acs(Some((1, vec![3, 4])))) {
        Action::HandleAcsOutput(parties) => assert_eq!(parties, vec![3, 4]),
        _ => panic!("not handled"),
    }
    match turn(c, Event::Ctrbc(Some((1, 2, vec![5])))) {
        Action::HandleOutputDeliveryCtrbc(1, 2, value) => assert_eq!(value, vec![5]),
        _ => panic!("not handled"),
    }
    match turn(c, Event::Acs2(Some((1, vec![6])))) {
        Action::HandleProtEndBaOutput(parties) => assert_eq!(parties, vec![6]),
        _ => panic!("not handled"),
    }
    assert_eq!(context.phase, Phase::Listening);
    assert_eq!(context.cancel_handlers[&0], vec![8]);
}

#[test]
fn tells_inputs_from_random_values() {
    let mut context = listening();
    let c = &mut context;
    assert!(matches!(
        turn(c, Event::AcssAb(Some((499, 1, None)))),
        Action::HandleAcssTermMsg(499, 1, None)
    ));
    assert!(matches!(
        turn(c, Event::AcssAb(Some((500, 1, None)))),
        Action::HandleInputAcssTermination(500, 1, None)
    ));
    match turn(c, Event::AcssAb(Some((0, 3, Some(vec![1, 2]))))) {
        Action::HandleAcssTermMsg(0, 3, Some(shares)) => assert_eq!(shares, vec![1, 2]),
        _ => panic!("not handled"),
    }
}

#[test]
fn tells_shares_from_reconstructions() {
    let mut context = listening();
    let c = &mut context;
    assert!(matches!(
        turn(c, Event::Avss(Some((true, Some((1, 'a')), None)))),
        Action::HandleAvssShareOutput(1, 'a')
    ));
    assert!(matches!(
        turn(c, Event::Avss(Some((false, Some((1, 'a')), Some((2, 3, 'b')))))),
        Action::HandleAvssShareOracleOutput(2, 3, 'b')
    ));
    assert!(!c.can_run::<u8, u8, char>(&Event::Avss(Some((true, None, Some((2, 3, 'b')))))));
    assert!(!c.can_run::<u8, u8, char>(&Event::Avss(Some((false, Some((1, 'a')), None)))));
}

#[test]
fn obeys_the_client() {
    let mut context = listening();
    assert!(matches!(turn(&mut context, sync(SyncState::START)), Action::InitRandSh));
    assert!(matches!(turn(&mut context, sync(SyncState::ALIVE)), Action::Listen));
    assert!(matches!(turn(&mut context, sync(SyncState::OTHER)), Action::Listen));
    assert_eq!(context.phase, Phase::Listening);
    assert!(matches!(turn(&mut context, sync(SyncState::STOP)), Action::Finish(Ok(()))));
    assert_eq!(context.phase, Phase::Finished);
    assert!(!context.can_run(&sync(SyncState::START)));
    assert!(!context.can_run::<u8, u8, u8>(&Event::Launched));
}

#[test]
fn exits_when_told_to() {
    let mut context = listening();
    assert!(matches!(turn(&mut context, Event::Exit(true)), Action::Finish(Ok(()))));
    assert_eq!(context.phase, Phase::Finished);
    assert!(!context.can_run::<u8, u8, u8>(&Event::Exit(true)));
}

#[test]
fn fails_when_nobody_can_tell_it_to_exit() {
    let mut context = listening();
    match turn(&mut context, Event::Exit(false)) {
        Action::Finish(result) => assert_eq!(result, Err(RunError::ExitDropped)),
        _ => panic!("not finished"),
    }
    assert_eq!(context.phase, Phase::Finished);
}

#[test]
fn fails_when_a_channel_closes() {
    let closings: Vec<Happening> = vec![
        Event::Network(None),
        Event::AcssAb(None),
        Event::Sh2t(None),
        Event::Acs(None),
        Event::Ctrbc(None),
        Event::Acs2(None),
        Event::Avss(None),
        Event::Sync(None),
    ];
    for closing in closings {
        let mut context = listening();
        match turn(&mut context, closing) {
            Action::Finish(result) => assert_eq!(result, Err(RunError::NetworkClosed)),
            _ => panic!("not finished"),
        }
        assert_eq!(context.phase, Phase::Finished);
        assert_eq!(context.cancel_handlers[&0], vec![8]);
    }
}

#[test]
fn errors_say_what_happened() {
    assert_eq!(RunError::NetworkClosed.message(), "Networking layer has closed");
    assert_eq!(RunError::ExitDropped.message(), "channel closed");
}

#[test]
fn handles_each_message_once_and_in_order() {
    let mut context = listening();
    let events: Vec<Happening> = vec![
        Event::Network(Some("first")),
        Event::Acs(Some((0, vec![1]))),
        sync(SyncState::ALIVE),
        Event::Network(Some("second")),
        Event::Acs2(Some((0, vec![2]))),
        sync(SyncState::START),
        Event::Network(Some("second")),
        Event::Acs(Some((1, vec![3]))),
    ];
    let mut messages = Vec::new();
    let mut parties = Vec::new();
    let mut final_parties = Vec::new();
    let mut starts = 0;
    for event in events {
        match turn(&mut context, event) {
            Action::ProcessMsg(msg) => messages.push(msg),
            Action::HandleAcsOutput(output) => parties.push(output),
            Action::HandleProtEndBaOutput(output) => final_parties.push(output),
            Action::InitRandSh => starts += 1,
            Action::Listen => {}
            _ => panic!("not expected"),
        }
    }
    assert_eq!(messages, vec!["first", "second", "second"]);
    assert_eq!(parties, vec![vec![1], vec![3]]);
    assert_eq!(final_parties, vec![vec![2]]);
    assert_eq!(starts, 1);
}
