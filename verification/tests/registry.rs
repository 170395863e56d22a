use thetadatadx::contract::Contract;
use thetadatadx::enums::{SecType, StreamMsgType, StreamResponseType};
use thetadatadx::error::{Error, StreamErrorKind};
use thetadatadx::registry::{
    check_connected, check_full_stream_sec_type, command_send_error, full_stream_command, full_stream_request,
    replay_pause_due, wire_req_id,
    IoCommand, SubscriptionRegistry, CMD_CHANNEL_CAPACITY,
};
use thetadatadx::subscription::{FullSubscriptionKind, SubscriptionKind};

#[test]
fn command_channel_is_bounded() {
    let cap = CMD_CHANNEL_CAPACITY;
    let (tx, _rx) = std::sync::mpsc::sync_channel::<IoCommand>(cap);
    for _ in 0..cap {
        tx.try_send(IoCommand::Shutdown).expect("sends up to capacity must succeed");
    }
    match tx.try_send(IoCommand::Shutdown) {
        Err(std::sync::mpsc::TrySendError::Full(_)) => {}
        other => panic!("expected TrySendError::Full once saturated, got {other:?}"),
    }
}

#[test]
fn wire_req_id_masks_to_31_bits() {
    assert_eq!(wire_req_id(1), 1);
    assert_eq!(wire_req_id(0x7FFF_FFFF), 0x7FFF_FFFF);
    assert_eq!(wire_req_id(0x8000_0000), 0);
    assert_eq!(wire_req_id(-1), 0x7FFF_FFFF);
    assert_eq!(wire_req_id(i64::MIN), 0);
}

#[test]
fn duplicate_contract_subscribe_tracks_once() {
    let mut reg = SubscriptionRegistry::new();
    let c = Contract::stock("AAPL");
    let r1 = reg.allocate_req_id();
    assert!(reg.track_contract(SubscriptionKind::Trade, &c, r1));
    let r2 = reg.allocate_req_id();
    assert!(!reg.track_contract(SubscriptionKind::Trade, &c, r2));
    let r3 = reg.allocate_req_id();
    assert!(!reg.track_contract(SubscriptionKind::Trade, &c, r3));
    assert_eq!((r1, r2, r3), (1, 2, 3));
    assert_eq!(reg.active_subscriptions().len(), 1);
    assert_eq!(reg.pending_len(), 1);
}

#[test]
fn duplicate_subscribe_then_reject_keeps_live_sub() {
    let mut reg = SubscriptionRegistry::new();
    let c = Contract::stock("AAPL");
    let r1 = reg.allocate_req_id();
    reg.track_contract(SubscriptionKind::Trade, &c, r1);
    let r2 = reg.allocate_req_id();
    reg.track_contract(SubscriptionKind::Trade, &c, r2);
    assert_eq!(reg.pending_len(), 1);
    reg.apply_req_response(r2, StreamResponseType::MaxStreamsReached);
    let live = reg.active_subscriptions();
    assert_eq!(live.len(), 1);
    assert!(live.iter().any(|(_, t)| *t == c));
}

#[test]
fn unsub_resub_then_reject_superseded_keeps_live_sub() {
    let mut reg = SubscriptionRegistry::new();
    let c = Contract::stock("AAPL");
    let r1 = reg.allocate_req_id();
    reg.track_contract(SubscriptionKind::Trade, &c, r1);
    let _r2 = reg.allocate_req_id();
    reg.forget_contract(SubscriptionKind::Trade, &c);
    assert!(reg.active_subscriptions().is_empty());
    let r3 = reg.allocate_req_id();
    reg.track_contract(SubscriptionKind::Trade, &c, r3);
    assert_eq!(reg.pending_len(), 1);
    reg.apply_req_response(r1, StreamResponseType::MaxStreamsReached);
    assert_eq!(reg.active_subscriptions().len(), 1);
}

#[test]
fn full_stream_unsub_resub_then_reject_superseded_keeps_live_sub() {
    let mut reg = SubscriptionRegistry::new();
    let r1 = reg.allocate_req_id();
    reg.track_full(SubscriptionKind::Trade, SecType::Stock, r1);
    let _r2 = reg.allocate_req_id();
    reg.forget_full(SubscriptionKind::Trade, SecType::Stock);
    let r3 = reg.allocate_req_id();
    reg.track_full(SubscriptionKind::Trade, SecType::Stock, r3);
    assert_eq!(reg.pending_len(), 1);
    reg.apply_req_response(r1, StreamResponseType::MaxStreamsReached);
    assert_eq!(reg.active_full_subscriptions(), vec![(SubscriptionKind::Trade, SecType::Stock)]);
}

#[test]
fn refusal_untracks_and_acceptance_keeps() {
    let mut reg = SubscriptionRegistry::new();
    let a = Contract::stock("A");
    let b = Contract::stock("B");
    reg.track_contract(SubscriptionKind::Quote, &a, 10);
    reg.track_contract(SubscriptionKind::Quote, &b, 11);
    reg.apply_req_response(10, StreamResponseType::Subscribed);
    reg.apply_req_response(11, StreamResponseType::InvalidPerms);
    let live = reg.active_subscriptions();
    assert_eq!(live, vec![(SubscriptionKind::Quote, a.clone())]);
    assert_eq!(reg.pending_len(), 0);
    // A late refusal of the already-resolved request changes nothing.
    reg.apply_req_response(10, StreamResponseType::Error);
    assert_eq!(reg.active_subscriptions(), vec![(SubscriptionKind::Quote, a)]);
}

#[test]
fn rollback_undoes_a_failed_send() {
    let mut reg = SubscriptionRegistry::new();
    let c = Contract::stock("IBM");
    assert!(reg.track_contract(SubscriptionKind::Trade, &c, 5));
    reg.rollback_contract(5, SubscriptionKind::Trade, &c);
    assert!(reg.active_subscriptions().is_empty());
    assert_eq!(reg.pending_len(), 0);
    assert!(reg.track_full(SubscriptionKind::OpenInterest, SecType::Option, 6));
    reg.rollback_full(6, SubscriptionKind::OpenInterest, SecType::Option);
    assert!(reg.active_full_subscriptions().is_empty());
}

#[test]
fn full_stream_request_codes() {
    assert_eq!(
        full_stream_request(FullSubscriptionKind::Trades, false),
        (StreamMsgType::Trade, SubscriptionKind::Trade)
    );
    assert_eq!(
        full_stream_request(FullSubscriptionKind::Trades, true),
        (StreamMsgType::RemoveTrade, SubscriptionKind::Trade)
    );
    assert_eq!(
        full_stream_request(FullSubscriptionKind::OpenInterest, true),
        (StreamMsgType::RemoveOpenInterest, SubscriptionKind::OpenInterest)
    );
}

#[test]
fn subscribe_guards() {
    assert!(check_connected(false, true).is_ok());
    match check_connected(true, true) {
        Err(Error::Stream { kind, message }) => {
            assert_eq!(kind, StreamErrorKind::Disconnected);
            assert_eq!(message, "client is shut down");
        }
        other => panic!("{other:?}"),
    }
    match check_connected(false, false) {
        Err(Error::Stream { message, .. }) => assert_eq!(message, "not authenticated"),
        other => panic!("{other:?}"),
    }
    assert!(check_full_stream_sec_type(SecType::Stock).is_ok());
    match check_full_stream_sec_type(SecType::Index) {
        Err(Error::Config { field, message }) => {
            assert_eq!(field, "Subscription::full");
            assert!(message.contains("Index has no full broadcast upstream"), "{message}");
        }
        other => panic!("{other:?}"),
    }
    match command_send_error(true) {
        Error::Stream { message, .. } => assert!(message.starts_with("command queue full (16384 pending)")),
        other => panic!("{other:?}"),
    }
    match command_send_error(false) {
        Error::Stream { message, .. } => assert_eq!(message, "I/O thread has exited"),
        other => panic!("{other:?}"),
    }
}

#[test]
fn full_stream_command_tracks_subscribes_and_refuses_without_side_effects() {
    let mut reg = SubscriptionRegistry::new();
    // Refusals allocate nothing and track nothing.
    assert!(full_stream_command(&mut reg, true, true, FullSubscriptionKind::Trades, SecType::Stock, false).is_err());
    assert!(full_stream_command(&mut reg, false, false, FullSubscriptionKind::Trades, SecType::Stock, false).is_err());
    match full_stream_command(&mut reg, false, true, FullSubscriptionKind::Trades, SecType::Index, false) {
        Err(Error::Config { field, .. }) => assert_eq!(field, "Subscription::full"),
        other => panic!("{other:?}"),
    }
    assert!(reg.active_full_subscriptions().is_empty());
    assert_eq!(reg.pending_len(), 0);

    // A subscribe gets the first request id and is tracked before the send.
    let (code, id) =
        full_stream_command(&mut reg, false, true, FullSubscriptionKind::Trades, SecType::Stock, false).unwrap();
    assert_eq!((code, id), (StreamMsgType::Trade, 1));
    assert_eq!(reg.active_full_subscriptions(), vec![(SubscriptionKind::Trade, SecType::Stock)]);
    assert_eq!(reg.pending_len(), 1);

    // An unsubscribe changes nothing until its frame is sent.
    let (code, id) =
        full_stream_command(&mut reg, false, true, FullSubscriptionKind::Trades, SecType::Stock, true).unwrap();
    assert_eq!((code, id), (StreamMsgType::RemoveTrade, 2));
    assert_eq!(reg.active_full_subscriptions().len(), 1);
    reg.forget_full(SubscriptionKind::Trade, SecType::Stock);
    assert!(reg.active_full_subscriptions().is_empty());
    assert_eq!(reg.pending_len(), 0);

    // A subscribe whose send fails is rolled back.
    let (_, id) =
        full_stream_command(&mut reg, false, true, FullSubscriptionKind::OpenInterest, SecType::Option, false).unwrap();
    reg.rollback_full(id, SubscriptionKind::OpenInterest, SecType::Option);
    assert!(reg.active_full_subscriptions().is_empty());
    assert_eq!(reg.pending_len(), 0);
}

#[test]
fn replay_pauses_between_bursts_only() {
    assert!(!replay_pause_due(1, 2, 10));
    assert!(replay_pause_due(2, 2, 10));
    assert!(replay_pause_due(4, 2, 10));
    assert!(!replay_pause_due(2, 2, 0));
    // A burst of zero replays one frame at a time.
    assert!(replay_pause_due(1, 0, 10));
    assert!(!replay_pause_due(0, 3, 10));
}
