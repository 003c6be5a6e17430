use botnode::control::{BotId, BotnodeStatus, ControlAction, ControlEngine, ControlEvent, PING_INTERVAL_SECS, RETRY_DELAY_SECS};
use botnode::engine::{EngineError, EngineType};
use botnode::shutdown::{Shutdown, ShutdownInProgress};

#[test]
fn control_engine_starts_offline() {
    let c = ControlEngine::new(BotId(3), "127.0.0.1:7978");
    assert_eq!(c.status(), BotnodeStatus::Offline);
    assert_eq!(c.server_addr, "127.0.0.1:7978");
    assert_eq!(c.bot_id, BotId(3));
    assert_eq!(c.ping_interval_secs, PING_INTERVAL_SECS);
    assert_eq!(c.to_string(), "control-engine");
}

#[test]
fn control_goes_online_then_retries_once_after_failure() {
    let mut c = ControlEngine::new(BotId(1), "server:1");
    assert_eq!(c.handle_event(ControlEvent::IterationStarted { token_granted: true }), ControlAction::Dial);
    assert_eq!(c.status(), BotnodeStatus::Connecting);
    assert_eq!(c.handle_event(ControlEvent::Connected), ControlAction::SendHello);
    assert_eq!(c.handle_event(ControlEvent::FrameReceived), ControlAction::Listen);
    assert_eq!(c.status(), BotnodeStatus::Online);
    assert_eq!(c.handle_event(ControlEvent::PingDue), ControlAction::SendPing);
    assert_eq!(c.handle_event(ControlEvent::TransportError), ControlAction::RetryAfter(RETRY_DELAY_SECS));
    assert_eq!(RETRY_DELAY_SECS, 1);
    assert_eq!(c.status(), BotnodeStatus::Offline);
    assert_eq!(c.handle_event(ControlEvent::IterationStarted { token_granted: true }), ControlAction::Dial);
    assert_eq!(c.handle_event(ControlEvent::ShutdownTriggered), ControlAction::Finish);
}

#[test]
fn control_peer_close_and_refused_token_retry() {
    let mut c = ControlEngine::new(BotId(1), "server:1");
    assert_eq!(c.handle_event(ControlEvent::IterationStarted { token_granted: false }), ControlAction::RetryAfter(1));
    assert_eq!(c.status(), BotnodeStatus::Offline);
    c.handle_event(ControlEvent::IterationStarted { token_granted: true });
    assert_eq!(c.handle_event(ControlEvent::ConnectFailed), ControlAction::RetryAfter(1));
    assert_eq!(c.status(), BotnodeStatus::Offline);
    c.handle_event(ControlEvent::FrameReceived);
    assert_eq!(c.handle_event(ControlEvent::PeerClosed), ControlAction::RetryAfter(1));
    assert_eq!(c.status(), BotnodeStatus::Offline);
}

#[test]
fn held_token_delays_completion() {
    let mut s = Shutdown::new();
    let token = s.delay_shutdown_token().unwrap();
    s.trigger();
    assert!(s.is_triggered());
    assert!(!s.try_complete());
    assert!(!s.is_completed());
    s.release(token);
    assert!(s.try_complete());
    assert!(s.is_completed());
    assert_eq!(s.delay_shutdown_token().unwrap_err(), ShutdownInProgress {});
}

#[test]
fn trigger_is_idempotent() {
    let mut s = Shutdown::new();
    assert!(!s.try_complete());
    s.trigger();
    s.trigger();
    assert!(s.is_triggered());
    assert!(s.try_complete());
}

#[test]
fn engine_labels() {
    assert_eq!(EngineType::ControlEngine.name(), "control-engine");
    assert_eq!(EngineType::AuditEngine.name(), "audit-engine");
    assert_eq!(EngineType::MarketDataEngine.name(), "market-data-engine");
    assert_eq!(EngineError {}, EngineError {});
}

#[test]
fn ring_channel_keeps_last_items_in_order() {
    let (tx, rx) = ring_channel::ring_channel::<u32>(std::num::NonZeroUsize::new(4).unwrap());
    for i in 0..10 {
        tx.send(i).unwrap();
    }
    let got: Vec<u32> = std::iter::from_fn(|| rx.try_recv().ok()).collect();
    assert_eq!(got, vec![6, 7, 8, 9]);
}

#[test]
fn control_data_rx_is_empty() {
    let c = ControlEngine::new(BotId(1), "server:1");
    let rx = c.data_rx();
    assert!(rx.try_recv().is_err());
}
