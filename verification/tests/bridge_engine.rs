use fluxmux::clock::Tick;
use fluxmux::engine::{
    build_middleware_chain, retry_policy, Bridge, BridgeAction, BridgeError, BridgeEvent,
    MiddlewareConfig, Phase, RetryPolicy, DEFAULT_BATCH_TIMEOUT_MS, DEFAULT_RETRY_DELAY_MS,
};
use fluxmux::json::Json;
use fluxmux::message::{Message, StringMap, Timestamp};
use fluxmux::middleware::{ChainStep, DropReason, MiddlewareChain, RetryHandler, Stage, Throttler};
use fluxmux::wire::from_text;

fn doc(text: &str) -> Json {
    from_text(text).unwrap()
}

fn at(nanos: u128) -> Tick {
    Tick { nanos, wall: Timestamp { secs: 1_700_000_000, nanos: 0 } }
}

fn message(text: &str) -> Message {
    Message::json(text.as_bytes().to_vec(), Some(doc(text)), Timestamp { secs: 1, nanos: 0 })
}

fn keyed(key: &[u8], text: &str) -> Message {
    let mut msg = message(text);
    msg.key = Some(key.to_vec());
    msg
}

#[test]
fn default_configuration_asks_for_no_stage() {
    let cfg = MiddlewareConfig::default();
    assert!(cfg.batch_size.is_none());
    assert!(cfg.batch_timeout_ms.is_none());
    assert!(cfg.deduplicate.is_none());
    assert!(cfg.throttle_per_sec.is_none());
    assert!(cfg.retry_max_attempts.is_none());
    assert!(cfg.retry_delay_ms.is_none());
    assert!(cfg.schema_path.is_none());
    assert_eq!(build_middleware_chain(&cfg, None).len(), 0);
    assert_eq!(DEFAULT_RETRY_DELAY_MS, 1000);
    assert_eq!(DEFAULT_BATCH_TIMEOUT_MS, 5000);
}

#[test]
fn command_line_options_override_the_configuration() {
    let base = MiddlewareConfig {
        batch_size: Some(5),
        batch_timeout_ms: Some(10),
        deduplicate: Some(true),
        throttle_per_sec: Some(3),
        retry_max_attempts: Some(1),
        retry_delay_ms: Some(2),
        schema_path: Some("a.json".to_string()),
    };
    let same = base.clone().overridden_by(None, None, false, None, None, None, None);
    assert_eq!(same.batch_size, Some(5));
    assert_eq!(same.batch_timeout_ms, Some(10));
    assert_eq!(same.deduplicate, Some(false));
    assert_eq!(same.throttle_per_sec, Some(3));
    assert_eq!(same.retry_max_attempts, Some(1));
    assert_eq!(same.retry_delay_ms, Some(2));
    assert_eq!(same.schema_path, Some("a.json".to_string()));
    let other = base.overridden_by(
        Some(6),
        Some(11),
        true,
        Some(4),
        Some(2),
        Some(3),
        Some("b.json".to_string()),
    );
    assert_eq!(other.batch_size, Some(6));
    assert_eq!(other.batch_timeout_ms, Some(11));
    assert_eq!(other.deduplicate, Some(true));
    assert_eq!(other.throttle_per_sec, Some(4));
    assert_eq!(other.retry_max_attempts, Some(2));
    assert_eq!(other.retry_delay_ms, Some(3));
    assert_eq!(other.schema_path, Some("b.json".to_string()));
}

#[test]
fn chain_is_assembled_in_the_fixed_order() {
    let cfg = MiddlewareConfig {
        batch_size: Some(2),
        batch_timeout_ms: None,
        deduplicate: Some(true),
        throttle_per_sec: Some(10),
        retry_max_attempts: Some(4),
        retry_delay_ms: None,
        schema_path: Some("schema.json".to_string()),
    };
    let mut chain = build_middleware_chain(&cfg, Some(doc("{\"required\":[\"a\"]}")));
    assert_eq!(chain.len(), 5);
    // Stage 0 validates.
    assert!(matches!(
        chain.process_at(keyed(b"k", "{\"b\":1}"), &at(0)),
        ChainStep::Drop { stage: 0, reason: DropReason::MissingField(_) }
    ));
    // The key of a message that did not validate was not recorded: stage 1
    // lets it pass, stage 2 tags it and stage 3 holds it.
    assert!(matches!(
        chain.process_at(keyed(b"k", "{\"a\":1}"), &at(0)),
        ChainStep::Drop { stage: 3, reason: DropReason::Held }
    ));
    // Stage 1 drops the duplicate before it counts toward the batch.
    assert!(matches!(
        chain.process_at(keyed(b"k", "{\"a\":2}"), &at(0)),
        ChainStep::Drop { stage: 1, reason: DropReason::Duplicate }
    ));
    // The batch of two is complete; stage 4 holds it back.
    match chain.process_at(keyed(b"j", "{\"a\":3}"), &at(0)) {
        ChainStep::Pause { message, nanos, stage } => {
            assert_eq!(stage, 4);
            assert_eq!(nanos, 100_000_000);
            assert_eq!(message.payload, b"[{\"a\":1},{\"a\":3}]".to_vec());
        }
        other => panic!("unexpected step: {:?}", other),
    }
}

#[test]
fn chain_leaves_out_what_is_not_configured() {
    let mut cfg = MiddlewareConfig::default();
    cfg.deduplicate = Some(false);
    cfg.retry_max_attempts = Some(2);
    let mut chain = build_middleware_chain(&cfg, None);
    assert_eq!(chain.len(), 1);
    match chain.process_at(message("1"), &at(0)) {
        ChainStep::Forward(msg) => {
            assert_eq!(msg.meta.get("max_retries"), Some(&"2".to_string()));
            assert_eq!(msg.meta.get("retry_delay_ms"), Some(&"1000".to_string()));
        }
        other => panic!("unexpected step: {:?}", other),
    }
}

#[test]
fn retry_policy_travels_with_the_batch() {
    let mut cfg = MiddlewareConfig::default();
    cfg.batch_size = Some(2);
    cfg.retry_max_attempts = Some(4);
    cfg.retry_delay_ms = Some(30);
    let mut chain = build_middleware_chain(&cfg, None);
    assert_eq!(chain.len(), 2);
    assert!(matches!(
        chain.process_at(message("1"), &at(0)),
        ChainStep::Drop { stage: 1, reason: DropReason::Held }
    ));
    match chain.process_at(message("2"), &at(0)) {
        ChainStep::Forward(record) => {
            assert_eq!(record.payload, b"[1,2]".to_vec());
            assert_eq!(
                retry_policy(&record.meta),
                RetryPolicy { max_retries: 4, retry_delay_ms: 30 }
            );
        }
        other => panic!("unexpected step: {:?}", other),
    }
}

#[test]
fn batch_timeout_defaults_to_five_seconds() {
    let mut cfg = MiddlewareConfig::default();
    cfg.batch_size = Some(100);
    let mut chain = build_middleware_chain(&cfg, None);
    assert!(matches!(
        chain.process_at(message("1"), &at(4_999_999_999)),
        ChainStep::Drop { stage: 0, reason: DropReason::Held }
    ));
    assert!(matches!(chain.process_at(message("2"), &at(5_000_000_000)), ChainStep::Forward(_)));
}

#[test]
fn retry_policy_is_read_from_the_metadata() {
    let mut meta = StringMap::new();
    assert_eq!(retry_policy(&meta), RetryPolicy { max_retries: 0, retry_delay_ms: 1000 });
    meta.insert("max_retries".to_string(), "3".to_string());
    assert_eq!(retry_policy(&meta), RetryPolicy { max_retries: 3, retry_delay_ms: 1000 });
    meta.insert("retry_delay_ms".to_string(), "20".to_string());
    assert_eq!(retry_policy(&meta), RetryPolicy { max_retries: 3, retry_delay_ms: 20 });
    meta.insert("max_retries".to_string(), "many".to_string());
    meta.insert("retry_delay_ms".to_string(), "-1".to_string());
    assert_eq!(retry_policy(&meta), RetryPolicy { max_retries: 0, retry_delay_ms: 1000 });
    meta.insert("max_retries".to_string(), "4294967296".to_string());
    assert_eq!(retry_policy(&meta).max_retries, 0);
    meta.insert("max_retries".to_string(), "4294967295".to_string());
    assert_eq!(retry_policy(&meta).max_retries, u32::MAX);
}

fn retrying_bridge(max_retries: u32, delay_ms: u64) -> Bridge {
    let mut chain = MiddlewareChain::new();
    chain.add(Stage::Retry(RetryHandler::new(max_retries, delay_ms)));
    Bridge::new(chain)
}

#[test]
fn failing_sink_is_tried_three_times_with_two_retries() {
    let mut bridge = retrying_bridge(2, 7);
    assert_eq!(bridge.phase(), Phase::Receiving);
    let mut sends = 0;
    let mut action = bridge.step_at(BridgeEvent::Received(message("1")), &at(0));
    loop {
        match action {
            BridgeAction::Send(msg) => {
                assert_eq!(msg.payload, b"1".to_vec());
                assert_eq!(bridge.phase(), Phase::Sending);
                sends += 1;
                action = bridge.step_at(BridgeEvent::Sent(false), &at(0));
            }
            BridgeAction::Wait(nanos) => {
                assert_eq!(nanos, 7_000_000);
                assert_eq!(bridge.phase(), Phase::Backoff);
                action = bridge.step_at(BridgeEvent::Waited, &at(0));
            }
            BridgeAction::GaveUp { attempts } => {
                assert_eq!(attempts, 3);
                break;
            }
            other => panic!("unexpected action: {:?}", other),
        }
    }
    assert_eq!(sends, 3);
    assert_eq!(bridge.phase(), Phase::Receiving);
    // The run goes on and ends well.
    assert!(matches!(bridge.step_at(BridgeEvent::SourceClosed, &at(0)), BridgeAction::Flush));
    assert!(matches!(bridge.step_at(BridgeEvent::Flushed(true), &at(0)), BridgeAction::Join));
    assert!(matches!(
        bridge.step_at(BridgeEvent::Joined(true), &at(0)),
        BridgeAction::Finish(Ok(()))
    ));
    assert_eq!(bridge.phase(), Phase::Finished);
}

#[test]
fn message_without_policy_is_tried_once() {
    let mut bridge = Bridge::new(MiddlewareChain::new());
    assert!(matches!(
        bridge.step_at(BridgeEvent::Received(message("1")), &at(0)),
        BridgeAction::Send(_)
    ));
    assert!(matches!(
        bridge.step_at(BridgeEvent::Sent(false), &at(0)),
        BridgeAction::GaveUp { attempts: 1 }
    ));
    assert_eq!(bridge.phase(), Phase::Receiving);
}

#[test]
fn delivery_stops_retrying_once_the_sink_takes_the_message() {
    let mut bridge = retrying_bridge(5, 1);
    assert!(matches!(
        bridge.step_at(BridgeEvent::Received(message("1")), &at(0)),
        BridgeAction::Send(_)
    ));
    assert!(matches!(bridge.step_at(BridgeEvent::Sent(false), &at(0)), BridgeAction::Wait(1_000_000)));
    assert!(matches!(bridge.step_at(BridgeEvent::Waited, &at(0)), BridgeAction::Send(_)));
    assert!(matches!(bridge.step_at(BridgeEvent::Sent(true), &at(0)), BridgeAction::Receive));
    assert_eq!(bridge.phase(), Phase::Receiving);
}

#[test]
fn bridge_reports_drops_and_pauses() {
    let mut cfg = MiddlewareConfig::default();
    cfg.deduplicate = Some(true);
    cfg.throttle_per_sec = Some(10);
    let mut bridge = Bridge::new(build_middleware_chain(&cfg, None));
    assert!(matches!(
        bridge.step_at(BridgeEvent::Received(keyed(b"a", "1")), &at(0)),
        BridgeAction::Wait(100_000_000)
    ));
    assert_eq!(bridge.phase(), Phase::Paused);
    assert!(matches!(bridge.step_at(BridgeEvent::Waited, &at(100_000_000)), BridgeAction::Send(_)));
    assert!(matches!(bridge.step_at(BridgeEvent::Sent(true), &at(100_000_001)), BridgeAction::Receive));
    assert!(matches!(
        bridge.step_at(BridgeEvent::Received(keyed(b"a", "2")), &at(100_000_002)),
        BridgeAction::Dropped { stage: 0, reason: DropReason::Duplicate }
    ));
    assert_eq!(bridge.phase(), Phase::Receiving);
    assert!(matches!(
        bridge.step_at(BridgeEvent::Received(keyed(b"b", "3")), &at(150_000_000)),
        BridgeAction::Wait(50_000_000)
    ));
}

#[test]
fn bridge_ends_with_the_error_of_the_flush_or_the_source() {
    let mut bridge = Bridge::new(MiddlewareChain::new());
    assert!(matches!(bridge.step_at(BridgeEvent::SourceClosed, &at(0)), BridgeAction::Flush));
    assert_eq!(bridge.phase(), Phase::Flushing);
    assert!(matches!(
        bridge.step_at(BridgeEvent::Flushed(false), &at(0)),
        BridgeAction::Finish(Err(BridgeError::FlushFailed))
    ));
    assert_eq!(bridge.phase(), Phase::Finished);

    let mut bridge = Bridge::new(MiddlewareChain::new());
    bridge.step_at(BridgeEvent::SourceClosed, &at(0));
    bridge.step_at(BridgeEvent::Flushed(true), &at(0));
    assert_eq!(bridge.phase(), Phase::Joining);
    assert!(matches!(
        bridge.step_at(BridgeEvent::Joined(false), &at(0)),
        BridgeAction::Finish(Err(BridgeError::SourceFailed))
    ));
}

#[test]
fn bridge_ignores_events_that_do_not_fit() {
    let mut bridge = Bridge::new(MiddlewareChain::new());
    assert!(matches!(bridge.step_at(BridgeEvent::Sent(true), &at(0)), BridgeAction::Unexpected));
    assert!(matches!(bridge.step_at(BridgeEvent::Waited, &at(0)), BridgeAction::Unexpected));
    assert!(matches!(bridge.step_at(BridgeEvent::Flushed(true), &at(0)), BridgeAction::Unexpected));
    assert!(matches!(bridge.step_at(BridgeEvent::Joined(true), &at(0)), BridgeAction::Unexpected));
    assert_eq!(bridge.phase(), Phase::Receiving);
    bridge.step_at(BridgeEvent::Received(message("1")), &at(0));
    assert!(matches!(
        bridge.step_at(BridgeEvent::Received(message("2")), &at(0)),
        BridgeAction::Unexpected
    ));
    assert!(matches!(bridge.step_at(BridgeEvent::SourceClosed, &at(0)), BridgeAction::Unexpected));
    assert_eq!(bridge.phase(), Phase::Sending);
}

#[test]
fn bridge_reads_its_own_clock() {
    let mut chain = MiddlewareChain::new();
    chain.add(Stage::Throttle(Throttler::new(1)));
    let mut bridge = Bridge::new(chain);
    match bridge.step(BridgeEvent::Received(message("1"))) {
        BridgeAction::Wait(nanos) => assert!(nanos <= 1_000_000_000),
        BridgeAction::Send(_) => {}
        other => panic!("unexpected action: {:?}", other),
    }
}
