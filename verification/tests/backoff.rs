use hornetmq::kernel::backoff::{compute_delay, BackoffStrategy, WireBackoff, WireError};
use serde_json::Value;

fn wire(kind: &str, delay: u64, max: Option<u64>) -> WireBackoff {
    WireBackoff {
        kind: Some(kind.to_string()),
        delay: Some(delay),
        max,
        fixed: None,
        exponential: None,
    }
}

fn packed(strategy: &BackoffStrategy) -> Vec<u8> {
    let mut buf = Vec::new();
    strategy.pack(&mut buf);
    buf
}

#[test]
fn fixed_returns_same_value_every_attempt() {
    let strategy = BackoffStrategy::Fixed(1000);
    assert_eq!(compute_delay(&strategy, 1), 1000);
    assert_eq!(compute_delay(&strategy, 2), 1000);
    assert_eq!(compute_delay(&strategy, 100), 1000);
}

#[test]
fn exponential_doubles_each_attempt() {
    let strategy = BackoffStrategy::Exponential { base: 1000, max: 60_000 };
    assert_eq!(compute_delay(&strategy, 1), 1000);
    assert_eq!(compute_delay(&strategy, 2), 2000);
    assert_eq!(compute_delay(&strategy, 3), 4000);
    assert_eq!(compute_delay(&strategy, 4), 8000);
}

#[test]
fn exponential_caps_at_max() {
    let strategy = BackoffStrategy::Exponential { base: 1000, max: 5000 };
    assert_eq!(compute_delay(&strategy, 1), 1000);
    assert_eq!(compute_delay(&strategy, 2), 2000);
    assert_eq!(compute_delay(&strategy, 3), 4000);
    assert_eq!(compute_delay(&strategy, 4), 5000);
    assert_eq!(compute_delay(&strategy, 10), 5000);
}

#[test]
fn exponential_saturates_instead_of_overflow() {
    let strategy = BackoffStrategy::Exponential { base: u64::MAX, max: u64::MAX };
    let result = compute_delay(&strategy, 100);
    assert_eq!(result, u64::MAX);
}

#[test]
fn attempt_zero_treated_as_first() {
    let strategy = BackoffStrategy::Exponential { base: 1000, max: 60_000 };
    assert_eq!(compute_delay(&strategy, 0), 1000);
}

#[test]
fn exponential_edge_values() {
    let zero = BackoffStrategy::Exponential { base: 0, max: 10 };
    assert_eq!(compute_delay(&zero, u32::MAX), 0);
    let no_room = BackoffStrategy::Exponential { base: 7, max: 0 };
    assert_eq!(compute_delay(&no_room, 1), 0);
    let one = BackoffStrategy::Exponential { base: 1, max: u64::MAX };
    assert_eq!(compute_delay(&one, 64), 1u64 << 63);
    assert_eq!(compute_delay(&one, 65), u64::MAX);
    assert_eq!(compute_delay(&one, u32::MAX), u64::MAX);
}

#[test]
fn later_attempts_never_wait_less() {
    let strategy = BackoffStrategy::Exponential { base: 3, max: 1_000_000 };
    for attempt in 0..70 {
        assert!(compute_delay(&strategy, attempt) <= compute_delay(&strategy, attempt + 1));
    }
}

#[test]
fn backoff_fixed_serializes_to_bullmq_format() {
    let strategy = BackoffStrategy::Fixed(2000);
    let entries = strategy.to_wire();
    assert_eq!(entries.kind.as_deref(), Some("fixed"));
    assert_eq!(entries.delay, Some(2000));
    assert_eq!(entries.max, None);
    let expected: Value = serde_json::from_str(r#"{"type": "fixed", "delay": 2000}"#).unwrap();
    let unpacked: Value = rmp_serde::from_slice(&packed(&strategy)).unwrap();
    assert_eq!(unpacked, expected);
}

#[test]
fn backoff_exponential_serializes_to_bullmq_format() {
    let strategy = BackoffStrategy::Exponential { base: 1000, max: 30000 };
    let entries = strategy.to_wire();
    assert_eq!(entries.kind.as_deref(), Some("exponential"));
    assert_eq!(entries.delay, Some(1000));
    assert_eq!(entries.max, Some(30000));
    let expected: Value =
        serde_json::from_str(r#"{"type": "exponential", "delay": 1000, "max": 30000}"#).unwrap();
    let unpacked: Value = rmp_serde::from_slice(&packed(&strategy)).unwrap();
    assert_eq!(unpacked, expected);
}

#[test]
fn backoff_fixed_deserializes_from_bullmq_format() {
    let strategy = BackoffStrategy::from_wire(wire("fixed", 2000, None)).unwrap();
    assert_eq!(strategy, BackoffStrategy::Fixed(2000));
}

#[test]
fn backoff_exponential_deserializes_from_bullmq_format() {
    let strategy = BackoffStrategy::from_wire(wire("exponential", 1000, None)).unwrap();
    assert_eq!(strategy, BackoffStrategy::Exponential { base: 1000, max: u64::MAX });
}

#[test]
fn backoff_exponential_deserializes_with_max() {
    let strategy = BackoffStrategy::from_wire(wire("exponential", 1000, Some(30000))).unwrap();
    assert_eq!(strategy, BackoffStrategy::Exponential { base: 1000, max: 30000 });
}

#[test]
fn backoff_unknown_kind_is_handed_back() {
    for kind in ["linear", "Fixed", ""] {
        match BackoffStrategy::from_wire(wire(kind, 1, None)) {
            Err(WireError::UnknownType(k)) => assert_eq!(k, kind),
            other => panic!("{other:?}"),
        }
    }
}

#[test]
fn backoff_variants_are_read() {
    let none = || WireBackoff { kind: None, delay: None, max: None, fixed: None, exponential: None };
    let fixed = WireBackoff { fixed: Some(2000), ..none() };
    assert_eq!(BackoffStrategy::from_wire(fixed).unwrap(), BackoffStrategy::Fixed(2000));
    let exponential = WireBackoff { exponential: Some((1, 9)), ..none() };
    assert_eq!(
        BackoffStrategy::from_wire(exponential).unwrap(),
        BackoffStrategy::Exponential { base: 1, max: 9 }
    );
    let both = WireBackoff { fixed: Some(7), ..wire("fixed", 5, None) };
    assert_eq!(BackoffStrategy::from_wire(both).unwrap(), BackoffStrategy::Fixed(5));
    assert!(matches!(BackoffStrategy::from_wire(none()), Err(WireError::MissingType)));
    let no_delay = WireBackoff { delay: None, ..wire("fixed", 5, None) };
    assert!(matches!(BackoffStrategy::from_wire(no_delay), Err(WireError::MissingDelay)));
}

#[test]
fn backoff_fixed_ignores_max() {
    let strategy = BackoffStrategy::from_wire(wire("fixed", 5, Some(1))).unwrap();
    assert_eq!(strategy, BackoffStrategy::Fixed(5));
}

#[test]
fn backoff_strategy_fixed_roundtrip() {
    let strategy = BackoffStrategy::Fixed(3000);
    assert_eq!(BackoffStrategy::from_wire(strategy.to_wire()).unwrap(), strategy);
}

#[test]
fn backoff_strategy_exponential_roundtrip() {
    let strategy = BackoffStrategy::Exponential { base: 2000, max: 60_000 };
    assert_eq!(BackoffStrategy::from_wire(strategy.to_wire()).unwrap(), strategy);
}

#[test]
fn backoff_packs_to_exact_bytes() {
    let mut expected = vec![0x82, 0xa4];
    expected.extend_from_slice(b"type");
    expected.push(0xa5);
    expected.extend_from_slice(b"fixed");
    expected.push(0xa5);
    expected.extend_from_slice(b"delay");
    expected.extend_from_slice(&[0xcd, 0x07, 0xd0]);
    assert_eq!(packed(&BackoffStrategy::Fixed(2000)), expected);
}
