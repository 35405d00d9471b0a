use std::sync::Arc;

use chronos::error::TsoError;
use chronos::metadata::identity::{
    identity_lease_confirmed_window, KeepaliveReply, KeepaliveRun, KeepaliveStep,
};
use chronos::model::{HealthInfo, TimelineLifecycleState};
use chronos::plane::{TsoControlPlane, TsoDataPlane, TsoService};
use chronos::runtime::generator::Generator;
use chronos::text::{
    decimal_text, encode_hex, is_blank, signed_decimal_text, text_less, to_ascii_lower, trim,
};
use chronos::tso::{
    encode_tso, next_cursor_after, MAX_GENERATORS, MAX_PHYSICAL_MS, SEQUENCE_CAPACITY,
};

#[test]
fn numbers_are_written_as_std_writes_them() {
    for n in [0, 7, 10, 99, 4_294_967_296, u64::MAX] {
        assert_eq!(decimal_text(n), n.to_string());
    }
    for n in [i64::MIN, -10, 0, 42, i64::MAX] {
        assert_eq!(signed_decimal_text(n), n.to_string());
    }
    assert_eq!(encode_hex(&[0, 9, 0xab, 0xff]), "0009abff");
}

#[test]
fn texts_are_trimmed_and_compared_as_std_does() {
    for text in ["", " ", "\u{3000}a b\u{2003}\n", "a", "\ta", "é\u{85}"] {
        assert_eq!(trim(text), text.trim());
        assert_eq!(is_blank(text), text.trim().is_empty());
    }
    assert_eq!(to_ascii_lower("AbÉ"), "AbÉ".to_ascii_lowercase());
    for (a, b) in [("", "a"), ("a", "b"), ("a", "aa"), ("é", "z"), ("\u{ffff}", "\u{10000}")] {
        assert_eq!(text_less(a, b), a < b, "{a} {b}");
        assert_eq!(text_less(b, a), b < a, "{b} {a}");
    }
}

#[test]
fn whitespace_is_what_unicode_lists_as_white_space() {
    let listed = |code: u32| {
        matches!(
            code,
            0x9..=0xd
                | 0x20
                | 0x85
                | 0xa0
                | 0x1680
                | 0x2000..=0x200a
                | 0x2028
                | 0x2029
                | 0x202f
                | 0x205f
                | 0x3000
        )
    };
    for code in 0..=0x10_ffff_u32 {
        if let Some(c) = char::from_u32(code) {
            assert_eq!(is_blank(&c.to_string()), listed(code), "{code:x}");
        }
    }
}

#[test]
fn timestamps_order_by_time_then_generator_then_sequence() {
    let low = encode_tso(5, 7, SEQUENCE_CAPACITY - 1).unwrap();
    let high = encode_tso(6, 0, 0).unwrap();
    assert!(low < high);
    assert_ne!(encode_tso(5, 7, 0).unwrap(), encode_tso(5, 8, 0).unwrap());
    assert_eq!(
        encode_tso(5, MAX_GENERATORS, 0),
        Err(TsoError::GeneratorIdOutOfRange { generator_id: MAX_GENERATORS })
    );
    assert!(encode_tso(MAX_PHYSICAL_MS + 1, 0, 0).is_err());
    assert!(encode_tso(5, 0, SEQUENCE_CAPACITY).is_err());
}

#[test]
fn the_first_timestamp_above_a_floor_is_the_next_one() {
    let floor = encode_tso(8, 3, 9).unwrap();
    let cursor = next_cursor_after(floor, 3).unwrap();
    assert_eq!((cursor.physical_ms, cursor.sequence), (8, 10));

    let last = encode_tso(8, 3, SEQUENCE_CAPACITY - 1).unwrap();
    let cursor = next_cursor_after(last, 3).unwrap();
    assert_eq!((cursor.physical_ms, cursor.sequence), (9, 0));
}

#[test]
fn an_initialised_generator_issues_above_its_floor() {
    let mut generator = Generator::new(3);
    assert_eq!(generator.current_last_issued_tso(), Ok(None));
    let floor = encode_tso(8, 3, 9).unwrap();
    generator.init_after_floor(floor).unwrap();

    let ranges = generator.allocate_after(5, None, 8, 10, 0, None).unwrap();
    assert!(ranges[0].start_tso > floor);
    assert_eq!(
        generator.current_last_issued_tso(),
        Ok(Some(ranges.last().unwrap().end_tso))
    );
    let more = generator.allocate_after(5, None, 8, 10, 0, None).unwrap();
    assert!(more[0].start_tso > ranges.last().unwrap().end_tso);
}

#[test]
fn a_lease_is_renewed_until_it_runs_out() {
    let second: u128 = 1_000_000_000;
    let window = identity_lease_confirmed_window(0, 0, 3).unwrap();
    let (mut run, step) = KeepaliveRun::start(window, 1);
    assert!(matches!(step, KeepaliveStep::Sleep { .. }));

    let step = run.on_reply(KeepaliveReply::Rested { now: second, in_time: true });
    assert!(matches!(step, KeepaliveStep::Send { .. }));
    let step = run.on_reply(KeepaliveReply::Sent { now: second, sent: Some(Ok(())) });
    assert!(matches!(step, KeepaliveStep::AwaitResponse { .. }));
    let step =
        run.on_reply(KeepaliveReply::Response { now: second, response: Some(Ok(Some(3))) });
    assert!(matches!(step, KeepaliveStep::Sleep { until, .. } if until > 3 * second));

    let step = run.on_reply(KeepaliveReply::Rested { now: 2 * second, in_time: true });
    assert!(matches!(step, KeepaliveStep::Send { .. }));
    let step = run.on_reply(KeepaliveReply::Sent {
        now: 2 * second,
        sent: Some(Err("broken pipe".into())),
    });
    assert!(matches!(step, KeepaliveStep::Reconnect { .. }));
    let step = run.on_reply(KeepaliveReply::Reconnected { now: 9 * second, opened: None });
    assert!(matches!(
        step,
        KeepaliveStep::Lost { reason } if reason == "keepalive_reconnect_deadline_elapsed"
    ));
}

#[test]
fn planes_tell_what_the_service_is() {
    let service = Arc::new(TsoService {
        health_info: HealthInfo {
            generator_count: 4,
            timeline_count: 2,
            worker_id: "worker-a".into(),
            instance_id: "instance-a".into(),
            advertise_endpoint: "worker-a:50051".into(),
        },
        max_timeline_proxy_lanes: 12,
    });

    let control = TsoControlPlane::new(service.clone());
    assert_eq!(control.advertise_endpoint(), "worker-a:50051");
    assert_eq!(control.health().generator_count, 4);
    let data = TsoDataPlane::new(service);
    assert_eq!(data.health().timeline_count, 2);
    assert_eq!(data.max_timeline_proxy_lanes(), 12);
}

#[test]
fn errors_say_what_is_wrong() {
    assert_eq!(
        TsoError::TimelineNotReady {
            timeline_key: "timeline-a".into(),
            state: TimelineLifecycleState::Locked,
        }
        .message(),
        "timeline timeline-a is not ready: Locked"
    );
    assert_eq!(
        TsoError::InvalidResourceTier { value: -3 }.message(),
        "invalid resource tier: -3"
    );
    assert_eq!(TsoError::Internal("oops".into()).message(), "internal error: oops");
}
