use crashpilot::communication::gc_sender::{gc_sender, GCTask};
use crashpilot::communication::loki::{
    drain_room, group_by_robot, loki_endpoint, publish_step, QueueEvent, MAX_BATCH_SIZE,
};
use crashpilot::communication::robot_sender::{
    is_reachable, SendCheck, SendFailureReason, SendOutcome, SendReport, HEARTBEAT_TIMEOUT_MS,
};
use crashpilot::communication::robot_wifi_handler::{
    next_reconnect_delay, robot_slot, INITIAL_RECONNECT_DELAY_SECS, MAX_RECONNECT_DELAY_SECS,
};
use crashpilot::communication::ssl_gc_handler::{
    check_frame_len, frame_message, FrameError, VarintDecoder, VarintStep, MAX_FRAME_LEN,
};
use crashpilot::communication::RobotData;
use crashpilot::robot_communication::robot_sender as plain_sender;
use crashpilot::ssl_communication::gc_sender as ssl_gc_sender;

#[test]
fn constructs_endpoint_from_config() {
    let endpoint = loki_endpoint([127, 0, 0, 1], 3100);
    assert!(endpoint.starts_with("http://"));
    assert!(endpoint.ends_with("/loki/api/v1/push"));
}

#[test]
fn endpoint_spells_out_address_and_port() {
    assert_eq!(loki_endpoint([10, 0, 255, 7], 80), "http://10.0.255.7:80/loki/api/v1/push");
    assert_eq!(loki_endpoint([0, 0, 0, 0], 65535), "http://0.0.0.0:65535/loki/api/v1/push");
}

#[test]
fn builds_loki_streams_grouped_by_robot() {
    let groups = group_by_robot(&vec![1, 1, 2]);
    assert_eq!(groups.len(), 2);
    assert_eq!(groups[0].0, 1);
    assert_eq!(groups[0].1, vec![0, 1]);
    assert_eq!(groups[1].0, 2);
    assert_eq!(groups[1].1, vec![2]);
}

#[test]
fn groups_are_ordered_by_robot_id_and_keep_log_order() {
    let groups = group_by_robot(&vec![5, 3, 5, 9, 3, 5]);
    let ids: Vec<u32> = groups.iter().map(|g| g.0).collect();
    assert_eq!(ids, vec![3, 5, 9]);
    assert_eq!(groups[0].1, vec![1, 4]);
    assert_eq!(groups[1].1, vec![0, 2, 5]);
    assert_eq!(groups[2].1, vec![3]);
    assert!(group_by_robot(&vec![]).is_empty());
}

#[test]
fn publisher_drains_up_to_batch_size() {
    assert_eq!(drain_room(0), MAX_BATCH_SIZE);
    assert_eq!(drain_room(1), MAX_BATCH_SIZE - 1);
    assert_eq!(drain_room(MAX_BATCH_SIZE), 0);
    assert_eq!(drain_room(MAX_BATCH_SIZE + 5), 0);
}

#[test]
fn publisher_flushes_full_batches_and_on_timer() {
    let full = publish_step(MAX_BATCH_SIZE - 1, QueueEvent::Received { drained: 0 });
    assert!(full.flush);
    let partial = publish_step(3, QueueEvent::Received { drained: 2 });
    assert!(!partial.flush);
    assert_eq!(partial.pending, 6);
    let tick = publish_step(3, QueueEvent::TimedOut);
    assert!(tick.flush && !tick.stop);
    let idle = publish_step(0, QueueEvent::TimedOut);
    assert!(!idle.flush);
    let closed = publish_step(2, QueueEvent::Closed);
    assert!(closed.flush && closed.stop);
}

#[test]
fn reports_missing_robot_config_without_panicking() {
    let mut report = SendReport::new();
    let check = SendCheck {
        robot_id: 123,
        message_robot_id: 123,
        now_ms: 1_000,
        last_heartbeat_ms: 990,
        encoded_len: Some(20),
        has_config: false,
    };
    let send = report.check_before_send(&check);
    assert!(!send);
    assert_eq!(report.sent, 0);
    assert_eq!(report.failed.len(), 1);
    assert_eq!(report.failed[0]._robot_id, 123);
    assert_eq!(report.failed[0]._error, SendFailureReason::MissingConfig);
}

#[test]
fn stale_heartbeat_makes_robot_unreachable() {
    assert!(is_reachable(1_000, 1_000 - HEARTBEAT_TIMEOUT_MS + 1));
    assert!(!is_reachable(1_000, 1_000 - HEARTBEAT_TIMEOUT_MS));
    assert!(is_reachable(5, 10));
    let mut report = SendReport::new();
    let check = SendCheck {
        robot_id: 4,
        message_robot_id: 4,
        now_ms: 500,
        last_heartbeat_ms: 0,
        encoded_len: Some(10),
        has_config: true,
    };
    assert!(!report.check_before_send(&check));
    assert_eq!(report.failed[0]._error, SendFailureReason::Unreachable);
}

#[test]
fn id_mismatch_is_reported_but_datagram_still_goes_out() {
    let mut report = SendReport::new();
    let check = SendCheck {
        robot_id: 2,
        message_robot_id: 5,
        now_ms: 100,
        last_heartbeat_ms: 90,
        encoded_len: Some(8),
        has_config: true,
    };
    assert!(report.check_before_send(&check));
    assert_eq!(report.failed.len(), 1);
    assert_eq!(
        report.failed[0]._error,
        SendFailureReason::RobotIdMismatch { message_robot_id: 5 }
    );
}

#[test]
fn encode_failures_and_empty_messages_block_sending() {
    let mut report = SendReport::new();
    let base = SendCheck {
        robot_id: 1,
        message_robot_id: 1,
        now_ms: 100,
        last_heartbeat_ms: 100,
        encoded_len: None,
        has_config: true,
    };
    assert!(!report.check_before_send(&base));
    assert!(!report.check_before_send(&SendCheck { encoded_len: Some(0), ..base }));
    assert_eq!(report.failed[0]._error, SendFailureReason::EncodeFailed);
    assert_eq!(report.failed[1]._error, SendFailureReason::EmptyMessage);
}

#[test]
fn send_outcomes_are_counted_or_reported() {
    let mut report = SendReport::new();
    assert!(report.record_send_outcome(1, 12, SendOutcome::Sent(12)));
    assert!(!report.record_send_outcome(2, 12, SendOutcome::Sent(7)));
    assert!(!report.record_send_outcome(3, 12, SendOutcome::Failed));
    assert_eq!(report.sent, 1);
    assert_eq!(report.failed.len(), 2);
    assert_eq!(
        report.failed[0]._error,
        SendFailureReason::PartialSend { sent: 7, expected: 12 }
    );
    assert_eq!(report.failed[1]._robot_id, 3);
    assert_eq!(report.failed[1]._error, SendFailureReason::SendFailed);
}

#[test]
fn plain_sender_reports_missing_config() {
    let mut report = plain_sender::SendReport::new();
    let check = plain_sender::SendCheck {
        robot_id: 123,
        message_robot_id: 123,
        encoded_len: Some(4),
        has_config: false,
    };
    assert!(!report.check_before_send(&check));
    assert_eq!(report.sent, 0);
    assert_eq!(report.failed.len(), 1);
    assert_eq!(report.failed[0].robot_id, 123);
    assert_eq!(report.failed[0].error, plain_sender::SendFailureReason::MissingConfig);
    assert!(report.record_send_outcome(7, 4, plain_sender::SendOutcome::Sent(4)));
    assert_eq!(report.sent, 1);
}

#[test]
fn frame_starts_with_varint_length() {
    let payload: Vec<u8> = (0..300u32).map(|i| (i % 256) as u8).collect();
    let frame = frame_message(&payload);
    assert_eq!(frame.len(), 302);
    assert_eq!(frame[0], 0xac);
    assert_eq!(frame[1], 0x02);
    assert_eq!(&frame[2..], &payload[..]);
    let short = frame_message(&vec![9, 8, 7]);
    assert_eq!(short, vec![3, 9, 8, 7]);
    assert_eq!(frame_message(&vec![]), vec![0]);
}

#[test]
fn varint_decoder_reads_back_frame_length() {
    let payload = vec![1u8; 300];
    let frame = frame_message(&payload);
    let mut decoder = VarintDecoder::new();
    assert_eq!(decoder.push(frame[0]), VarintStep::NeedMore);
    assert_eq!(decoder.push(frame[1]), VarintStep::Done(300));
    let mut single = VarintDecoder::new();
    assert_eq!(single.push(0x05), VarintStep::Done(5));
}

#[test]
fn varint_decoder_refuses_ten_continuation_bytes() {
    let mut decoder = VarintDecoder::new();
    for _ in 0..9 {
        assert_eq!(decoder.push(0xff), VarintStep::NeedMore);
    }
    assert_eq!(decoder.push(0xff), VarintStep::Invalid);
}

#[test]
fn frame_length_limit() {
    assert_eq!(check_frame_len(0), Ok(0));
    assert_eq!(check_frame_len(MAX_FRAME_LEN as u64), Ok(MAX_FRAME_LEN));
    assert_eq!(
        check_frame_len(MAX_FRAME_LEN as u64 + 1),
        Err(FrameError::TooLarge(MAX_FRAME_LEN + 1))
    );
}

#[test]
fn reconnect_delay_doubles_up_to_limit() {
    let mut delay = INITIAL_RECONNECT_DELAY_SECS;
    let mut seen = vec![delay];
    for _ in 0..6 {
        delay = next_reconnect_delay(delay);
        seen.push(delay);
    }
    assert_eq!(seen, vec![1, 2, 4, 8, 16, 30, 30]);
    assert_eq!(next_reconnect_delay(MAX_RECONNECT_DELAY_SECS), MAX_RECONNECT_DELAY_SECS);
    assert_eq!(next_reconnect_delay(15), 30);
}

#[test]
fn robot_slots_cover_sixteen_ids() {
    assert_eq!(robot_slot(0), Some(0));
    assert_eq!(robot_slot(15), Some(15));
    assert_eq!(robot_slot(16), None);
    assert_eq!(robot_slot(255), None);
}

#[test]
fn gc_sender_accepts_tasks() {
    assert_eq!(gc_sender(3, GCTask::Goalie), Ok(()));
    assert_eq!(gc_sender(4, GCTask::Substitution), Ok(()));
    assert_eq!(ssl_gc_sender::gc_sender(3, ssl_gc_sender::GCTask::Goalie), Ok(()));
}

#[test]
fn robot_data_keeps_latest_of_each_kind() {
    let mut buffered: RobotData<u32, u8, i16> = RobotData::new();
    buffered.retain_latest(RobotData { robot_telemetry: Some(1), robot_sensor: Some(2), robot_debug: None });
    buffered.retain_latest(RobotData { robot_telemetry: Some(5), robot_sensor: None, robot_debug: Some(-3) });
    assert_eq!(buffered.robot_telemetry, Some(5));
    assert_eq!(buffered.robot_sensor, Some(2));
    assert_eq!(buffered.robot_debug, Some(-3));
    let taken = buffered.take();
    assert_eq!(taken.robot_telemetry, Some(5));
    assert_eq!(buffered.robot_telemetry, None);
    assert_eq!(buffered.robot_sensor, None);
    assert_eq!(buffered.robot_debug, None);
}

use crashpilot::communication::robot_wifi_handler::{classify_datagram, feedback_slot, DatagramKind};

#[test]
fn datagrams_are_told_apart_by_size() {
    assert_eq!(classify_datagram(40, 40, 24, 200), DatagramKind::Telemetry);
    assert_eq!(classify_datagram(24, 40, 24, 200), DatagramKind::Debug);
    assert_eq!(classify_datagram(200, 40, 24, 200), DatagramKind::OwnCommandFrame);
    assert_eq!(classify_datagram(7, 40, 24, 200), DatagramKind::Unexpected);
    assert_eq!(classify_datagram(24, 24, 24, 200), DatagramKind::Telemetry);
}

#[test]
fn feedback_is_accepted_only_from_configured_address() {
    let configured = vec![(3u32, [10, 0, 0, 3]), (5u32, [10, 0, 0, 5])];
    assert_eq!(feedback_slot(&configured, 3, [10, 0, 0, 3]), Some(3));
    assert_eq!(feedback_slot(&configured, 5, [10, 0, 0, 5]), Some(5));
    assert_eq!(feedback_slot(&configured, 3, [10, 0, 0, 5]), None);
    assert_eq!(feedback_slot(&configured, 4, [10, 0, 0, 3]), None);
    assert_eq!(feedback_slot(&vec![], 1, [127, 0, 0, 1]), None);
}

#[test]
fn feedback_from_an_id_without_heartbeat_slot_is_ignored() {
    let configured = vec![(16u32, [10, 0, 0, 16]), (15u32, [10, 0, 0, 15]), (40u32, [10, 0, 0, 40])];
    assert_eq!(feedback_slot(&configured, 16, [10, 0, 0, 16]), None);
    assert_eq!(feedback_slot(&configured, 40, [10, 0, 0, 40]), None);
    assert_eq!(feedback_slot(&configured, 15, [10, 0, 0, 15]), Some(15));
}

use crashpilot::communication::ssl_gc_handler::{
    hello_token, registration_outcome, token_after_reply, ControllerReplyView, RegistrationError,
};

fn reply(status: Option<i32>, reason: Option<&str>, token: Option<&str>) -> ControllerReplyView {
    ControllerReplyView {
        status_code: status,
        reason: reason.map(|r| r.to_string()),
        next_token: token.map(|t| t.to_string()),
    }
}

#[test]
fn registration_keeps_latest_token() {
    assert_eq!(hello_token(Some(reply(None, None, Some("t1")))), Some("t1".to_string()));
    assert_eq!(hello_token(None), None);
    match registration_outcome(Some(reply(Some(0), None, Some("t2"))), 0, Some("t1".to_string())) {
        Ok(token) => assert_eq!(token, Some("t2".to_string())),
        Err(_) => panic!("registration should hold"),
    }
    match registration_outcome(Some(reply(Some(0), None, None)), 0, Some("t1".to_string())) {
        Ok(token) => assert_eq!(token, Some("t1".to_string())),
        Err(_) => panic!("registration should hold"),
    }
}

#[test]
fn registration_refusals_carry_reason() {
    assert!(matches!(registration_outcome(None, 0, None), Err(RegistrationError::NoReply)));
    match registration_outcome(Some(reply(Some(1), Some("team name unknown"), None)), 0, None) {
        Err(RegistrationError::Rejected(reason)) => assert_eq!(reason, "team name unknown"),
        _ => panic!("registration should be refused"),
    }
    match registration_outcome(Some(reply(None, None, Some("t"))), 0, None) {
        Err(RegistrationError::Rejected(reason)) => assert_eq!(reason, "unknown reason"),
        _ => panic!("registration should be refused"),
    }
}

#[test]
fn replies_replace_the_token() {
    assert_eq!(token_after_reply(Some(reply(Some(0), None, Some("n"))), Some("o".to_string())), Some("n".to_string()));
    assert_eq!(token_after_reply(Some(reply(Some(0), None, None)), Some("o".to_string())), None);
    assert_eq!(token_after_reply(None, Some("o".to_string())), Some("o".to_string()));
}

use crashpilot::communication::loki::push_streams;
use crashpilot::communication::robot_sender::send_round;

#[test]
fn loki_streams_carry_labels_and_entries() {
    let streams = push_streams(&vec![2, 1, 2]);
    assert_eq!(streams.len(), 2);
    assert_eq!(streams[0].robot_id, 1);
    assert_eq!(streams[0].values, vec![1]);
    assert_eq!(streams[1].values, vec![0, 2]);
    let labels: Vec<(String, String)> = streams[1].labels.clone();
    assert_eq!(
        labels,
        vec![
            ("app".to_string(), "CrashPilot".to_string()),
            ("direction".to_string(), "outbound".to_string()),
            ("robot_id".to_string(), "2".to_string()),
        ]
    );
}

#[test]
fn send_round_tries_every_robot() {
    let ok = SendCheck {
        robot_id: 1,
        message_robot_id: 1,
        now_ms: 100,
        last_heartbeat_ms: 90,
        encoded_len: Some(10),
        has_config: true,
    };
    let checks = vec![
        ok,
        SendCheck { robot_id: 2, message_robot_id: 2, last_heartbeat_ms: 0, ..ok },
        SendCheck { robot_id: 3, message_robot_id: 3, ..ok },
        SendCheck { robot_id: 4, message_robot_id: 4, has_config: false, ..ok },
    ];
    let outcomes = vec![SendOutcome::Sent(10), SendOutcome::Sent(10), SendOutcome::Failed, SendOutcome::Sent(10)];
    let report = send_round(&checks, &outcomes);
    assert_eq!(report.sent, 1);
    let failures: Vec<(u32, SendFailureReason)> = report.failed.iter().map(|f| (f._robot_id, f._error)).collect();
    assert_eq!(
        failures,
        vec![
            (2, SendFailureReason::Unreachable),
            (3, SendFailureReason::SendFailed),
            (4, SendFailureReason::MissingConfig),
        ]
    );
}

#[test]
fn builds_loki_payload_grouped_by_robot() {
    // Three logged messages: robot 1 with packets 10 and 11, robot 2 with packet 12.
    let packet_ids: Vec<u32> = vec![10, 11, 12];
    let streams = push_streams(&vec![1, 1, 2]);
    assert_eq!(streams.len(), 2);
    let labels: Vec<String> = streams
        .iter()
        .map(|stream| stream.labels.iter().find(|(k, _)| k == "robot_id").unwrap().1.clone())
        .collect();
    assert_eq!(labels, vec!["1".to_owned(), "2".to_owned()]);

    let values_1 = &streams[0].values;
    assert_eq!(values_1.len(), 2);
    assert_eq!(packet_ids[values_1[0]], 10);
    assert_eq!(packet_ids[values_1[1]], 11);

    let values_2 = &streams[1].values;
    assert_eq!(values_2.len(), 1);
    assert_eq!(packet_ids[values_2[0]], 12);
}

use crashpilot::communication::robot_sender::{configured_ip, robot_address, OutgoingCommand};

#[test]
fn robot_address_is_the_configured_ip_and_robots_port() {
    let configured = vec![(1u32, [192, 168, 0, 11]), (7u32, [192, 168, 0, 17])];
    assert_eq!(robot_address(&configured, 7, 10003), Some(([192, 168, 0, 17], 10003)));
    assert_eq!(robot_address(&configured, 1, 9), Some(([192, 168, 0, 11], 9)));
    assert_eq!(robot_address(&configured, 2, 10003), None);
    assert_eq!(configured_ip(&configured, 1), Some([192, 168, 0, 11]));
    assert_eq!(configured_ip(&vec![], 1), None);
}

#[test]
fn prepared_datagram_carries_the_message_to_the_robot() {
    let configured = vec![(1u32, [192, 168, 0, 11]), (2u32, [192, 168, 0, 12])];
    let mut report = SendReport::new();
    let command = OutgoingCommand {
        robot_id: 2,
        message_robot_id: 2,
        last_heartbeat_ms: 950,
        encoded: Some(vec![8, 2, 16, 1]),
    };
    let datagram = report.prepare_datagram(command, 1000, &configured, 10003).expect("datagram");
    assert_eq!(datagram.robot_id, 2);
    assert_eq!(datagram.ip, [192, 168, 0, 12]);
    assert_eq!(datagram.port, 10003);
    assert_eq!(datagram.payload, vec![8, 2, 16, 1]);
    assert!(report.failed.is_empty());
    assert!(report.record_send_outcome(datagram.robot_id, datagram.payload.len(), SendOutcome::Sent(4)));
    assert_eq!(report.sent, 1);
}

#[test]
fn prepared_datagram_is_withheld_and_reported() {
    let configured = vec![(1u32, [192, 168, 0, 11])];
    let mut report = SendReport::new();
    let stale = OutgoingCommand { robot_id: 1, message_robot_id: 1, last_heartbeat_ms: 0, encoded: Some(vec![1]) };
    assert!(report.prepare_datagram(stale, 1000, &configured, 10003).is_none());
    let unknown = OutgoingCommand { robot_id: 3, message_robot_id: 3, last_heartbeat_ms: 990, encoded: Some(vec![1]) };
    assert!(report.prepare_datagram(unknown, 1000, &configured, 10003).is_none());
    let broken = OutgoingCommand { robot_id: 1, message_robot_id: 1, last_heartbeat_ms: 990, encoded: None };
    assert!(report.prepare_datagram(broken, 1000, &configured, 10003).is_none());
    let empty = OutgoingCommand { robot_id: 1, message_robot_id: 1, last_heartbeat_ms: 990, encoded: Some(vec![]) };
    assert!(report.prepare_datagram(empty, 1000, &configured, 10003).is_none());
    let mismatched = OutgoingCommand { robot_id: 1, message_robot_id: 4, last_heartbeat_ms: 990, encoded: Some(vec![5]) };
    let sent_anyway = report.prepare_datagram(mismatched, 1000, &configured, 10003).expect("still sent");
    assert_eq!(sent_anyway.ip, [192, 168, 0, 11]);
    let failures: Vec<(u32, SendFailureReason)> = report.failed.iter().map(|f| (f._robot_id, f._error)).collect();
    assert_eq!(
        failures,
        vec![
            (1, SendFailureReason::Unreachable),
            (3, SendFailureReason::MissingConfig),
            (1, SendFailureReason::EncodeFailed),
            (1, SendFailureReason::EmptyMessage),
            (1, SendFailureReason::RobotIdMismatch { message_robot_id: 4 }),
        ]
    );
    assert_eq!(report.sent, 0);
}
