use crashpilot::data_handler::ball_data::{
    convert_ball, AxisSign, CpBall, CpVector2, InterfaceCommand, RawBall, TrackedBall, VisionBalls,
};
use crashpilot::game_logic::types::Referee;
use crashpilot::helpers::best_angle_to_goal::{finish_range, longest_open_range};
use crashpilot::replay::{
    cursor_move, events_until, initial_cursor, last_event_label, step_back_target, CursorMove,
    ReplayKind,
};
use crashpilot::ssl::Event;
use crashpilot::types::{Site, Team};
use crashpilot::utils::{FieldGeometry, FieldSetup};

fn sign(v: i32) -> AxisSign {
    if v < 0 {
        AxisSign::Negative
    } else if v > 0 {
        AxisSign::Positive
    } else {
        AxisSign::Zero
    }
}

fn seen_ball(x: i32, y: i32, vel: Option<CpVector2>) -> TrackedBall {
    TrackedBall { x, y, vel, x_sign: sign(x), y_sign: sign(y) }
}

fn raw(x: i32, y: i32) -> RawBall {
    RawBall { x, y, x_sign: sign(x), y_sign: sign(y) }
}

#[test]
fn finish_range_keeps_strictly_longer_run() {
    let mut current = Some((2usize, 5usize));
    let mut best = Some((0usize, 3usize));
    finish_range(&mut current, &mut best);
    assert_eq!(current, None);
    assert_eq!(best, Some((0, 3)));

    let mut current = Some((4usize, 9usize));
    finish_range(&mut current, &mut best);
    assert_eq!(best, Some((4, 9)));

    let mut current = None;
    finish_range(&mut current, &mut best);
    assert_eq!(best, Some((4, 9)));

    let mut current = Some((1usize, 1usize));
    let mut none_yet = None;
    finish_range(&mut current, &mut none_yet);
    assert_eq!(none_yet, Some((1, 1)));
}

#[test]
fn longest_open_range_picks_first_longest_run() {
    let open = vec![true, false, true, true, false, true, true, false];
    assert_eq!(longest_open_range(&open), Some((2, 3)));
    assert_eq!(longest_open_range(&vec![false, false]), None);
    assert_eq!(longest_open_range(&vec![]), None);
    assert_eq!(longest_open_range(&vec![true, true, true]), Some((0, 2)));
    assert_eq!(longest_open_range(&vec![false, true]), Some((1, 1)));
}

#[test]
fn convert_ball_takes_first_ball_without_testfield() {
    let cmd = InterfaceCommand { enable_testfield: false, testfield: 0 };
    let balls = VisionBalls::Tracker(vec![
        seen_ball(100, -200, Some(CpVector2 { x: 5, y: 6 })),
        seen_ball(-1, 1, None),
    ]);
    assert_eq!(
        convert_ball(balls, cmd),
        CpBall { pos: CpVector2 { x: 100, y: -200 }, vel: Some(CpVector2 { x: 5, y: 6 }) }
    );
    let balls = VisionBalls::Raw(vec![raw(7, 8)]);
    assert_eq!(
        convert_ball(balls, cmd),
        CpBall { pos: CpVector2 { x: 7, y: 8 }, vel: Some(CpVector2 { x: 0, y: 0 }) }
    );
}

#[test]
fn convert_ball_selects_ball_in_test_area() {
    let balls = || {
        VisionBalls::Tracker(vec![
            seen_ball(100, 100, None),
            seen_ball(-100, 50, None),
            seen_ball(200, -300, None),
            seen_ball(-5, -5, None),
        ])
    };
    let area = |n: i32| InterfaceCommand { enable_testfield: true, testfield: n };
    assert_eq!(convert_ball(balls(), area(0)).pos, CpVector2 { x: -100, y: 50 });
    assert_eq!(convert_ball(balls(), area(1)).pos, CpVector2 { x: 100, y: 100 });
    assert_eq!(convert_ball(balls(), area(2)).pos, CpVector2 { x: 200, y: -300 });
    assert_eq!(convert_ball(balls(), area(3)).pos, CpVector2 { x: -5, y: -5 });
    assert_eq!(
        convert_ball(balls(), area(4)),
        CpBall { pos: CpVector2 { x: 0, y: 0 }, vel: Some(CpVector2 { x: 0, y: 0 }) }
    );
    assert_eq!(
        convert_ball(VisionBalls::Raw(vec![raw(0, 10)]), area(1)),
        CpBall { pos: CpVector2 { x: 0, y: 0 }, vel: Some(CpVector2 { x: 0, y: 0 }) }
    );
}

#[test]
fn field_setup_defaults_and_geometry() {
    let d = FieldSetup::default();
    assert_eq!((d.width, d.height, d.goal_width), (9000, 6000, 1000));
    assert_eq!((d.penalty_width, d.penalty_height, d.run_off_width), (2000, 1000, 200));
    let g = FieldGeometry {
        field_length: 12000,
        field_width: 9000,
        goal_width: 1800,
        penalty_area_width: Some(3600),
        penalty_area_depth: None,
        center_circle_radius: Some(500),
        goal_substitution_area_width: None,
    };
    let s = FieldSetup::from_geometry(&g);
    assert_eq!((s.width, s.height, s.goal_width), (12000, 9000, 1800));
    assert_eq!((s.penalty_width, s.penalty_height), (3600, 0));
    assert_eq!(s._center_circle_radius, 500);
    assert_eq!(s.run_off_width, 200);
}

#[test]
fn replay_cursor_starts_after_first_vision_packet() {
    let kinds = vec![ReplayKind::Referee, ReplayKind::Referee, ReplayKind::Tracker, ReplayKind::Raw];
    assert_eq!(initial_cursor(&kinds), 3);
    assert_eq!(initial_cursor(&vec![ReplayKind::Referee]), 1);
    assert_eq!(initial_cursor(&vec![]), 1);
    assert_eq!(last_event_label(&kinds, 3), "tracked vision");
    assert_eq!(last_event_label(&kinds, 4), "raw vision");
    assert_eq!(last_event_label(&kinds, 1), "referee");
    assert_eq!(last_event_label(&kinds, 0), "none");
    assert_eq!(last_event_label(&kinds, 5), "none");
}

#[test]
fn replay_seek_and_step() {
    let ts = vec![10i64, 20, 20, 35];
    assert_eq!(events_until(&ts, 5), 0);
    assert_eq!(events_until(&ts, 20), 3);
    assert_eq!(events_until(&ts, 100), 4);
    assert_eq!(cursor_move(3, 1, 4), CursorMove::Rebuild(1));
    assert_eq!(cursor_move(1, 3, 4), CursorMove::Forward(3));
    assert_eq!(cursor_move(2, 9, 4), CursorMove::Forward(4));
    assert_eq!(step_back_target(5, 2), 4);
    assert_eq!(step_back_target(2, 2), 2);
    assert_eq!(step_back_target(0, 0), 0);
}

#[test]
fn team_and_site_defaults() {
    assert_eq!(Team::default(), Team::YELLOW);
    assert_eq!(Site::default(), Site::PositiveX);
    let event: Event<u8> = Event::Referee(Referee { command: 0, command_counter: 1, command_timestamp: 2 });
    assert!(matches!(event, Event::Referee(r) if r.command_counter == 1));
    let wrapped: Event<u8> = Event::SslWrapper(4);
    assert!(matches!(wrapped, Event::SslWrapper(4)));
}

use crashpilot::helpers::robot_data::{
    cp_infos, create_robot_data, split_tracked_robots, CpInfos, CpTrackedRobot, RobotMessage,
    TrackedFrame,
};
use crashpilot::replay::{
    format_time, key_to_control, lacks_vision_source, sort_events_by_time, Control, KeyCode,
    KeyPress, LoadError, LoadStats, LogIndex, ReplayEvent,
};

fn bot(id: u32, x: i32) -> CpTrackedRobot {
    CpTrackedRobot { robot_id: id, pos: CpVector2 { x, y: 0 }, orientation: 90, vel: None, visibility: 99 }
}

fn empty_message() -> RobotMessage {
    RobotMessage {
        packet_id: 0,
        robots_yellow: vec![bot(99, 0)],
        robots_blue: vec![],
        ball: CpBall { pos: CpVector2 { x: 1, y: 1 }, vel: None },
        infos: CpInfos {
            team_color: 0,
            team_site: 0,
            width: 0,
            height: 0,
            runoff_width: 0,
            penalty_area_width: 0,
            penalty_area_height: 0,
            goal_width: 0,
        },
    }
}

#[test]
fn split_keeps_first_robot_of_each_id_per_team() {
    let seen = vec![
        (Some(1), bot(3, 10)),
        (Some(2), bot(3, 20)),
        (Some(1), bot(3, 30)),
        (None, bot(5, 40)),
        (Some(7), bot(6, 50)),
        (Some(1), bot(1, 60)),
    ];
    let (yellow, blue) = split_tracked_robots(&seen);
    assert_eq!(yellow, vec![bot(3, 10), bot(1, 60)]);
    assert_eq!(blue, vec![bot(3, 20)]);
}

#[test]
fn robot_messages_get_frame_data_and_infos() {
    let field = FieldSetup::default();
    let mut robots = vec![(1u32, empty_message()), (2u32, empty_message())];
    let frame = TrackedFrame {
        robots: vec![(Some(2), bot(4, -100)), (Some(1), bot(0, 100))],
        balls: vec![seen_ball(-50, 60, Some(CpVector2 { x: 2, y: 3 }))],
    };
    let cmd = InterfaceCommand { enable_testfield: false, testfield: 0 };
    create_robot_data(&mut robots, 17, Some(frame), vec![raw(5, 5)], true, cmd, 1, -1, &field);
    for (i, (id, msg)) in robots.iter().enumerate() {
        assert_eq!(*id, i as u32 + 1);
        assert_eq!(msg.packet_id, 17);
        assert_eq!(msg.robots_yellow, vec![bot(0, 100)]);
        assert_eq!(msg.robots_blue, vec![bot(4, -100)]);
        assert_eq!(msg.ball, CpBall { pos: CpVector2 { x: -50, y: 60 }, vel: Some(CpVector2 { x: 2, y: 3 }) });
        assert_eq!(msg.infos, cp_infos(1, -1, &field));
        assert_eq!(msg.infos.width, 9000);
        assert_eq!(msg.infos.runoff_width, 200);
    }
}

#[test]
fn robot_messages_use_raw_ball_when_chosen_and_keep_data_without_frame() {
    let field = FieldSetup::default();
    let cmd = InterfaceCommand { enable_testfield: false, testfield: 0 };
    let mut robots = vec![(1u32, empty_message())];
    let frame = TrackedFrame { robots: vec![], balls: vec![seen_ball(-50, 60, None)] };
    create_robot_data(&mut robots, 3, Some(frame), vec![raw(5, 6)], false, cmd, 0, 1, &field);
    assert_eq!(robots[0].1.ball, CpBall { pos: CpVector2 { x: 5, y: 6 }, vel: Some(CpVector2 { x: 0, y: 0 }) });
    assert!(robots[0].1.robots_yellow.is_empty());

    let mut robots = vec![(1u32, empty_message())];
    create_robot_data(&mut robots, 4, None, vec![], false, cmd, 0, 1, &field);
    assert_eq!(robots[0].1.packet_id, 4);
    assert_eq!(robots[0].1.robots_yellow, vec![bot(99, 0)]);
    assert_eq!(robots[0].1.ball, CpBall { pos: CpVector2 { x: 1, y: 1 }, vel: None });
    assert_eq!(robots[0].1.infos.team_site, 1);
}

fn event(ts: i64, offset: u64) -> ReplayEvent {
    ReplayEvent { timestamp_ns: ts, kind: ReplayKind::Raw, payload_offset: offset, payload_len: 1 }
}

#[test]
fn events_sort_stably_by_time() {
    let events = vec![event(30, 0), event(10, 1), event(30, 2), event(20, 3), event(10, 4)];
    let sorted = sort_events_by_time(&events);
    let offsets: Vec<u64> = sorted.iter().map(|e| e.payload_offset).collect();
    assert_eq!(offsets, vec![1, 4, 3, 0, 2]);
    assert!(sort_events_by_time(&vec![]).is_empty());
}

#[test]
fn log_index_counts_and_places_payloads() {
    let mut index = LogIndex::new();
    assert!(!index.add(None, true, 5, 10));
    assert!(!index.add(Some(ReplayKind::Raw), false, 5, 10));
    assert!(index.add(Some(ReplayKind::Referee), true, 20, 7));
    assert!(index.add(Some(ReplayKind::Tracker), true, 10, 3));
    assert!(index.add(Some(ReplayKind::Raw), true, 15, 4));
    assert_eq!(
        index.stats,
        LoadStats { raw: 1, tracker: 1, referee: 1, ignored: 1, decode_errors: 1 }
    );
    assert_eq!(index.payload_offset, 14);
    let offsets: Vec<(u64, usize)> = index.events.iter().map(|e| (e.payload_offset, e.payload_len)).collect();
    assert_eq!(offsets, vec![(0, 7), (7, 3), (10, 4)]);
    let (events, stats) = index.finish().unwrap();
    assert_eq!(stats, index.stats);
    let placed: Vec<(i64, u64, usize)> =
        events.iter().map(|e| (e.timestamp_ns, e.payload_offset, e.payload_len)).collect();
    assert_eq!(placed, vec![(10, 7, 3), (15, 10, 4), (20, 0, 7)]);
    assert!(!lacks_vision_source(&stats));
}

#[test]
fn log_index_refuses_logs_without_events_or_vision() {
    let empty = LogIndex::new();
    assert_eq!(empty.finish().unwrap_err(), LoadError::NoEvents);
    let mut referee_only = LogIndex::new();
    referee_only.add(Some(ReplayKind::Referee), true, 1, 1);
    assert_eq!(referee_only.finish().unwrap_err(), LoadError::NoVision);
    let mut raw_only = LogIndex::new();
    raw_only.add(Some(ReplayKind::Raw), true, 1, 1);
    assert!(raw_only.finish().is_ok());
    assert!(lacks_vision_source(&raw_only.stats));
}

#[test]
fn format_time_pads_fields() {
    assert_eq!(format_time(0), "00:00.000");
    assert_eq!(format_time(61_005), "01:01.005");
    assert_eq!(format_time(754_321), "12:34.321");
    assert_eq!(format_time(6_000_000), "100:00.000");
}

#[test]
fn keys_map_to_replay_controls() {
    let key = |code: KeyCode| KeyPress { code, control: false, shift: false };
    assert_eq!(key_to_control(key(KeyCode::Char(' '))), Some(Control::TogglePlayback));
    assert_eq!(key_to_control(key(KeyCode::Char('p'))), Some(Control::TogglePlayback));
    assert_eq!(key_to_control(key(KeyCode::Char('='))), Some(Control::Faster));
    assert_eq!(key_to_control(key(KeyCode::Char('-'))), Some(Control::Slower));
    assert_eq!(key_to_control(key(KeyCode::Left)), Some(Control::Seek(-1)));
    assert_eq!(
        key_to_control(KeyPress { code: KeyCode::Right, control: false, shift: true }),
        Some(Control::Seek(10))
    );
    assert_eq!(key_to_control(key(KeyCode::Char(','))), Some(Control::Previous));
    assert_eq!(key_to_control(key(KeyCode::Char('.'))), Some(Control::Next));
    assert_eq!(key_to_control(key(KeyCode::Home)), Some(Control::Start));
    assert_eq!(key_to_control(key(KeyCode::End)), Some(Control::End));
    assert_eq!(key_to_control(key(KeyCode::Char('r'))), Some(Control::Restart));
    assert_eq!(key_to_control(key(KeyCode::Char('?'))), Some(Control::ToggleHelp));
    assert_eq!(key_to_control(key(KeyCode::Esc)), Some(Control::Quit));
    assert_eq!(
        key_to_control(KeyPress { code: KeyCode::Char('c'), control: true, shift: false }),
        Some(Control::Quit)
    );
    assert_eq!(key_to_control(key(KeyCode::Char('c'))), None);
    assert_eq!(key_to_control(key(KeyCode::Other)), None);
}

use crashpilot::data_handler::sources::tracker_source;
use crashpilot::replay::{gap_to_next_ns, position_ns};

#[test]
fn tracker_sources_are_named_by_source_and_uuid() {
    assert_eq!(tracker_source("abc", Some("TIGERs")), "TIGERs:abc");
    assert_eq!(tracker_source("abc", None), "tracker:abc");
    assert_eq!(tracker_source("", Some("ER-Force")), "ER-Force");
    assert_eq!(tracker_source("", None), "tracker:unknown");
}

#[test]
fn replay_position_and_gaps() {
    let ts = vec![100i64, 150, 150, 400];
    assert_eq!(position_ns(&ts, 0, 100), 0);
    assert_eq!(position_ns(&ts, 2, 100), 50);
    assert_eq!(position_ns(&ts, 4, 100), 300);
    assert_eq!(position_ns(&ts, 9, 100), 0);
    assert_eq!(position_ns(&vec![50], 1, 100), 0);
    assert_eq!(gap_to_next_ns(&ts, 0), 0);
    assert_eq!(gap_to_next_ns(&ts, 1), 50);
    assert_eq!(gap_to_next_ns(&ts, 2), 0);
    assert_eq!(gap_to_next_ns(&ts, 3), 250);
    assert_eq!(gap_to_next_ns(&ts, 4), 0);
    assert_eq!(gap_to_next_ns(&vec![10, 5], 1), 0);
}

use crashpilot::data_handler::sources::SeenFrames;
use crashpilot::replay::{replay_step, ReplayStep};

#[test]
fn repeated_tracked_frames_are_taken_once() {
    let mut seen = SeenFrames::new();
    assert!(seen.insert("a".to_string(), 1));
    assert!(seen.insert("a".to_string(), 2));
    assert!(seen.insert("b".to_string(), 1));
    assert!(!seen.insert("a".to_string(), 1));
    assert_eq!(seen.frames.len(), 3);
}

#[test]
fn replay_controls_move_playback() {
    let step = |cursor, playing, control| replay_step(cursor, 10, 2, playing, control);
    assert_eq!(step(10, false, Control::TogglePlayback), ReplayStep { cursor: 2, playing: true, publish: true });
    assert_eq!(step(5, true, Control::TogglePlayback), ReplayStep { cursor: 5, playing: false, publish: false });
    assert_eq!(step(5, true, Control::Next), ReplayStep { cursor: 6, playing: false, publish: true });
    assert_eq!(step(10, true, Control::Next), ReplayStep { cursor: 10, playing: false, publish: false });
    assert_eq!(step(5, true, Control::Previous), ReplayStep { cursor: 4, playing: false, publish: true });
    assert_eq!(step(2, false, Control::Previous), ReplayStep { cursor: 2, playing: false, publish: true });
    assert_eq!(step(7, true, Control::Start), ReplayStep { cursor: 2, playing: true, publish: true });
    assert_eq!(step(7, true, Control::End), ReplayStep { cursor: 10, playing: false, publish: true });
    assert_eq!(step(7, false, Control::Restart), ReplayStep { cursor: 2, playing: true, publish: true });
    assert_eq!(step(7, false, Control::Seek(3)), ReplayStep { cursor: 7, playing: false, publish: true });
    assert_eq!(step(7, true, Control::Faster), ReplayStep { cursor: 7, playing: true, publish: false });
    assert_eq!(replay_step(0, 0, 1, false, Control::Start), ReplayStep { cursor: 0, playing: false, publish: true });
}
