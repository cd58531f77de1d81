use std::collections::HashMap;

use crashpilot::data_handler::ball_data::CpVector2;
use crashpilot::game_logic::ai_handler::{planned_receive_kick, PlannedPass};
use crashpilot::game_logic::mode_game::{
    free_kick_plan, game_action, kickoff_plan, FreeKickPlan, GameAction, KickoffPlan,
};
use crashpilot::game_logic::mode_manual::{mode_manual, CpCommand};
use crashpilot::game_logic::mode_test::{
    random_target, scale_to_range, selected_robot_ids, splitmix64, TARGET_CHANGE_PERIOD_MS,
};
use crashpilot::game_logic::types::{GamePhase, PrepPhase, PrepTaskStatus};

#[test]
fn splitmix64_known_value() {
    assert_eq!(splitmix64(0), 0xe220_a839_7b1d_cdaf);
    assert_ne!(splitmix64(1), splitmix64(2));
}

#[test]
fn scale_to_range_maps_into_half_open_range() {
    assert_eq!(scale_to_range(10, -5, 5), -5);
    assert_eq!(scale_to_range(13, -5, 5), -2);
    assert_eq!(scale_to_range(8, 3, 10), 4);
    assert_eq!(scale_to_range(17, 0, 0), 0);
    assert_eq!(scale_to_range(u64::MAX, 0, 7), (u64::MAX % 7) as i32);
}

#[test]
fn random_target_is_stable_within_a_period() {
    let a = random_target(0, 1, 7, 4000, 2500);
    let b = random_target(TARGET_CHANGE_PERIOD_MS - 1, 1, 7, 4000, 2500);
    assert_eq!(a, b);
    let seed = splitmix64(0 ^ ((1u64 << 32) ^ 7));
    assert_eq!(a.x, -4000 + (seed % 8000) as i32);
    assert_eq!(a.y, -2500 + (splitmix64(seed) % 5000) as i32);
    for t in 0..50u64 {
        let p = random_target(t * 1_000, 3, 11, 4000, 2500);
        assert!(-4000 <= p.x && p.x < 4000);
        assert!(-2500 <= p.y && p.y < 2500);
    }
    assert_eq!(random_target(123, 0, 0, 0, 0), CpVector2 { x: 0, y: 0 });
}

#[test]
fn selected_ids_keep_requested_configured_robots_in_order() {
    assert_eq!(selected_robot_ids(&vec![5, 9, 2], &vec![2, 3, 5]), vec![5, 2]);
    assert_eq!(selected_robot_ids(&vec![7, 8], &vec![4, 1, 3]), vec![1, 3, 4]);
    assert_eq!(selected_robot_ids(&vec![], &vec![]), Vec::<u32>::new());
}

#[test]
fn manual_mode_sends_operator_commands() {
    let operator = CpCommand { state: 4, task: 2, speed: Some(1000), ..CpCommand::default() };
    let data = HashMap::from([(1u32, operator)]);
    let mut commands = vec![(1u32, CpCommand::default()), (2u32, CpCommand { state: 9, ..CpCommand::default() })];
    mode_manual(&mut commands, &data, false, 0);
    assert_eq!(commands[0], (1, operator));
    assert_eq!(commands[1], (2, CpCommand::default()));
}

#[test]
fn manual_mode_follows_referee_halt_and_stop_when_gc_enabled() {
    let operator = CpCommand { state: 4, task: 2, ..CpCommand::default() };
    let data = HashMap::from([(1u32, operator)]);
    let mut commands = vec![(1u32, CpCommand::default())];
    mode_manual(&mut commands, &data, true, 1);
    assert_eq!(commands[0].1, CpCommand { state: 1, ..operator });
    mode_manual(&mut commands, &data, true, 0);
    assert_eq!(commands[0].1.state, 0);
    mode_manual(&mut commands, &data, true, 2);
    assert_eq!(commands[0].1, operator);
}

#[test]
fn latched_restart_decides_game_action() {
    assert_eq!(game_action(GamePhase::Running, None), GameAction::RunAi);
    assert_eq!(game_action(GamePhase::Halted, None), GameAction::HaltAll);
    assert_eq!(game_action(GamePhase::Unknown, None), GameAction::HaltAll);
    assert_eq!(game_action(GamePhase::Stopped, None), GameAction::StopAll);
    assert_eq!(game_action(GamePhase::Timeout, None), GameAction::TimeoutPositions);
    assert_eq!(game_action(GamePhase::BallPlacement, None), GameAction::PlaceBall);
    assert_eq!(
        game_action(GamePhase::Running, Some((PrepTaskStatus::Preparing, PrepPhase::OffensiveKickoff))),
        GameAction::PrepareRestart { offensive: true }
    );
    assert_eq!(
        game_action(GamePhase::Running, Some((PrepTaskStatus::Ready, PrepPhase::OffensiveFreeKick))),
        GameAction::ExecuteRestart { phase: PrepPhase::OffensiveFreeKick }
    );
    assert_eq!(
        game_action(GamePhase::Running, Some((PrepTaskStatus::Ready, PrepPhase::DefensivePenalty))),
        GameAction::StopForRestart
    );
}

#[test]
fn kickoff_plan_steps() {
    assert_eq!(kickoff_plan(false, None, false), KickoffPlan::DirectKick);
    assert_eq!(kickoff_plan(true, None, false), KickoffPlan::ClearTask);
    assert_eq!(kickoff_plan(false, Some(3), true), KickoffPlan::Pass(3));
    assert_eq!(kickoff_plan(true, Some(3), false), KickoffPlan::HoldAndReceive(3));
    assert_eq!(kickoff_plan(true, Some(3), true), KickoffPlan::HoldAndClear(3));
}

#[test]
fn free_kick_plan_steps() {
    assert_eq!(free_kick_plan(None, true, true, true, true, true), FreeKickPlan::DirectKick);
    assert_eq!(free_kick_plan(Some(2), true, true, false, false, false), FreeKickPlan::FollowUpShot(2));
    assert_eq!(free_kick_plan(Some(2), false, true, true, false, false), FreeKickPlan::HoldAndShoot(2));
    assert_eq!(free_kick_plan(Some(2), false, true, false, true, true), FreeKickPlan::HoldAndReceive(2));
    assert_eq!(free_kick_plan(Some(2), false, false, false, true, true), FreeKickPlan::Pass(2));
    assert_eq!(free_kick_plan(Some(2), false, false, false, true, false), FreeKickPlan::Setup(2));
}

#[test]
fn receiver_inherits_first_pass_planned_to_it() {
    let first = PlannedPass { kick_orient: 10, kick_speed: 3000 };
    let second = PlannedPass { kick_orient: 20, kick_speed: 2000 };
    let planned = vec![(4u8, first), (1u8, second), (1u8, first)];
    assert_eq!(planned_receive_kick(&planned, 1), Some(second));
    assert_eq!(planned_receive_kick(&planned, 4), Some(first));
    assert_eq!(planned_receive_kick(&planned, 2), None);
    assert_eq!(planned_receive_kick(&vec![], 1), None);
}

use crashpilot::game_logic::mode_test::{field_half_extent, mode_test, TestMode, TestOrder};

fn target(now: u64, idx: usize, salt: u64) -> CpVector2 {
    random_target(now, idx, salt, 4000, 2500)
}

#[test]
fn half_extent_follows_farthest_robot_within_bounds() {
    assert_eq!(field_half_extent(&vec![], 4000, 1000, 4500), 4000);
    assert_eq!(field_half_extent(&vec![100, 2500, 300], 4000, 1000, 4500), 3500);
    assert_eq!(field_half_extent(&vec![9000], 4000, 1000, 4500), 4500);
    assert_eq!(field_half_extent(&vec![0], 2500, 1000, 3000), 1000);
    assert_eq!(field_half_extent(&vec![1500, 1800], 2500, 1000, 3000), 2800);
}

#[test]
fn test_none_halts_every_robot() {
    let robots = vec![(1u32, false), (2u32, true)];
    let orders = mode_test(TestMode::TestNone, &robots, &vec![1], &vec![], 0, 4000, 2500);
    assert_eq!(orders, vec![(1, TestOrder::Halt), (2, TestOrder::Halt)]);
}

#[test]
fn ball_control_and_dribbler_act_on_selected_robots() {
    let robots = vec![(1u32, false), (2u32, false), (3u32, false)];
    let orders = mode_test(TestMode::BallControl, &robots, &vec![3, 9], &vec![], 0, 4000, 2500);
    assert_eq!(orders, vec![(1, TestOrder::Free), (2, TestOrder::Free), (3, TestOrder::Dribble)]);
    let now = 20_000;
    let orders = mode_test(TestMode::Dribbler, &robots, &vec![], &vec![], now, 4000, 2500);
    assert_eq!(
        orders,
        vec![
            (1, TestOrder::PosBall(target(now, 0, 0))),
            (2, TestOrder::PosBall(target(now, 1, 0))),
            (3, TestOrder::PosBall(target(now, 2, 0))),
        ]
    );
}

#[test]
fn kicker_test_with_one_and_two_robots() {
    let now = 5;
    let robots = vec![(4u32, false), (7u32, false), (9u32, false)];
    let orders = mode_test(TestMode::Kicker, &robots, &vec![7], &vec![], now, 4000, 2500);
    assert_eq!(orders[1], (7, TestOrder::PosBall(target(now, 0, 1))));
    assert_eq!(orders[0], (4, TestOrder::Free));

    let own = vec![(7u8, Some(CpVector2 { x: 100, y: 200 })), (9u8, None)];
    let orders = mode_test(TestMode::Kicker, &robots, &vec![7, 9], &own, now, 4000, 2500);
    assert_eq!(orders[1], (7, TestOrder::PosBall(target(now, 0, 2))));
    assert_eq!(orders[2], (9, TestOrder::Position(target(now, 1, 3))));

    let holding = vec![(4u32, false), (7u32, true), (9u32, false)];
    let orders = mode_test(TestMode::Kicker, &holding, &vec![7, 9], &own, now, 4000, 2500);
    assert_eq!(
        orders[1],
        (7, TestOrder::Kick { from: CpVector2 { x: 100, y: 200 }, to: target(now, 1, 3) })
    );
    assert_eq!(orders[2], (9, TestOrder::ReceiveKick(target(now, 1, 3))));

    let second_holds = vec![(4u32, false), (7u32, false), (9u32, true)];
    let orders = mode_test(TestMode::Kicker, &second_holds, &vec![7, 9], &own, now, 4000, 2500);
    assert_eq!(
        orders[2],
        (9, TestOrder::Kick { from: target(now, 1, 3), to: CpVector2 { x: 100, y: 200 } })
    );
}

#[test]
fn goalie_and_shooting_tests_use_requested_robots() {
    let robots = vec![(1u32, false), (2u32, false)];
    let own = vec![(2u8, None)];
    let orders = mode_test(TestMode::Goalie, &robots, &vec![2], &own, 0, 4000, 2500);
    assert_eq!(orders, vec![(1, TestOrder::Free), (2, TestOrder::Goalie)]);
    let orders = mode_test(TestMode::GoalShoot, &robots, &vec![2], &own, 0, 4000, 2500);
    assert_eq!(orders[1], (2, TestOrder::ShootAtGoal { capped: true }));
    let orders = mode_test(TestMode::GoalShoot, &robots, &vec![1], &own, 0, 4000, 2500);
    assert_eq!(orders[0], (1, TestOrder::Free));
    let orders = mode_test(TestMode::GoalieAndShoot, &robots, &vec![1, 2], &own, 0, 4000, 2500);
    assert_eq!(
        orders,
        vec![(1, TestOrder::Goalie), (2, TestOrder::ShootAtGoal { capped: false })]
    );
    let orders = mode_test(TestMode::GoalieAndShoot, &robots, &vec![1], &own, 0, 4000, 2500);
    assert_eq!(orders, vec![(1, TestOrder::Free), (2, TestOrder::Free)]);
}

use crashpilot::game_logic::ai_handler::{
    ai_handler, apply_ai_command, AiCommand, AiRobot, CommandCodes,
};

fn codes() -> CommandCodes {
    CommandCodes {
        state_free: 1,
        state_goalie: 2,
        task_pos: 10,
        task_kick: 11,
        task_rec_kick: 12,
        task_steal: 13,
        task_dribble: 14,
        task_pos_ball: 15,
        task_block: 16,
    }
}

fn ai_robot(id: u32) -> AiRobot {
    AiRobot { id, robot_id: id, cmd: CpCommand { state: 7, task: 3, ..CpCommand::default() }, untouched: false }
}

#[test]
fn ai_commands_set_tasks() {
    let base = CpCommand { state: 7, task: 3, speed: Some(9), ..CpCommand::default() };
    let own = vec![0u8, 1, 2];
    let kick = apply_ai_command(base, AiCommand::Kick(90), codes(), &vec![], 0, &own);
    assert_eq!(kick, CpCommand { state: 1, task: 11, kick_orient: Some(90), kick_speed: Some(255), ..base });
    let chip = apply_ai_command(base, AiCommand::Chip(45), codes(), &vec![], 0, &own);
    assert_eq!(chip.kick_speed, Some(200));
    let pos = apply_ai_command(
        base,
        AiCommand::Pos { pos: CpVector2 { x: 1, y: 2 }, speed: None, orientation: Some(5) },
        codes(),
        &vec![],
        0,
        &own,
    );
    assert_eq!(pos, CpCommand { state: 1, task: 10, pos: Some(CpVector2 { x: 1, y: 2 }), speed: Some(4000), orientation: Some(5), ..base });
    let hold = apply_ai_command(base, AiCommand::Hold, codes(), &vec![], 0, &own);
    assert_eq!(hold, CpCommand { state: 1, speed: Some(0), ..base });
    let guard = apply_ai_command(base, AiCommand::GoalieGuard, codes(), &vec![], 0, &own);
    assert_eq!(guard, CpCommand { state: 2, task: 16, speed: Some(4000), enemy_id: None, ..base });
    let steal = apply_ai_command(base, AiCommand::Steal { orientation: 33 }, codes(), &vec![], 0, &own);
    assert_eq!((steal.task, steal.speed, steal.orientation), (13, Some(4000), Some(33)));
    let dribble = apply_ai_command(
        base,
        AiCommand::Dribble { pos: CpVector2 { x: 5, y: 5 }, orientation: 12 },
        codes(),
        &vec![],
        0,
        &own,
    );
    assert_eq!((dribble.task, dribble.speed, dribble.orientation), (14, Some(2000), Some(12)));
}

#[test]
fn passes_carry_plans_to_both_robots() {
    let plan = PlannedPass { kick_orient: 1234, kick_speed: 150 };
    let own = vec![0u8, 1];
    let base = CpCommand::default();
    let pass = apply_ai_command(base, AiCommand::PassTo { receiver: 1, plan: Some(plan) }, codes(), &vec![], 0, &own);
    assert_eq!((pass.task, pass.kick_orient, pass.kick_speed), (11, Some(1234), Some(150)));
    let planned = vec![(1u8, plan)];
    let receive = apply_ai_command(
        CpCommand { kick_orient: Some(5), kick_speed: Some(5), ..base },
        AiCommand::RecPass,
        codes(),
        &planned,
        1,
        &own,
    );
    assert_eq!((receive.task, receive.kick_orient, receive.kick_speed), (12, Some(1234), Some(150)));
    let unplanned = apply_ai_command(
        CpCommand { kick_orient: Some(5), kick_speed: Some(5), ..base },
        AiCommand::RecPass,
        codes(),
        &vec![],
        1,
        &own,
    );
    assert_eq!((unplanned.kick_orient, unplanned.kick_speed), (None, None));
}

#[test]
fn ai_handler_respects_goalie_and_stops_at_unseen_robot() {
    let mut robots = vec![ai_robot(0), ai_robot(1), ai_robot(2), ai_robot(3)];
    let commands = vec![Some(AiCommand::Hold), Some(AiCommand::GoalWall), Some(AiCommand::KickGoal), Some(AiCommand::Hold)];
    let out = ai_handler(&mut robots, &commands, Some(0), &vec![0, 1, 2, 3], codes());
    assert_eq!(robots[0], ai_robot(0));
    assert_eq!(robots[1].cmd.state, 1);
    assert_eq!(robots[2].cmd.state, 1);
    assert_eq!(robots[3].cmd.speed, Some(0));
    assert_eq!(out.defenders, vec![1]);
    assert_eq!(out.shots, vec![2]);

    let mut robots = vec![ai_robot(0), ai_robot(1), ai_robot(2)];
    let out = ai_handler(&mut robots, &commands, Some(9), &vec![0, 2], codes());
    assert_eq!(robots[0].cmd.speed, Some(0));
    assert_eq!(robots[1], ai_robot(1));
    assert_eq!(robots[2], ai_robot(2));
    assert!(out.defenders.is_empty() && out.shots.is_empty());

    let mut robots = vec![ai_robot(0)];
    ai_handler(&mut robots, &commands, None, &vec![0], codes());
    assert_eq!(robots[0].cmd.state, 1);
    assert_eq!(robots[0].cmd.speed, Some(0));
}

#[test]
fn ai_handler_skips_robots_without_data() {
    let mut robots = vec![AiRobot { untouched: true, ..ai_robot(0) }, ai_robot(1)];
    let commands = vec![Some(AiCommand::Hold), Some(AiCommand::PassTo { receiver: 5, plan: None })];
    let out = ai_handler(&mut robots, &commands, Some(3), &vec![0, 1], codes());
    assert_eq!(robots[0], AiRobot { untouched: true, ..ai_robot(0) });
    assert_eq!(robots[1].cmd.task, 11);
    assert_eq!(out.shots, vec![1]);
}

use crashpilot::clock::{now_ms, now_unix_nanos};
use crashpilot::game_logic::mode_game::keeper_request;

#[test]
fn keeper_is_requested_once_per_change() {
    assert_eq!(keeper_request(Some(1), Some(2), None), Some(2));
    assert_eq!(keeper_request(Some(1), Some(2), Some(2)), None);
    assert_eq!(keeper_request(Some(2), Some(2), None), None);
    assert_eq!(keeper_request(None, Some(2), None), None);
    assert_eq!(keeper_request(Some(1), None, None), None);
    assert_eq!(keeper_request(Some(1), Some(3), Some(2)), Some(3));
}

#[test]
fn clock_reads_time_since_epoch() {
    let ms = now_ms();
    let ns = now_unix_nanos();
    assert!(ms > 1_600_000_000_000);
    let ns_ms = (ns / 1_000_000) as u64;
    assert!(ns_ms + 60_000 > ms && ns_ms < ms + 60_000);
}

use crashpilot::game_logic::mode_game::{mode_game, GameCodes, BALL_PLACEMENT_SPEED, TIMEOUT_SPEED};

fn game_codes() -> GameCodes {
    GameCodes { state_halt: 5, state_stop: 6, state_goalie: 7, task_pos: 8, task_pos_ball: 9 }
}

#[test]
fn mode_game_halts_stops_and_keeps_goalie() {
    let base = CpCommand { state: 1, task: 2, ..CpCommand::default() };
    let mut robots = vec![(0u32, base), (1u32, base)];
    let action = mode_game(&mut robots, GamePhase::Halted, None, Some(0), game_codes(), &vec![], None);
    assert_eq!(action, GameAction::HaltAll);
    assert_eq!((robots[0].1.state, robots[1].1.state), (5, 5));

    let mut robots = vec![(0u32, base), (1u32, base)];
    mode_game(&mut robots, GamePhase::Stopped, None, Some(0), game_codes(), &vec![], None);
    assert_eq!((robots[0].1.state, robots[1].1.state), (6, 6));

    let mut robots = vec![(0u32, base), (1u32, base)];
    let action = mode_game(
        &mut robots,
        GamePhase::Stopped,
        Some((PrepTaskStatus::Preparing, PrepPhase::DefensiveKickoff)),
        Some(1),
        game_codes(),
        &vec![],
        None,
    );
    assert_eq!(action, GameAction::PrepareRestart { offensive: false });
    assert_eq!((robots[0].1.state, robots[1].1.state), (6, 7));

    let mut robots = vec![(0u32, base), (1u32, base)];
    let action = mode_game(&mut robots, GamePhase::Running, None, Some(1), game_codes(), &vec![], None);
    assert_eq!(action, GameAction::RunAi);
    assert_eq!(robots[0].1, base);
    assert_eq!(robots[1].1.state, 7);
}

#[test]
fn mode_game_sends_robots_to_substitution_positions_in_timeout() {
    let base = CpCommand::default();
    let mut robots = vec![(3u32, base), (4u32, base)];
    let positions = vec![(4u32, CpVector2 { x: -4000, y: 3200 })];
    let action = mode_game(&mut robots, GamePhase::Timeout, None, None, game_codes(), &positions, None);
    assert_eq!(action, GameAction::TimeoutPositions);
    assert_eq!(robots[0].1.pos, Some(CpVector2 { x: 0, y: 0 }));
    assert_eq!(robots[1].1.pos, Some(CpVector2 { x: -4000, y: 3200 }));
    assert_eq!(robots[1].1.task, 8);
    assert_eq!(robots[1].1.speed, Some(TIMEOUT_SPEED));
}

#[test]
fn ai_handler_without_goalie_applies_commands_to_all() {
    let mut robots = vec![ai_robot(0), ai_robot(1)];
    let commands = vec![
        Some(AiCommand::Pos { pos: CpVector2 { x: 10, y: 20 }, speed: None, orientation: None }),
        Some(AiCommand::Hold),
    ];
    ai_handler(&mut robots, &commands, None, &vec![0, 1], codes());
    assert_eq!(robots[0].cmd.state, 1);
    assert_eq!(robots[0].cmd.task, 10);
    assert_eq!(robots[0].cmd.pos, Some(CpVector2 { x: 10, y: 20 }));
    assert_eq!(robots[0].cmd.speed, Some(4000));
    assert_eq!(robots[0].cmd.orientation, None);
    assert_eq!(robots[1].cmd.speed, Some(0));
}

#[test]
fn mode_game_sends_closest_robot_to_place_the_ball() {
    let base = CpCommand { state: 1, task: 2, ..CpCommand::default() };
    let mut robots = vec![(3u32, base), (4u32, base)];
    let target = CpVector2 { x: 1200, y: -300 };
    let action = mode_game(&mut robots, GamePhase::BallPlacement, None, Some(3), game_codes(), &vec![], Some((4, target)));
    assert_eq!(action, GameAction::PlaceBall);
    assert_eq!(robots[0].1, base);
    assert_eq!(robots[1].1, CpCommand { task: 9, speed: Some(BALL_PLACEMENT_SPEED), pos: Some(target), ..base });
    let mut robots = vec![(3u32, base)];
    mode_game(&mut robots, GamePhase::BallPlacement, None, None, game_codes(), &vec![], None);
    assert_eq!(robots[0].1, base);
}

use crashpilot::game_logic::mode_game::{
    apply_free_kick_step, apply_kickoff_step, goalie_possession, wall_defenders, GoalieAction,
};
use crashpilot::game_logic::mode_test::{test_command, TestCodes, DRIBBLER_SPEED, KICK_SPEED, TEST_SPEED};
use crashpilot::game_logic::types::{Command, Referee, WorldState};

fn test_codes() -> TestCodes {
    TestCodes {
        state_free: 1,
        state_halt: 2,
        state_goalie: 3,
        task_dribble: 4,
        task_pos_ball: 5,
        task_rec_kick: 6,
        task_pos: 7,
        task_kick: 8,
    }
}

#[test]
fn test_orders_become_commands() {
    let c = test_codes();
    let t = CpVector2 { x: 5, y: 6 };
    let cleared = CpCommand { state: 1, ..CpCommand::default() };
    assert_eq!(test_command(TestOrder::Free, c, 0), cleared);
    assert_eq!(test_command(TestOrder::Halt, c, 0), CpCommand { state: 2, speed: Some(0), ..cleared });
    assert_eq!(test_command(TestOrder::Dribble, c, 0), CpCommand { task: 4, speed: Some(DRIBBLER_SPEED), ..cleared });
    assert_eq!(test_command(TestOrder::PosBall(t), c, 0), CpCommand { task: 5, pos: Some(t), speed: Some(TEST_SPEED), ..cleared });
    assert_eq!(test_command(TestOrder::ReceiveKick(t), c, 0).task, 6);
    assert_eq!(test_command(TestOrder::Position(t), c, 0).task, 7);
    assert_eq!(
        test_command(TestOrder::Kick { from: t, to: t }, c, 1234),
        CpCommand { task: 8, kick_orient: Some(1234), kick_speed: Some(KICK_SPEED), ..cleared }
    );
    assert_eq!(test_command(TestOrder::ShootAtGoal { capped: true }, c, 0).speed, Some(400));
    assert_eq!(test_command(TestOrder::ShootAtGoal { capped: false }, c, 0).speed, None);
    assert_eq!(test_command(TestOrder::Goalie, c, 0), CpCommand { state: 3, ..cleared });
}

fn latched(command: Command) -> WorldState<(i32, i32)> {
    let mut state: WorldState<(i32, i32)> = WorldState::default();
    state.update((10, 20), Referee { command: command.wire_code(), command_counter: 1, command_timestamp: 1 }, crashpilot::game_logic::types::Team::Yellow, false);
    state
}

#[test]
fn kickoff_steps_update_restart_bookkeeping() {
    let mut state = latched(Command::DirectFreeYellow);
    apply_kickoff_step(&mut state, KickoffPlan::Pass(3), true);
    let task = state.prep_task.unwrap();
    assert_eq!(task.receiving_robot, Some(3));
    assert!(task.has_acted && state.has_acted);
    apply_kickoff_step(&mut state, KickoffPlan::HoldAndClear(3), false);
    assert!(state.prep_task.is_none());

    let mut state = latched(Command::DirectFreeYellow);
    apply_kickoff_step(&mut state, KickoffPlan::DirectKick, false);
    let task = state.prep_task.unwrap();
    assert!(task.has_acted && task.follow_up_acted);
    assert_eq!(task.ball_pos, (10, 20));
    apply_kickoff_step(&mut state, KickoffPlan::ClearTask, false);
    assert!(state.prep_task.is_none());
}

#[test]
fn free_kick_steps_update_restart_bookkeeping() {
    let mut state = latched(Command::DirectFreeYellow);
    apply_free_kick_step(&mut state, FreeKickPlan::Setup(4), false, (0, 0));
    assert_eq!(state.prep_task.unwrap().receiving_robot, Some(4));
    assert!(!state.has_acted);
    apply_free_kick_step(&mut state, FreeKickPlan::Pass(4), false, (0, 0));
    assert!(!state.has_acted);
    apply_free_kick_step(&mut state, FreeKickPlan::Pass(4), true, (0, 0));
    assert!(state.has_acted);
    apply_free_kick_step(&mut state, FreeKickPlan::HoldAndShoot(4), true, (70, 80));
    let task = state.prep_task.unwrap();
    assert!(task.follow_up_acted);
    assert_eq!(task.ball_pos, (70, 80));
}

#[test]
fn wall_defenders_are_sorted_known_and_without_goalie() {
    assert_eq!(wall_defenders(&vec![5, 2, 5, 1, 9], Some(1), &vec![1, 2, 5]), vec![2, 5]);
    assert_eq!(wall_defenders(&vec![], None, &vec![1]), Vec::<u8>::new());
    assert_eq!(wall_defenders(&vec![3, 0], None, &vec![0, 3]), vec![0, 3]);
}

#[test]
fn goalie_chips_to_farthest_teammate_or_shoots() {
    assert_eq!(goalie_possession(false, &vec![(2, 100)]), GoalieAction::Guard);
    assert_eq!(goalie_possession(true, &vec![]), GoalieAction::ShootAtGoal);
    assert_eq!(goalie_possession(true, &vec![(2, 100), (3, 900), (4, 900), (5, 10)]), GoalieAction::ChipTo(3));
}

use crashpilot::game_logic::ai_handler::planned_receive_kicks;

#[test]
fn planned_receive_kick_matches_pass_to_plan() {
    // Robot 0 passes to robot 1, which receives; both are seen. The pass plan
    // (direction and power, worked out from the robots' positions) travels
    // with the pass command.
    let pass_to_plan = PlannedPass { kick_orient: 1_571, kick_speed: 180 };
    let commands = vec![
        Some(AiCommand::PassTo { receiver: 1, plan: Some(pass_to_plan) }),
        Some(AiCommand::RecPass),
    ];
    let own: Vec<u8> = vec![0, 1];

    let receive_plan = planned_receive_kick(&planned_receive_kicks(&commands, &own), 1)
        .expect("receiver should inherit the pass plan");
    assert_eq!(receive_plan, pass_to_plan);

    let planned = planned_receive_kicks(&commands, &own);
    let passer = apply_ai_command(CpCommand::default(), commands[0].unwrap(), codes(), &planned, 0, &own);
    let receiver = apply_ai_command(CpCommand::default(), commands[1].unwrap(), codes(), &planned, 1, &own);
    assert_eq!(receiver.kick_orient, passer.kick_orient);
    assert_eq!(receiver.kick_speed, passer.kick_speed);
    assert_eq!(receiver.kick_speed, Some(180));
}
