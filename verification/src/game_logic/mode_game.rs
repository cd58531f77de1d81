use vstd::prelude::*;
use crate::data_handler::ball_data::CpVector2;
use crate::game_logic::mode_manual::CpCommand;
use crate::game_logic::types::{GamePhase, PrepPhase, PrepTaskStatus, WorldState};

verus! {

/// What game mode does with the team in one tick.
#[derive(Debug, Clone, Copy, PartialEq, Eq, Structural)]
pub enum GameAction {
    /// A restart is latched and still being set up: every robot stops, the
    /// goalie guards, and for our own restart the kicker moves behind the ball.
    PrepareRestart { offensive: bool },
    /// Our latched restart may be executed.
    ExecuteRestart { phase: PrepPhase },
    /// The opponent's latched restart may be executed: every robot stays stopped.
    StopForRestart,
    /// Every robot halts.
    HaltAll,
    /// Every robot stops.
    StopAll,
    /// The goalie guards and the AI commands the others.
    RunAi,
    /// Every robot drives to its substitution position.
    TimeoutPositions,
    /// The robot closest to the ball places it.
    PlaceBall,
}

/// The action for the game phase and the latched restart (status and phase),
/// if any. A latched restart takes precedence over the game phase.
pub open spec fn spec_game_action(phase: GamePhase, task: Option<(PrepTaskStatus, PrepPhase)>) -> GameAction {
    match task {
        Some((PrepTaskStatus::Preparing, prep)) => GameAction::PrepareRestart { offensive: prep.spec_is_offensive() },
        Some((PrepTaskStatus::Ready, prep)) => if prep.spec_is_offensive() {
            GameAction::ExecuteRestart { phase: prep }
        } else {
            GameAction::StopForRestart
        },
        None => match phase {
            GamePhase::Halted => GameAction::HaltAll,
            GamePhase::Unknown => GameAction::HaltAll,
            GamePhase::Stopped => GameAction::StopAll,
            GamePhase::Running => GameAction::RunAi,
            GamePhase::Timeout => GameAction::TimeoutPositions,
            GamePhase::BallPlacement => GameAction::PlaceBall,
        },
    }
}

/// The action of game mode for the game phase and the latched restart.
pub fn game_action(phase: GamePhase, task: Option<(PrepTaskStatus, PrepPhase)>) -> (r: GameAction)
    ensures
        r == spec_game_action(phase, task),
{
    match task {
        Some((status, prep)) => {
            match status {
                PrepTaskStatus::Preparing => GameAction::PrepareRestart { offensive: prep.is_offensive() },
                PrepTaskStatus::Ready => {
                    if prep.is_offensive() {
                        GameAction::ExecuteRestart { phase: prep }
                    } else {
                        GameAction::StopForRestart
                    }
                },
            }
        },
        None => match phase {
            GamePhase::Halted => GameAction::HaltAll,
            GamePhase::Unknown => GameAction::HaltAll,
            GamePhase::Stopped => GameAction::StopAll,
            GamePhase::Running => GameAction::RunAi,
            GamePhase::Timeout => GameAction::TimeoutPositions,
            GamePhase::BallPlacement => GameAction::PlaceBall,
        },
    }
}

/// While a restart is latched, game mode never hands the robots to the AI,
/// and the AI runs exactly in a running phase without a latched restart.
pub proof fn lemma_latched_restart_overrides_phase(phase: GamePhase, task: Option<(PrepTaskStatus, PrepPhase)>)
    ensures
        (spec_game_action(phase, task) == GameAction::RunAi) == (task is None && phase == GamePhase::Running),
        task is Some ==> spec_game_action(phase, task) != GameAction::HaltAll,
{
}

/// Game mode executes a ready restart exactly when it is ours (our kickoff,
/// penalty or free kick) and keeps every robot stopped for the opponent's;
/// while a restart is still being prepared, only our own restarts bring the
/// kicker behind the ball. A latched restart wins over any game phase.
pub proof fn lemma_ready_restart_executed_iff_ours(phase: GamePhase, prep: PrepPhase)
    ensures
        ({
            let ours = prep == PrepPhase::OffensiveKickoff || prep == PrepPhase::OffensivePenalty || prep
                == PrepPhase::OffensiveFreeKick;
            &&& spec_game_action(phase, Some((PrepTaskStatus::Ready, prep))) == if ours {
                GameAction::ExecuteRestart { phase: prep }
            } else {
                GameAction::StopForRestart
            }
            &&& spec_game_action(phase, Some((PrepTaskStatus::Preparing, prep)))
                == GameAction::PrepareRestart { offensive: ours }
        }),
{
}

/// Without a latched restart the action follows the game phase: halted (or
/// not yet known) halts every robot, stopped stops them, running hands them
/// to the AI, a timeout sends them to their substitution positions and our
/// ball placement places the ball.
pub proof fn lemma_unlatched_action_follows_phase(phase: GamePhase)
    ensures
        (spec_game_action(phase, None) == GameAction::HaltAll) <==> (phase == GamePhase::Halted || phase
            == GamePhase::Unknown),
        (spec_game_action(phase, None) == GameAction::StopAll) <==> phase == GamePhase::Stopped,
        (spec_game_action(phase, None) == GameAction::RunAi) <==> phase == GamePhase::Running,
        (spec_game_action(phase, None) == GameAction::TimeoutPositions) <==> phase == GamePhase::Timeout,
        (spec_game_action(phase, None) == GameAction::PlaceBall) <==> phase == GamePhase::BallPlacement,
{
}

/// How kickoff play goes on.
#[derive(Debug, Clone, Copy, PartialEq, Eq, Structural)]
pub enum KickoffPlan {
    /// The pass went out but no receiver is left: the restart is over.
    ClearTask,
    /// No receiver is available: the kicker kicks towards the goal, which
    /// ends the restart once the ball moves.
    DirectKick,
    /// The pass went out and the receiver can shoot: the kicker holds and the
    /// restart is over.
    HoldAndClear(u8),
    /// The pass went out: the kicker holds and the receiver receives.
    HoldAndReceive(u8),
    /// The kicker passes to the receiver.
    Pass(u8),
}

/// The next kickoff step: whether the kicker has passed, the receiver (if
/// one is available) and whether that receiver is ready to shoot.
pub fn kickoff_plan(has_acted: bool, receiver: Option<u8>, receiver_ready_to_shoot: bool) -> (r: KickoffPlan)
    ensures
        receiver is None ==> r == if has_acted {
            KickoffPlan::ClearTask
        } else {
            KickoffPlan::DirectKick
        },
        receiver matches Some(id) ==> r == if !has_acted {
            KickoffPlan::Pass(id)
        } else if receiver_ready_to_shoot {
            KickoffPlan::HoldAndClear(id)
        } else {
            KickoffPlan::HoldAndReceive(id)
        },
{
    match receiver {
        None => {
            if has_acted {
                KickoffPlan::ClearTask
            } else {
                KickoffPlan::DirectKick
            }
        },
        Some(id) => {
            if !has_acted {
                KickoffPlan::Pass(id)
            } else if receiver_ready_to_shoot {
                KickoffPlan::HoldAndClear(id)
            } else {
                KickoffPlan::HoldAndReceive(id)
            }
        },
    }
}

/// How free-kick play goes on.
#[derive(Debug, Clone, Copy, PartialEq, Eq, Structural)]
pub enum FreeKickPlan {
    /// No receiver is available: the kicker kicks towards the goal.
    DirectKick,
    /// The receiver's shot has gone out: the kicker holds, the receiver shoots.
    FollowUpShot(u8),
    /// The pass arrived: the kicker holds and the receiver shoots.
    HoldAndShoot(u8),
    /// The pass travels: the kicker holds and the receiver receives.
    HoldAndReceive(u8),
    /// Both are in place: the kicker passes.
    Pass(u8),
    /// The kicker still moves behind the ball while the receiver takes its spot.
    Setup(u8),
}

/// The next free-kick step from the receiver (if one is available), the
/// task's progress, and what the robots' positions say.
pub fn free_kick_plan(
    receiver: Option<u8>,
    follow_up_acted: bool,
    has_acted: bool,
    receiver_ready_to_shoot: bool,
    actor_in_place: bool,
    receiver_in_place: bool,
) -> (r: FreeKickPlan)
    ensures
        receiver is None ==> r == FreeKickPlan::DirectKick,
        receiver matches Some(id) ==> r == if follow_up_acted {
            FreeKickPlan::FollowUpShot(id)
        } else if has_acted {
            if receiver_ready_to_shoot {
                FreeKickPlan::HoldAndShoot(id)
            } else {
                FreeKickPlan::HoldAndReceive(id)
            }
        } else if actor_in_place && receiver_in_place {
            FreeKickPlan::Pass(id)
        } else {
            FreeKickPlan::Setup(id)
        },
{
    let id = match receiver {
        Some(id) => id,
        None => {
            return FreeKickPlan::DirectKick;
        },
    };
    if follow_up_acted {
        return FreeKickPlan::FollowUpShot(id);
    }
    if has_acted {
        if receiver_ready_to_shoot {
            return FreeKickPlan::HoldAndShoot(id);
        }
        return FreeKickPlan::HoldAndReceive(id);
    }
    if actor_in_place && receiver_in_place {
        FreeKickPlan::Pass(id)
    } else {
        FreeKickPlan::Setup(id)
    }
}

/// The goalkeeper to request from the game controller: the newly chosen
/// goalie, when one is known, it differs from the current goalie and it was
/// not requested last time (with no request yet, id 32, above every robot
/// id, stands for the last request); `None` when no request is due.
pub open spec fn spec_keeper_request(current: Option<u8>, chosen: Option<u8>, last_requested: Option<u8>) -> Option<
    u8,
> {
    let last: int = match last_requested {
        Some(l) => l as int,
        None => 32,
    };
    match (current, chosen) {
        (Some(c), Some(n)) => if c != n && n != last {
            Some(n)
        } else {
            None
        },
        _ => None,
    }
}

/// The goalkeeper to request from the game controller, if a request is due:
/// both the current and the newly chosen goalie are known, they differ, and
/// the chosen one was not the last one requested.
pub fn keeper_request(current: Option<u8>, chosen: Option<u8>, last_requested: Option<u8>) -> (r: Option<u8>)
    ensures
        r == spec_keeper_request(current, chosen, last_requested),
{
    match (current, chosen) {
        (Some(c), Some(n)) => {
            let last = match last_requested {
                Some(l) => l as u32,
                None => 32,
            };
            if c != n && n as u32 != last {
                Some(n)
            } else {
                None
            }
        },
        _ => None,
    }
}

/// A goalkeeper is requested once: after requesting it (and remembering it
/// as the last request), the same situation asks for no second request.
pub proof fn lemma_keeper_requested_once(current: Option<u8>, chosen: Option<u8>, last_requested: Option<u8>)
    requires
        spec_keeper_request(current, chosen, last_requested) is Some,
    ensures
        spec_keeper_request(current, chosen, spec_keeper_request(current, chosen, last_requested)) is None,
{
}

/// The numbers that the robot protocol gives to the states and the task
/// that game mode sets.
#[derive(Debug, Clone, Copy, PartialEq, Eq, Structural)]
pub struct GameCodes {
    pub state_halt: i32,
    pub state_stop: i32,
    pub state_goalie: i32,
    pub task_pos: i32,
    pub task_pos_ball: i32,
}

/// Drive speed of the robot that places the ball.
pub const BALL_PLACEMENT_SPEED: u32 = 1500;

/// Drive speed towards the substitution positions during a timeout.
pub const TIMEOUT_SPEED: u32 = 1500;

/// The substitution position configured for `id` (the first one listed), if any.
pub open spec fn substitution_of(positions: Seq<(u32, CpVector2)>, id: u32) -> Option<CpVector2>
    decreases positions.len(),
{
    if positions.len() == 0 {
        None
    } else if positions[0].0 == id {
        Some(positions[0].1)
    } else {
        substitution_of(positions.drop_first(), id)
    }
}

/// The command of robot `id` after game mode took `action`: halting or
/// stopping every robot, the goalie in goalie state while a restart is set up
/// or stopped for and while the AI plays, every robot driving to its
/// substitution position (or the origin) in a timeout, and in ball placement
/// the robot chosen to place the ball (`placement`: its id and the designated
/// position) taking the ball there; otherwise the command is left to the
/// restart and AI logic.
pub open spec fn spec_game_command(
    cmd: CpCommand,
    action: GameAction,
    id: u32,
    goalie: Option<u8>,
    codes: GameCodes,
    positions: Seq<(u32, CpVector2)>,
    placement: Option<(u32, CpVector2)>,
) -> CpCommand {
    let is_goalie = goalie matches Some(g) && id == g as u32;
    match action {
        GameAction::HaltAll => CpCommand { state: codes.state_halt, ..cmd },
        GameAction::StopAll => CpCommand { state: codes.state_stop, ..cmd },
        GameAction::PrepareRestart { .. } => CpCommand {
            state: if is_goalie {
                codes.state_goalie
            } else {
                codes.state_stop
            },
            ..cmd
        },
        GameAction::StopForRestart => CpCommand {
            state: if is_goalie {
                codes.state_goalie
            } else {
                codes.state_stop
            },
            ..cmd
        },
        GameAction::RunAi => if is_goalie {
            CpCommand { state: codes.state_goalie, ..cmd }
        } else {
            cmd
        },
        GameAction::TimeoutPositions => CpCommand {
            task: codes.task_pos,
            speed: Some(TIMEOUT_SPEED),
            pos: Some(
                match substitution_of(positions, id) {
                    Some(p) => p,
                    None => CpVector2 { x: 0, y: 0 },
                },
            ),
            ..cmd
        },
        GameAction::PlaceBall => match placement {
            Some((placer, target)) => if id == placer {
                CpCommand {
                    task: codes.task_pos_ball,
                    speed: Some(BALL_PLACEMENT_SPEED),
                    pos: Some(target),
                    ..cmd
                }
            } else {
                cmd
            },
            None => cmd,
        },
        _ => cmd,
    }
}

fn substitution_position(positions: &Vec<(u32, CpVector2)>, id: u32) -> (r: Option<CpVector2>)
    ensures
        r == substitution_of(positions@, id),
{
    let mut k: usize = 0;
    assert(positions@.skip(0) =~= positions@);
    while k < positions.len()
        invariant
            k <= positions@.len(),
            substitution_of(positions@, id) == substitution_of(positions@.skip(k as int), id),
        decreases positions@.len() - k,
    {
        proof {
            assert(positions@.skip(k as int).drop_first() =~= positions@.skip(k + 1));
        }
        if positions[k].0 == id {
            return Some(positions[k].1);
        }
        k = k + 1;
    }
    None
}

/// Game mode for one tick: decides the action from the game phase and the
/// latched restart (status and phase), and sets the robots' commands as far
/// as the action decides them for every robot (`robots` holds each robot's
/// id and command; `positions` the configured substitution positions;
/// `placement` the robot closest to the ball and the designated position, when
/// both are known). The action is returned for the restart and AI logic.
pub fn mode_game(
    robots: &mut Vec<(u32, CpCommand)>,
    phase: GamePhase,
    task: Option<(PrepTaskStatus, PrepPhase)>,
    goalie: Option<u8>,
    codes: GameCodes,
    positions: &Vec<(u32, CpVector2)>,
    placement: Option<(u32, CpVector2)>,
) -> (action: GameAction)
    ensures
        action == spec_game_action(phase, task),
        final(robots)@.len() == old(robots)@.len(),
        forall|i: int|
            #![trigger final(robots)@[i]]
            0 <= i < old(robots)@.len() ==> final(robots)@[i] == (
                old(robots)@[i].0,
                spec_game_command(
                    old(robots)@[i].1,
                    action,
                    old(robots)@[i].0,
                    goalie,
                    codes,
                    positions@,
                    placement,
                ),
            ),
{
    let action = game_action(phase, task);
    let ghost start = robots@;
    let mut i: usize = 0;
    while i < robots.len()
        invariant
            i <= robots@.len(),
            robots@.len() == start.len(),
            start == old(robots)@,
            action == spec_game_action(phase, task),
            forall|k: int| i <= k < start.len() ==> robots@[k] == start[k],
            forall|k: int|
                #![trigger robots@[k]]
                0 <= k < i ==> robots@[k] == (
                    start[k].0,
                    spec_game_command(start[k].1, action, start[k].0, goalie, codes, positions@, placement),
                ),
        decreases start.len() - i,
    {
        let (id, cmd) = robots[i];
        let is_goalie = match goalie {
            Some(g) => id == g as u32,
            None => false,
        };
        let updated = match action {
            GameAction::HaltAll => CpCommand { state: codes.state_halt, ..cmd },
            GameAction::StopAll => CpCommand { state: codes.state_stop, ..cmd },
            GameAction::PrepareRestart { .. } => CpCommand {
                state: if is_goalie {
                    codes.state_goalie
                } else {
                    codes.state_stop
                },
                ..cmd
            },
            GameAction::StopForRestart => CpCommand {
                state: if is_goalie {
                    codes.state_goalie
                } else {
                    codes.state_stop
                },
                ..cmd
            },
            GameAction::RunAi => if is_goalie {
                CpCommand { state: codes.state_goalie, ..cmd }
            } else {
                cmd
            },
            GameAction::TimeoutPositions => {
                let pos = match substitution_position(positions, id) {
                    Some(p) => p,
                    None => CpVector2 { x: 0, y: 0 },
                };
                CpCommand { task: codes.task_pos, speed: Some(TIMEOUT_SPEED), pos: Some(pos), ..cmd }
            },
            GameAction::PlaceBall => match placement {
                Some((placer, target)) => if id == placer {
                    CpCommand {
                        task: codes.task_pos_ball,
                        speed: Some(BALL_PLACEMENT_SPEED),
                        pos: Some(target),
                        ..cmd
                    }
                } else {
                    cmd
                },
                None => cmd,
            },
            _ => cmd,
        };
        robots.set(i, (id, updated));
        i = i + 1;
    }
    action
}

/// Whether game mode keeps the goalie in goalie state: while a restart is set
/// up, while the opponent's restart is ready, and while the AI plays.
pub open spec fn keeps_goalie(phase: GamePhase, task: Option<(PrepTaskStatus, PrepPhase)>) -> bool {
    match task {
        Some((PrepTaskStatus::Preparing, _)) => true,
        Some((PrepTaskStatus::Ready, prep)) => !prep.spec_is_offensive(),
        None => phase == GamePhase::Running,
    }
}

/// Halted and stopped phases halt or stop every robot (unless a restart is
/// latched); while a restart is latched and not ours to execute, and while the
/// AI plays, the goalie is kept in goalie state; in ball placement the chosen
/// robot takes the ball to the designated position.
pub proof fn lemma_phases_command_every_robot(
    cmd: CpCommand,
    phase: GamePhase,
    task: Option<(PrepTaskStatus, PrepPhase)>,
    id: u32,
    goalie: Option<u8>,
    codes: GameCodes,
    positions: Seq<(u32, CpVector2)>,
    placement: Option<(u32, CpVector2)>,
)
    ensures
        task is None && (phase == GamePhase::Halted || phase == GamePhase::Unknown) ==> spec_game_command(
            cmd,
            spec_game_action(phase, task),
            id,
            goalie,
            codes,
            positions,
            placement,
        ).state == codes.state_halt,
        task is None && phase == GamePhase::Stopped ==> spec_game_command(
            cmd,
            spec_game_action(phase, task),
            id,
            goalie,
            codes,
            positions,
            placement,
        ).state == codes.state_stop,
        goalie == Some(id as u8) && id < 256 && keeps_goalie(phase, task) ==> spec_game_command(
            cmd,
            spec_game_action(phase, task),
            id,
            goalie,
            codes,
            positions,
            placement,
        ).state == codes.state_goalie,
        task is None && phase == GamePhase::BallPlacement && placement == Some((id, placement.unwrap().1))
            ==> {
            let c = spec_game_command(cmd, spec_game_action(phase, task), id, goalie, codes, positions, placement);
            &&& c.task == codes.task_pos_ball
            &&& c.speed == Some(BALL_PLACEMENT_SPEED)
            &&& c.pos == Some(placement.unwrap().1)
        },
{
}

/// The restart bookkeeping after a kickoff step: without a receiver the
/// restart ends once the kicker has passed, or the kicker kicks directly and
/// the restart counts as executed with its follow-up done; with a receiver it
/// is recorded, a pass that went out (`pass_commanded`) counts as executed,
/// and a receiver ready to shoot ends the restart.
pub open spec fn spec_after_kickoff_step<P: Copy>(state: WorldState<P>, plan: KickoffPlan, pass_commanded: bool) -> WorldState<P> {
    match plan {
        KickoffPlan::ClearTask => state.spec_cleared(),
        KickoffPlan::DirectKick => state.spec_marked_acted().spec_marked_follow_up(state.spec_anchor()),
        KickoffPlan::HoldAndClear(id) => state.spec_marked_receiver(id).spec_cleared(),
        KickoffPlan::HoldAndReceive(id) => state.spec_marked_receiver(id),
        KickoffPlan::Pass(id) => if pass_commanded {
            state.spec_marked_receiver(id).spec_marked_acted()
        } else {
            state.spec_marked_receiver(id)
        },
    }
}

/// Records the outcome of a kickoff step in the restart bookkeeping.
pub fn apply_kickoff_step<P: Copy>(state: &mut WorldState<P>, plan: KickoffPlan, pass_commanded: bool)
    ensures
        *final(state) == spec_after_kickoff_step(*old(state), plan, pass_commanded),
        old(state).wf() ==> final(state).wf(),
{
    match plan {
        KickoffPlan::ClearTask => state.clear_prep_task(),
        KickoffPlan::DirectKick => {
            let anchor = match state.prep_task {
                Some(task) => task.ball_pos,
                None => state.ball_pos,
            };
            state.mark_prep_acted();
            state.mark_prep_follow_up_acted(anchor);
        },
        KickoffPlan::HoldAndClear(id) => {
            state.mark_prep_receiver(id);
            state.clear_prep_task();
        },
        KickoffPlan::HoldAndReceive(id) => state.mark_prep_receiver(id),
        KickoffPlan::Pass(id) => {
            state.mark_prep_receiver(id);
            if pass_commanded {
                state.mark_prep_acted();
            }
        },
    }
}

/// The restart bookkeeping after a free-kick step: without a receiver the
/// kicker kicks directly and the restart counts as executed with its
/// follow-up done; with a receiver it is recorded, a pass that went out
/// (`commanded`) counts as executed, and a receiver's shot that went out
/// (`commanded`) counts as the follow-up, anchored at the ball's position
/// `ball_pos`.
pub open spec fn spec_after_free_kick_step<P: Copy>(
    state: WorldState<P>,
    plan: FreeKickPlan,
    commanded: bool,
    ball_pos: P,
) -> WorldState<P> {
    match plan {
        FreeKickPlan::DirectKick => state.spec_marked_acted().spec_marked_follow_up(state.spec_anchor()),
        FreeKickPlan::FollowUpShot(id) => state.spec_marked_receiver(id),
        FreeKickPlan::HoldAndShoot(id) => if commanded {
            state.spec_marked_receiver(id).spec_marked_follow_up(ball_pos)
        } else {
            state.spec_marked_receiver(id)
        },
        FreeKickPlan::HoldAndReceive(id) => state.spec_marked_receiver(id),
        FreeKickPlan::Pass(id) => if commanded {
            state.spec_marked_receiver(id).spec_marked_acted()
        } else {
            state.spec_marked_receiver(id)
        },
        FreeKickPlan::Setup(id) => state.spec_marked_receiver(id),
    }
}

/// Records the outcome of a free-kick step in the restart bookkeeping.
pub fn apply_free_kick_step<P: Copy>(state: &mut WorldState<P>, plan: FreeKickPlan, commanded: bool, ball_pos: P)
    ensures
        *final(state) == spec_after_free_kick_step(*old(state), plan, commanded, ball_pos),
        old(state).wf() ==> final(state).wf(),
{
    match plan {
        FreeKickPlan::DirectKick => {
            let anchor = match state.prep_task {
                Some(task) => task.ball_pos,
                None => state.ball_pos,
            };
            state.mark_prep_acted();
            state.mark_prep_follow_up_acted(anchor);
        },
        FreeKickPlan::FollowUpShot(id) => state.mark_prep_receiver(id),
        FreeKickPlan::HoldAndShoot(id) => {
            state.mark_prep_receiver(id);
            if commanded {
                state.mark_prep_follow_up_acted(ball_pos);
            }
        },
        FreeKickPlan::HoldAndReceive(id) => state.mark_prep_receiver(id),
        FreeKickPlan::Pass(id) => {
            state.mark_prep_receiver(id);
            if commanded {
                state.mark_prep_acted();
            }
        },
        FreeKickPlan::Setup(id) => state.mark_prep_receiver(id),
    }
}

/// Whether a robot id joins the defensive wall: the AI chose it, it is not
/// the goalie, and a robot with that id is configured.
pub open spec fn joins_wall(defenders: Seq<u8>, goalie: Option<u8>, known: Seq<u32>, id: u8) -> bool {
    &&& defenders.contains(id)
    &&& goalie != Some(id)
    &&& known.contains(id as u32)
}

fn contains_id(known: &Vec<u32>, id: u32) -> (r: bool)
    ensures
        r == known@.contains(id),
{
    let mut k: usize = 0;
    while k < known.len()
        invariant
            k <= known@.len(),
            forall|j: int| 0 <= j < k ==> known@[j] != id,
        decreases known@.len() - k,
    {
        if known[k] == id {
            assert(known@[k as int] == id);
            return true;
        }
        k = k + 1;
    }
    false
}

/// The robots that form the defensive wall: the defenders the AI chose, in
/// increasing id order and each once, without the goalie and without robots
/// that are not configured (`known` holds the configured ids).
pub fn wall_defenders(defenders: &Vec<u8>, goalie: Option<u8>, known: &Vec<u32>) -> (r: Vec<u8>)
    ensures
        forall|a: int, b: int| 0 <= a < b < r@.len() ==> r@[a] < r@[b],
        forall|id: u8| r@.contains(id) <==> joins_wall(defenders@, goalie, known@, id),
{
    let mut out: Vec<u8> = Vec::new();
    let mut i: usize = 0;
    while i < defenders.len()
        invariant
            i <= defenders@.len(),
            forall|a: int, b: int| 0 <= a < b < out@.len() ==> out@[a] < out@[b],
            forall|id: u8| out@.contains(id) <==> joins_wall(defenders@.take(i as int), goalie, known@, id),
        decreases defenders@.len() - i,
    {
        let d = defenders[i];
        let ghost before = out@;
        proof {
            let t1 = defenders@.take(i + 1);
            let t0 = defenders@.take(i as int);
            assert forall|x: u8| t1.contains(x) <==> (t0.contains(x) || x == d) by {
                if t1.contains(x) {
                    let k = choose|k: int| 0 <= k < t1.len() && t1[k] == x;
                    if k < i {
                        assert(t0[k] == x);
                    }
                }
                if t0.contains(x) {
                    let k = choose|k: int| 0 <= k < t0.len() && t0[k] == x;
                    assert(t1[k] == x);
                }
                if x == d {
                    assert(t1[i as int] == x);
                }
            }
        }
        let not_goalie = match goalie {
            Some(g) => g != d,
            None => true,
        };
        if not_goalie && contains_id(known, d as u32) {
            let mut pos: usize = 0;
            while pos < out.len() && out[pos] < d
                invariant
                    pos <= out@.len(),
                    out@ == before,
                    forall|k: int| 0 <= k < pos ==> out@[k] < d,
                decreases out@.len() - pos,
            {
                pos = pos + 1;
            }
            if pos < out.len() && out[pos] == d {
                assert(before.contains(d));
            } else {
                proof {
                    assert forall|k: int| pos <= k < before.len() implies before[k] > d by {
                        assert(before[pos as int] > d);
                    }
                }
                out.insert(pos, d);
                proof {
                    let s2 = out@;
                    assert(s2 =~= before.insert(pos as int, d));
                    assert forall|a: int, b: int| 0 <= a < b < s2.len() implies s2[a] < s2[b] by {
                        if b < pos {
                        } else if a < pos && b == pos {
                        } else if a < pos {
                            assert(s2[b] == before[b - 1]);
                        } else if a == pos {
                            assert(s2[b] == before[b - 1]);
                        } else {
                            assert(s2[a] == before[a - 1] && s2[b] == before[b - 1]);
                        }
                    }
                    assert forall|x: u8| s2.contains(x) <==> (before.contains(x) || x == d) by {
                        if s2.contains(x) {
                            let k = choose|k: int| 0 <= k < s2.len() && s2[k] == x;
                            if k < pos {
                                assert(before[k] == x);
                            } else if k > pos {
                                assert(before[k - 1] == x);
                            }
                        }
                        if before.contains(x) {
                            let k = choose|k: int| 0 <= k < before.len() && before[k] == x;
                            if k < pos {
                                assert(s2[k] == x);
                            } else {
                                assert(s2[k + 1] == x);
                            }
                        }
                        if x == d {
                            assert(s2[pos as int] == x);
                        }
                    }
                }
            }
        }
        i = i + 1;
    }
    assert(defenders@.take(defenders@.len() as int) =~= defenders@);
    out
}

/// What the goalie does with the ball while the game runs.
#[derive(Debug, Clone, Copy, PartialEq, Eq, Structural)]
pub enum GoalieAction {
    /// The goalie does not hold the ball: it plays on as goalie.
    Guard,
    /// Chip the ball to this teammate.
    ChipTo(u8),
    /// No teammate to chip to: shoot at the goal.
    ShootAtGoal,
}

/// Whether `k` is the first teammate at the largest distance from the goalie.
pub open spec fn farthest_at(teammates: Seq<(u8, u64)>, k: int) -> bool {
    &&& 0 <= k < teammates.len()
    &&& forall|j: int| 0 <= j < teammates.len() ==> teammates[j].1 <= teammates[k].1
    &&& forall|j: int| 0 <= j < k ==> teammates[j].1 < teammates[k].1
}

/// The goalie's action when the game runs: holding the ball it chips to the
/// farthest teammate (`teammates` holds the teammates it can chip to with
/// their squared distances from the goalie; the first of equally far ones is
/// taken), and shoots at the goal when there is none.
pub fn goalie_possession(goalie_has_ball: bool, teammates: &Vec<(u8, u64)>) -> (r: GoalieAction)
    ensures
        !goalie_has_ball ==> r == GoalieAction::Guard,
        goalie_has_ball && teammates@.len() == 0 ==> r == GoalieAction::ShootAtGoal,
        goalie_has_ball && teammates@.len() > 0 ==> exists|k: int|
            farthest_at(teammates@, k) && r == GoalieAction::ChipTo(teammates@[k].0),
{
    if !goalie_has_ball {
        return GoalieAction::Guard;
    }
    if teammates.len() == 0 {
        return GoalieAction::ShootAtGoal;
    }
    let mut best: usize = 0;
    let mut i: usize = 1;
    while i < teammates.len()
        invariant
            1 <= i <= teammates@.len(),
            best < i,
            forall|j: int| 0 <= j < i ==> teammates@[j].1 <= teammates@[best as int].1,
            forall|j: int| 0 <= j < best ==> teammates@[j].1 < teammates@[best as int].1,
        decreases teammates@.len() - i,
    {
        if teammates[i].1 > teammates[best].1 {
            best = i;
        }
        i = i + 1;
    }
    assert(farthest_at(teammates@, best as int));
    GoalieAction::ChipTo(teammates[best].0)
}

} // verus!
