use vstd::prelude::*;
use crate::data_handler::ball_data::CpVector2;
use crate::game_logic::mode_manual::CpCommand;

verus! {

/// A pass as the kicker executes it: kick direction and kick power.
#[derive(Debug, Clone, Copy, PartialEq, Eq, Structural)]
pub struct PlannedPass {
    pub kick_orient: u32,
    pub kick_speed: u32,
}

/// The first pass planned towards `receiver_id` in `planned`, if any.
pub open spec fn first_planned(planned: Seq<(u8, PlannedPass)>, receiver_id: u8) -> Option<PlannedPass>
    decreases planned.len(),
{
    if planned.len() == 0 {
        None
    } else if planned[0].0 == receiver_id {
        Some(planned[0].1)
    } else {
        first_planned(planned.drop_first(), receiver_id)
    }
}

/// The first pass planned towards `receiver_id`, if any.
pub fn planned_receive_kick(planned: &Vec<(u8, PlannedPass)>, receiver_id: u8) -> (r: Option<PlannedPass>)
    ensures
        r == first_planned(planned@, receiver_id),
        r matches Some(plan) ==> exists|i: int|
            0 <= i < planned@.len() && planned@[i] == (receiver_id, plan) && forall|j: int|
                0 <= j < i ==> planned@[j].0 != receiver_id,
        (r is None) <==> forall|j: int| 0 <= j < planned@.len() ==> planned@[j].0 != receiver_id,
{
    let mut i: usize = 0;
    assert(planned@.skip(0) =~= planned@);
    while i < planned.len()
        invariant
            i <= planned@.len(),
            forall|j: int| 0 <= j < i ==> planned@[j].0 != receiver_id,
            first_planned(planned@, receiver_id) == first_planned(planned@.skip(i as int), receiver_id),
        decreases planned@.len() - i,
    {
        proof {
            assert(planned@.skip(i as int).drop_first() =~= planned@.skip(i + 1));
        }
        let (id, plan) = planned[i];
        if id == receiver_id {
            assert(planned@[i as int] == (receiver_id, plan));
            return Some(plan);
        }
        i = i + 1;
    }
    None
}

/// The numbers that the robot protocol gives to the robot states and tasks
/// that the AI commands use.
#[derive(Debug, Clone, Copy, PartialEq, Eq, Structural)]
pub struct CommandCodes {
    pub state_free: i32,
    pub state_goalie: i32,
    pub task_pos: i32,
    pub task_kick: i32,
    pub task_rec_kick: i32,
    pub task_steal: i32,
    pub task_dribble: i32,
    pub task_pos_ball: i32,
    pub task_block: i32,
}

/// A command of the AI for one robot. Positions and directions are already
/// in field millimetres and protocol angles.
#[derive(Debug, Clone, Copy, PartialEq, Eq, Structural)]
pub enum AiCommand {
    /// Drive to a position, optionally at a speed and facing an orientation.
    Pos { pos: CpVector2, speed: Option<u32>, orientation: Option<u32> },
    /// Kick in a direction.
    Kick(u32),
    /// Chip in a direction.
    Chip(u32),
    /// Receive a kick.
    RecKick,
    /// Steal the ball, facing it.
    Steal { orientation: u32 },
    /// Dribble the ball to a position, pushing it in a direction.
    Dribble { pos: CpVector2, orientation: u32 },
    /// Take the ball towards a position.
    PosBall { pos: CpVector2, orientation: u32 },
    Kickoff,
    FreeKick,
    /// Shoot at the goal.
    KickGoal,
    /// Pass to a teammate, with the pass planned for it (when both robots are seen).
    PassTo { receiver: u8, plan: Option<PlannedPass> },
    /// Receive a pass.
    RecPass,
    /// Join the defensive wall.
    GoalWall,
    /// Guard the goal as goalie.
    GoalieGuard,
    /// Stand still.
    Hold,
}

/// A robot that the AI's commands are applied to: its key in the robot
/// table, the robot id of its message, its command, and whether its data is
/// still the default (nothing was ever received or set).
#[derive(Debug, Clone, Copy, PartialEq, Eq, Structural)]
pub struct AiRobot {
    pub id: u32,
    pub robot_id: u32,
    pub cmd: CpCommand,
    pub untouched: bool,
}

/// What the AI's commands leave to the caller: robots joining the
/// defensive wall, and robots whose command is completed by a shot at the
/// goal, each in command order.
#[derive(Debug)]
pub struct AiOutcome {
    pub defenders: Vec<u8>,
    pub shots: Vec<u32>,
}

/// Whether the goalie may take this AI command.
pub open spec fn goalie_allows(command: AiCommand) -> bool {
    command is GoalieGuard || command is PassTo
}

/// Whether command `i` passes the goalie rule: there is a command, and it is
/// not for the known goalie unless it is one the goalie may take.
pub open spec fn passes_goalie_rule(commands: Seq<Option<AiCommand>>, goalie: Option<u8>, i: int) -> bool {
    &&& commands[i] is Some
    &&& (goalie is None || goalie.unwrap() != i as u8 || goalie_allows(commands[i].unwrap()))
}

/// Whether some robot has key `id`.
pub open spec fn has_robot(robots: Seq<AiRobot>, id: u32) -> bool {
    exists|k: int| 0 <= k < robots.len() && robots[k].id == id
}

/// The index of the robot with key `id`.
pub open spec fn robot_index(robots: Seq<AiRobot>, id: u32) -> int {
    choose|k: int| 0 <= k < robots.len() && robots[k].id == id
}

/// Whether applying command `i` ends the round: it passes the goalie rule,
/// its robot is known, but vision does not see that robot.
pub open spec fn stops_at(
    commands: Seq<Option<AiCommand>>,
    goalie: Option<u8>,
    robots: Seq<AiRobot>,
    own: Seq<u8>,
    i: int,
) -> bool {
    &&& 0 <= i < commands.len()
    &&& passes_goalie_rule(commands, goalie, i)
    &&& has_robot(robots, i as u32)
    &&& !own.contains(i as u8)
}

/// Whether command `i` is applied to its robot.
pub open spec fn applied(
    commands: Seq<Option<AiCommand>>,
    goalie: Option<u8>,
    robots: Seq<AiRobot>,
    own: Seq<u8>,
    i: int,
) -> bool {
    &&& 0 <= i < commands.len()
    &&& passes_goalie_rule(commands, goalie, i)
    &&& has_robot(robots, i as u32)
    &&& own.contains(i as u8)
    &&& forall|j: int| 0 <= j < i ==> !stops_at(commands, goalie, robots, own, j)
    &&& !robots[robot_index(robots, i as u32)].untouched
}

/// The passes planned by the first `n` commands: for each pass whose passer
/// and receiver are both seen and that has a plan, the receiver and the plan.
pub open spec fn planned_passes(commands: Seq<Option<AiCommand>>, own: Seq<u8>, n: int) -> Seq<
    (u8, PlannedPass),
>
    decreases n,
{
    if n <= 0 {
        Seq::empty()
    } else {
        let rest = planned_passes(commands, own, n - 1);
        match commands[n - 1] {
            Some(AiCommand::PassTo { receiver, plan: Some(p) }) => if own.contains((n - 1) as u8)
                && own.contains(receiver) {
                rest.push((receiver, p))
            } else {
                rest
            },
            _ => rest,
        }
    }
}

/// The command of a robot after the AI command `command` for robot `id`.
pub open spec fn spec_apply_ai_command(
    cmd: CpCommand,
    command: AiCommand,
    codes: CommandCodes,
    planned: Seq<(u8, PlannedPass)>,
    id: u8,
    own: Seq<u8>,
) -> CpCommand {
    let base = CpCommand { state: codes.state_free, ..cmd };
    match command {
        AiCommand::Pos { pos, speed, orientation } => CpCommand {
            task: codes.task_pos,
            pos: Some(pos),
            speed: Some(
                match speed {
                    Some(s) => s,
                    None => 4000,
                },
            ),
            orientation,
            ..base
        },
        AiCommand::Kick(orient) => CpCommand {
            task: codes.task_kick,
            kick_orient: Some(orient),
            kick_speed: Some(255),
            ..base
        },
        AiCommand::Chip(orient) => CpCommand {
            task: codes.task_kick,
            kick_orient: Some(orient),
            kick_speed: Some(200),
            ..base
        },
        AiCommand::RecKick => CpCommand { task: codes.task_rec_kick, ..base },
        AiCommand::Steal { orientation } => CpCommand {
            task: codes.task_steal,
            speed: Some(4000),
            orientation: Some(orientation),
            ..base
        },
        AiCommand::Dribble { pos, orientation } => CpCommand {
            task: codes.task_dribble,
            pos: Some(pos),
            speed: Some(2000),
            orientation: Some(orientation),
            ..base
        },
        AiCommand::PosBall { pos, orientation } => CpCommand {
            task: codes.task_pos_ball,
            pos: Some(pos),
            speed: Some(2000),
            orientation: Some(orientation),
            ..base
        },
        AiCommand::PassTo { receiver, plan } => {
            let kick = CpCommand { task: codes.task_kick, ..base };
            match plan {
                Some(p) => if own.contains(receiver) {
                    CpCommand { kick_orient: Some(p.kick_orient), kick_speed: Some(p.kick_speed), ..kick }
                } else {
                    kick
                },
                None => kick,
            }
        },
        AiCommand::RecPass => {
            let receive = CpCommand { task: codes.task_rec_kick, kick_orient: None, kick_speed: None, ..base };
            match first_planned(planned, id) {
                Some(p) => CpCommand {
                    kick_orient: Some(p.kick_orient),
                    kick_speed: Some(p.kick_speed),
                    ..receive
                },
                None => receive,
            }
        },
        AiCommand::GoalieGuard => CpCommand {
            state: codes.state_goalie,
            task: codes.task_block,
            enemy_id: None,
            speed: Some(4000),
            ..cmd
        },
        AiCommand::Hold => CpCommand { speed: Some(0), ..base },
        _ => base,
    }
}

/// Whether command `command` leaves a shot at the goal to the caller.
pub open spec fn shoots(command: AiCommand, own: Seq<u8>) -> bool {
    command is KickGoal || (command matches AiCommand::PassTo { receiver, .. } && !own.contains(receiver))
}

/// The robots joining the wall by the first `n` commands.
pub open spec fn defenders_upto(
    commands: Seq<Option<AiCommand>>,
    goalie: Option<u8>,
    robots: Seq<AiRobot>,
    own: Seq<u8>,
    n: int,
) -> Seq<u8>
    decreases n,
{
    if n <= 0 {
        Seq::empty()
    } else {
        let rest = defenders_upto(commands, goalie, robots, own, n - 1);
        let i = n - 1;
        if applied(commands, goalie, robots, own, i) && commands[i] == Some(AiCommand::GoalWall) {
            rest.push(robots[robot_index(robots, i as u32)].robot_id as u8)
        } else {
            rest
        }
    }
}

/// The robots left to shoot at the goal by the first `n` commands.
pub open spec fn shots_upto(
    commands: Seq<Option<AiCommand>>,
    goalie: Option<u8>,
    robots: Seq<AiRobot>,
    own: Seq<u8>,
    n: int,
) -> Seq<u32>
    decreases n,
{
    if n <= 0 {
        Seq::empty()
    } else {
        let rest = shots_upto(commands, goalie, robots, own, n - 1);
        let i = n - 1;
        if applied(commands, goalie, robots, own, i) && shoots(commands[i].unwrap(), own) {
            rest.push(i as u32)
        } else {
            rest
        }
    }
}

fn contains_u8(s: &Vec<u8>, x: u8) -> (r: bool)
    ensures
        r == s@.contains(x),
{
    let mut k: usize = 0;
    while k < s.len()
        invariant
            k <= s@.len(),
            forall|j: int| 0 <= j < k ==> s@[j] != x,
        decreases s@.len() - k,
    {
        if s[k] == x {
            assert(s@[k as int] == x);
            return true;
        }
        k = k + 1;
    }
    false
}

/// The passes planned by `commands`, in command order: for each pass whose
/// passer and receiver are both among `own` and that has a plan, the
/// receiver and the plan.
pub fn planned_receive_kicks(commands: &Vec<Option<AiCommand>>, own: &Vec<u8>) -> (r: Vec<(u8, PlannedPass)>)
    ensures
        r@ == planned_passes(commands@, own@, commands@.len() as int),
{
    let mut out: Vec<(u8, PlannedPass)> = Vec::new();
    let mut i: usize = 0;
    while i < commands.len()
        invariant
            i <= commands@.len(),
            out@ == planned_passes(commands@, own@, i as int),
        decreases commands@.len() - i,
    {
        match commands[i] {
            Some(AiCommand::PassTo { receiver, plan: Some(p) }) => {
                if contains_u8(own, i as u8) && contains_u8(own, receiver) {
                    out.push((receiver, p));
                }
            },
            _ => {},
        }
        i = i + 1;
    }
    out
}

/// The command after the AI command `command` for robot `id`.
pub fn apply_ai_command(
    cmd: CpCommand,
    command: AiCommand,
    codes: CommandCodes,
    planned: &Vec<(u8, PlannedPass)>,
    id: u8,
    own: &Vec<u8>,
) -> (r: CpCommand)
    ensures
        r == spec_apply_ai_command(cmd, command, codes, planned@, id, own@),
{
    let base = CpCommand { state: codes.state_free, ..cmd };
    match command {
        AiCommand::Pos { pos, speed, orientation } => CpCommand {
            task: codes.task_pos,
            pos: Some(pos),
            speed: Some(
                match speed {
                    Some(s) => s,
                    None => 4000,
                },
            ),
            orientation,
            ..base
        },
        AiCommand::Kick(orient) => CpCommand {
            task: codes.task_kick,
            kick_orient: Some(orient),
            kick_speed: Some(255),
            ..base
        },
        AiCommand::Chip(orient) => CpCommand {
            task: codes.task_kick,
            kick_orient: Some(orient),
            kick_speed: Some(200),
            ..base
        },
        AiCommand::RecKick => CpCommand { task: codes.task_rec_kick, ..base },
        AiCommand::Steal { orientation } => CpCommand {
            task: codes.task_steal,
            speed: Some(4000),
            orientation: Some(orientation),
            ..base
        },
        AiCommand::Dribble { pos, orientation } => CpCommand {
            task: codes.task_dribble,
            pos: Some(pos),
            speed: Some(2000),
            orientation: Some(orientation),
            ..base
        },
        AiCommand::PosBall { pos, orientation } => CpCommand {
            task: codes.task_pos_ball,
            pos: Some(pos),
            speed: Some(2000),
            orientation: Some(orientation),
            ..base
        },
        AiCommand::PassTo { receiver, plan } => {
            let kick = CpCommand { task: codes.task_kick, ..base };
            match plan {
                Some(p) => if contains_u8(own, receiver) {
                    CpCommand { kick_orient: Some(p.kick_orient), kick_speed: Some(p.kick_speed), ..kick }
                } else {
                    kick
                },
                None => kick,
            }
        },
        AiCommand::RecPass => {
            let receive = CpCommand { task: codes.task_rec_kick, kick_orient: None, kick_speed: None, ..base };
            match planned_receive_kick(planned, id) {
                Some(p) => CpCommand {
                    kick_orient: Some(p.kick_orient),
                    kick_speed: Some(p.kick_speed),
                    ..receive
                },
                None => receive,
            }
        },
        AiCommand::GoalieGuard => CpCommand {
            state: codes.state_goalie,
            task: codes.task_block,
            enemy_id: None,
            speed: Some(4000),
            ..cmd
        },
        AiCommand::Hold => CpCommand { speed: Some(0), ..base },
        _ => base,
    }
}

/// Whether the robot keys are distinct.
pub open spec fn keys_distinct(robots: Seq<AiRobot>) -> bool {
    forall|a: int, b: int| 0 <= a < b < robots.len() ==> robots[a].id != robots[b].id
}

proof fn lemma_robot_index(robots: Seq<AiRobot>, k: int)
    requires
        keys_distinct(robots),
        0 <= k < robots.len(),
    ensures
        has_robot(robots, robots[k].id),
        robot_index(robots, robots[k].id) == k,
{
    let id = robots[k].id;
    assert(0 <= k < robots.len() && robots[k].id == id);
    let c = robot_index(robots, id);
    if c < k {
        assert(robots[c].id != robots[k].id);
    } else if k < c {
        assert(robots[k].id != robots[c].id);
    }
}

proof fn lemma_nothing_after_stop(
    commands: Seq<Option<AiCommand>>,
    goalie: Option<u8>,
    robots: Seq<AiRobot>,
    own: Seq<u8>,
    stop: int,
    n: int,
)
    requires
        stops_at(commands, goalie, robots, own, stop),
        stop < n <= commands.len(),
    ensures
        defenders_upto(commands, goalie, robots, own, n) == defenders_upto(commands, goalie, robots, own, stop),
        shots_upto(commands, goalie, robots, own, n) == shots_upto(commands, goalie, robots, own, stop),
    decreases n,
{
    assert(!applied(commands, goalie, robots, own, n - 1));
    if n - 1 > stop {
        lemma_nothing_after_stop(commands, goalie, robots, own, stop, n - 1);
    }
}

fn find_robot(robots: &Vec<AiRobot>, id: u32) -> (r: Option<usize>)
    requires
        keys_distinct(robots@),
    ensures
        r is None <==> !has_robot(robots@, id),
        r matches Some(k) ==> k == robot_index(robots@, id) && k < robots@.len() && robots@[k as int].id == id,
{
    let mut k: usize = 0;
    while k < robots.len()
        invariant
            k <= robots@.len(),
            keys_distinct(robots@),
            forall|j: int| 0 <= j < k ==> robots@[j].id != id,
        decreases robots@.len() - k,
    {
        if robots[k].id == id {
            proof {
                lemma_robot_index(robots@, k as int);
            }
            return Some(k);
        }
        k = k + 1;
    }
    None
}

/// Applies the AI's commands, indexed by robot id, to the robots. A command
/// is applied to the known goalie only when it guards the goal or passes
/// (with no goalie known, every robot takes its command); robots without data are skipped, and the round
/// ends at the first command for a known robot that vision does not see
/// (`own` holds the ids of our robots seen). Every applied command sets the
/// robot free and then as the command says; the goal shots and wall members
/// are returned for the caller.
pub fn ai_handler(
    robots: &mut Vec<AiRobot>,
    commands: &Vec<Option<AiCommand>>,
    goalie: Option<u8>,
    own: &Vec<u8>,
    codes: CommandCodes,
) -> (r: AiOutcome)
    requires
        keys_distinct(old(robots)@),
        commands@.len() <= u32::MAX,
    ensures
        final(robots)@.len() == old(robots)@.len(),
        forall|k: int|
            #![trigger final(robots)@[k]]
            0 <= k < old(robots)@.len() ==> {
                let before = old(robots)@[k];
                let i = before.id as int;
                final(robots)@[k] == if applied(commands@, goalie, old(robots)@, own@, i) {
                    AiRobot {
                        cmd: spec_apply_ai_command(
                            before.cmd,
                            commands@[i].unwrap(),
                            codes,
                            planned_passes(commands@, own@, commands@.len() as int),
                            i as u8,
                            own@,
                        ),
                        ..before
                    }
                } else {
                    before
                }
            },
        r.defenders@ == defenders_upto(commands@, goalie, old(robots)@, own@, commands@.len() as int),
        r.shots@ == shots_upto(commands@, goalie, old(robots)@, own@, commands@.len() as int),
{
    let ghost start = robots@;
    let ghost n = commands@.len() as int;
    let planned = planned_receive_kicks(commands, own);
    let mut defenders: Vec<u8> = Vec::new();
    let mut shots: Vec<u32> = Vec::new();
    let mut i: usize = 0;
    while i < commands.len()
        invariant
            start == old(robots)@,
            keys_distinct(start),
            n == commands@.len(),
            n <= u32::MAX,
            i <= n,
            planned@ == planned_passes(commands@, own@, n),
            robots@.len() == start.len(),
            forall|k: int|
                0 <= k < start.len() ==> (#[trigger] robots@[k]).id == start[k].id && robots@[k].untouched
                    == start[k].untouched && robots@[k].robot_id == start[k].robot_id,
            keys_distinct(robots@),
            forall|j: int| 0 <= j < i ==> !stops_at(commands@, goalie, start, own@, j),
            defenders@ == defenders_upto(commands@, goalie, start, own@, i as int),
            shots@ == shots_upto(commands@, goalie, start, own@, i as int),
            forall|k: int|
                #![trigger robots@[k]]
                0 <= k < start.len() ==> robots@[k] == if start[k].id < i && applied(
                    commands@,
                    goalie,
                    start,
                    own@,
                    start[k].id as int,
                ) {
                    AiRobot {
                        cmd: spec_apply_ai_command(
                            start[k].cmd,
                            commands@[start[k].id as int].unwrap(),
                            codes,
                            planned@,
                            start[k].id as u8,
                            own@,
                        ),
                        ..start[k]
                    }
                } else {
                    start[k]
                },
        decreases n - i,
    {
        let ghost gi = i as int;
        let mut done = false;
        let mut stop = false;
        if let Some(command) = commands[i] {
            let allowed = match command {
                AiCommand::GoalieGuard => true,
                AiCommand::PassTo { .. } => true,
                _ => false,
            };
            let passes = match goalie {
                Some(g) => g != i as u8 || allowed,
                None => true,
            };
            {
                if passes {
                    match find_robot(robots, i as u32) {
                        None => {
                            proof {
                                if has_robot(start, i as u32) {
                                    let w = choose|w: int| 0 <= w < start.len() && start[w].id == i as u32;
                                    assert(robots@[w].id == i as u32);
                                }
                            }
                        },
                        Some(k) => {
                            proof {
                                assert(robots@[k as int].id == start[k as int].id);
                                lemma_robot_index(start, k as int);
                            }
                            if !contains_u8(own, i as u8) {
                                stop = true;
                            } else if !robots[k].untouched {
                                let robot = robots[k];
                                let cmd = apply_ai_command(robot.cmd, command, codes, &planned, i as u8, own);
                                robots.set(k, AiRobot { cmd, ..robot });
                                match command {
                                    AiCommand::GoalWall => {
                                        defenders.push(robot.robot_id as u8);
                                    },
                                    AiCommand::KickGoal => {
                                        shots.push(i as u32);
                                    },
                                    AiCommand::PassTo { receiver, .. } => {
                                        if !contains_u8(own, receiver) {
                                            shots.push(i as u32);
                                        }
                                    },
                                    _ => {},
                                }
                                done = true;
                            }
                        },
                    }
                }
            }
        }
        proof {
            if !done && !stop {
                assert(!applied(commands@, goalie, start, own@, gi));
            }
            if !stop {
                assert(!stops_at(commands@, goalie, start, own@, gi));
            }
        }
        if stop {
            proof {
                assert(stops_at(commands@, goalie, start, own@, gi));
                if gi + 1 <= n {
                    lemma_nothing_after_stop(commands@, goalie, start, own@, gi, n);
                }
                assert forall|k: int| 0 <= k < start.len() && start[k].id >= i implies !applied(
                    commands@,
                    goalie,
                    start,
                    own@,
                    start[k].id as int,
                ) by {
                    if start[k].id > i {
                        assert(stops_at(commands@, goalie, start, own@, gi));
                    }
                }
            }
            return AiOutcome { defenders, shots };
        }
        i = i + 1;
    }
    AiOutcome { defenders, shots }
}

/// A known goalie takes from the AI only goal guarding and passes.
pub proof fn lemma_goalie_only_guards_or_passes(
    commands: Seq<Option<AiCommand>>,
    goalie: Option<u8>,
    robots: Seq<AiRobot>,
    own: Seq<u8>,
    i: int,
)
    requires
        applied(commands, goalie, robots, own, i),
    ensures
        goalie == Some(i as u8) ==> goalie_allows(commands[i].unwrap()),
{
}

/// With no goalie known, the goalie rule excludes no command: every robot
/// with a command takes it.
pub proof fn lemma_no_goalie_excludes_nothing(commands: Seq<Option<AiCommand>>, i: int)
    ensures
        passes_goalie_rule(commands, None, i) == (commands[i] is Some),
{
}

/// The pass a receiver inherits is the first one planned towards it: if
/// entry `i` is the first planned towards `receiver_id`, its plan is the one
/// found; with none planned towards it, none is found.
pub proof fn lemma_receiver_inherits_first_planned_pass(planned: Seq<(u8, PlannedPass)>, receiver_id: u8, i: int)
    requires
        0 <= i < planned.len(),
        planned[i].0 == receiver_id,
        forall|j: int| 0 <= j < i ==> planned[j].0 != receiver_id,
    ensures
        first_planned(planned, receiver_id) == Some(planned[i].1),
    decreases i,
{
    if i > 0 {
        let rest = planned.drop_first();
        assert forall|j: int| 0 <= j < i - 1 implies rest[j].0 != receiver_id by {
            assert(rest[j] == planned[j + 1]);
        }
        lemma_receiver_inherits_first_planned_pass(rest, receiver_id, i - 1);
    }
}

/// With no pass planned towards `receiver_id`, it inherits none.
pub proof fn lemma_no_planned_pass_inherits_none(planned: Seq<(u8, PlannedPass)>, receiver_id: u8)
    requires
        forall|j: int| 0 <= j < planned.len() ==> planned[j].0 != receiver_id,
    ensures
        first_planned(planned, receiver_id) is None,
    decreases planned.len(),
{
    if planned.len() > 0 {
        let rest = planned.drop_first();
        assert forall|j: int| 0 <= j < rest.len() implies rest[j].0 != receiver_id by {
            assert(rest[j] == planned[j + 1]);
        }
        lemma_no_planned_pass_inherits_none(rest, receiver_id);
    }
}

/// Each AI command becomes the robot task that it names, the robot in the
/// free state: a position is the pos task (at 4000 unless a speed is given),
/// positioning with the ball the pos-ball task and dribbling the dribble
/// task (both at 2000, facing the given direction), kicks and chips the kick
/// task at power 255 and 200, passes the kick task, receiving a kick or a
/// pass the receive task, stealing the steal task at 4000, holding speed 0,
/// and guarding the goal the goalie state's block task at 4000. Commands
/// that the caller completes leave the robot's task as it was.
pub proof fn lemma_ai_command_becomes_its_task(
    cmd: CpCommand,
    command: AiCommand,
    codes: CommandCodes,
    planned: Seq<(u8, PlannedPass)>,
    id: u8,
    own: Seq<u8>,
)
    ensures
        ({
            let r = spec_apply_ai_command(cmd, command, codes, planned, id, own);
            &&& command !is GoalieGuard ==> r.state == codes.state_free
            &&& command matches AiCommand::Pos { pos, speed, orientation } ==> {
                &&& r.task == codes.task_pos
                &&& r.pos == Some(pos)
                &&& r.speed == Some(if speed is Some { speed->0 } else { 4000u32 })
                &&& r.orientation == orientation
            }
            &&& command matches AiCommand::PosBall { pos, orientation } ==> {
                &&& r.task == codes.task_pos_ball
                &&& r.pos == Some(pos)
                &&& r.speed == Some(2000u32)
                &&& r.orientation == Some(orientation)
            }
            &&& command matches AiCommand::Dribble { pos, orientation } ==> {
                &&& r.task == codes.task_dribble
                &&& r.pos == Some(pos)
                &&& r.speed == Some(2000u32)
                &&& r.orientation == Some(orientation)
            }
            &&& command matches AiCommand::Kick(orient) ==> {
                &&& r.task == codes.task_kick
                &&& r.kick_orient == Some(orient)
                &&& r.kick_speed == Some(255u32)
            }
            &&& command matches AiCommand::Chip(orient) ==> {
                &&& r.task == codes.task_kick
                &&& r.kick_orient == Some(orient)
                &&& r.kick_speed == Some(200u32)
            }
            &&& command is PassTo ==> r.task == codes.task_kick
            &&& command is RecKick ==> r.task == codes.task_rec_kick
            &&& command is RecPass ==> r.task == codes.task_rec_kick
            &&& command matches AiCommand::Steal { orientation } ==> {
                &&& r.task == codes.task_steal
                &&& r.speed == Some(4000u32)
                &&& r.orientation == Some(orientation)
            }
            &&& command is Hold ==> r.speed == Some(0u32) && r.task == cmd.task && r.pos == cmd.pos
            &&& command is GoalieGuard ==> {
                &&& r.state == codes.state_goalie
                &&& r.task == codes.task_block
                &&& r.enemy_id is None
                &&& r.speed == Some(4000u32)
            }
            &&& (command is Kickoff || command is FreeKick || command is KickGoal || command is GoalWall)
                ==> r == (CpCommand { state: codes.state_free, ..cmd })
        }),
{
}

/// A pass carries its plan to both ends: the passer kicks with the planned
/// direction and power when the receiver is one of ours, and a receiver
/// whose first planned pass is that plan prepares for exactly that kick; a
/// robot with no pass planned towards it, receiving, prepares for no
/// particular kick.
pub proof fn lemma_pass_plan_reaches_both_robots(
    cmd: CpCommand,
    codes: CommandCodes,
    planned: Seq<(u8, PlannedPass)>,
    passer: u8,
    receiver: u8,
    plan: PlannedPass,
    own: Seq<u8>,
    i: int,
)
    requires
        own.contains(receiver),
        0 <= i < planned.len(),
        planned[i] == (receiver, plan),
        forall|j: int| 0 <= j < i ==> planned[j].0 != receiver,
    ensures
        ({
            let kick = spec_apply_ai_command(
                cmd,
                AiCommand::PassTo { receiver, plan: Some(plan) },
                codes,
                planned,
                passer,
                own,
            );
            let receive = spec_apply_ai_command(cmd, AiCommand::RecPass, codes, planned, receiver, own);
            &&& kick.kick_orient == Some(plan.kick_orient)
            &&& kick.kick_speed == Some(plan.kick_speed)
            &&& receive.kick_orient == Some(plan.kick_orient)
            &&& receive.kick_speed == Some(plan.kick_speed)
        }),
        (forall|j: int| 0 <= j < planned.len() ==> planned[j].0 != passer) ==> ({
            let receive = spec_apply_ai_command(cmd, AiCommand::RecPass, codes, planned, passer, own);
            &&& receive.kick_orient is None
            &&& receive.kick_speed is None
        }),
{
    lemma_receiver_inherits_first_planned_pass(planned, receiver, i);
    if forall|j: int| 0 <= j < planned.len() ==> planned[j].0 != passer {
        lemma_no_planned_pass_inherits_none(planned, passer);
    }
}

} // verus!
