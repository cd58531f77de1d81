use vstd::prelude::*;
use crate::data_handler::ball_data::{
    convert_ball, generic_balls, raw_as_tracked, selected_ball, CpBall, CpVector2, InterfaceCommand, RawBall,
    TrackedBall, VisionBalls,
};
use crate::utils::FieldSetup;

verus! {

/// A robot of the tracking vision as the robot protocol carries it.
#[derive(Debug, Clone, Copy, PartialEq, Eq, Structural)]
pub struct CpTrackedRobot {
    pub robot_id: u32,
    pub pos: CpVector2,
    pub orientation: i32,
    pub vel: Option<CpVector2>,
    pub visibility: u32,
}

/// Game and field information sent to every robot.
#[derive(Debug, Clone, Copy, PartialEq, Eq, Structural)]
pub struct CpInfos {
    pub team_color: i32,
    pub team_site: i32,
    pub width: u32,
    pub height: u32,
    pub runoff_width: u32,
    pub penalty_area_width: u32,
    pub penalty_area_height: u32,
    pub goal_width: u32,
}

/// The vision part of the message sent to one robot.
#[derive(Debug)]
pub struct RobotMessage {
    pub packet_id: u32,
    pub robots_yellow: Vec<CpTrackedRobot>,
    pub robots_blue: Vec<CpTrackedRobot>,
    pub ball: CpBall,
    pub infos: CpInfos,
}

/// What the message assembly reads of a tracking vision frame: each robot
/// with its team code, and the balls.
pub struct TrackedFrame {
    pub robots: Vec<(Option<i32>, CpTrackedRobot)>,
    pub balls: Vec<TrackedBall>,
}

/// Whether some robot of `robots` has id `id`.
pub open spec fn has_robot_id(robots: Seq<CpTrackedRobot>, id: u32) -> bool {
    exists|k: int| 0 <= k < robots.len() && robots[k].robot_id == id
}

/// The robots of team `code` (`1` yellow, `2` blue) in the order seen, each
/// robot id only with its first occurrence.
pub open spec fn team_robots(seen: Seq<(Option<i32>, CpTrackedRobot)>, code: i32) -> Seq<CpTrackedRobot>
    decreases seen.len(),
{
    if seen.len() == 0 {
        Seq::empty()
    } else {
        let rest = team_robots(seen.drop_last(), code);
        let last = seen.last();
        if last.0 == Some(code) && !has_robot_id(rest, last.1.robot_id) {
            rest.push(last.1)
        } else {
            rest
        }
    }
}

/// Whether no robot id occurs twice in `robots`.
pub open spec fn ids_distinct(robots: Seq<CpTrackedRobot>) -> bool {
    forall|a: int, b: int| 0 <= a < b < robots.len() ==> robots[a].robot_id != robots[b].robot_id
}

/// The game and field information for the robots.
pub open spec fn spec_cp_infos(team_color: i32, team_site: i32, field: FieldSetup) -> CpInfos {
    CpInfos {
        team_color,
        team_site,
        width: field.width,
        height: field.height,
        runoff_width: field.run_off_width,
        penalty_area_width: field.penalty_width,
        penalty_area_height: field.penalty_height,
        goal_width: field.goal_width,
    }
}

/// The information sent to the robots carries the game and the field as
/// given: our colour and side, and the field's width, height, run-off
/// width, penalty area (width and height, in that order) and goal width.
pub proof fn lemma_infos_carry_field_as_given(team_color: i32, team_site: i32, field: FieldSetup)
    ensures
        ({
            let infos = spec_cp_infos(team_color, team_site, field);
            &&& infos.team_color == team_color
            &&& infos.team_site == team_site
            &&& infos.width == field.width
            &&& infos.height == field.height
            &&& infos.runoff_width == field.run_off_width
            &&& infos.penalty_area_width == field.penalty_width
            &&& infos.penalty_area_height == field.penalty_height
            &&& infos.goal_width == field.goal_width
        }),
{
}

/// The balls the message is built from: those of the tracking frame, or
/// those of the raw vision when the operator chose it.
pub open spec fn frame_balls(ball_tracked: bool, frame_balls: Seq<TrackedBall>, raw_balls: Seq<RawBall>) -> Seq<
    TrackedBall,
> {
    if ball_tracked {
        frame_balls
    } else {
        raw_balls.map_values(|b: RawBall| raw_as_tracked(b))
    }
}

fn contains_robot_id(robots: &Vec<CpTrackedRobot>, id: u32) -> (r: bool)
    ensures
        r == has_robot_id(robots@, id),
{
    let mut k: usize = 0;
    while k < robots.len()
        invariant
            k <= robots@.len(),
            forall|j: int| 0 <= j < k ==> robots@[j].robot_id != id,
        decreases robots@.len() - k,
    {
        if robots[k].robot_id == id {
            return true;
        }
        k = k + 1;
    }
    false
}

/// Splits the robots of a tracking frame into the yellow and the blue team, each in the
/// order seen and each robot id only once (its first occurrence); robots of
/// other or unknown teams are left out.
pub fn split_tracked_robots(seen: &Vec<(Option<i32>, CpTrackedRobot)>) -> (r: (
    Vec<CpTrackedRobot>,
    Vec<CpTrackedRobot>,
))
    ensures
        r.0@ == team_robots(seen@, 1),
        r.1@ == team_robots(seen@, 2),
        ids_distinct(r.0@),
        ids_distinct(r.1@),
{
    let mut yellow: Vec<CpTrackedRobot> = Vec::new();
    let mut blue: Vec<CpTrackedRobot> = Vec::new();
    let mut i: usize = 0;
    while i < seen.len()
        invariant
            i <= seen@.len(),
            yellow@ == team_robots(seen@.take(i as int), 1),
            blue@ == team_robots(seen@.take(i as int), 2),
            ids_distinct(yellow@),
            ids_distinct(blue@),
        decreases seen@.len() - i,
    {
        let (team, robot) = seen[i];
        proof {
            assert(seen@.take(i + 1).drop_last() =~= seen@.take(i as int));
            assert(seen@.take(i + 1).last() == seen@[i as int]);
        }
        if team == Some(1i32) && !contains_robot_id(&yellow, robot.robot_id) {
            yellow.push(robot);
        } else if team == Some(2i32) && !contains_robot_id(&blue, robot.robot_id) {
            blue.push(robot);
        }
        i = i + 1;
    }
    assert(seen@.take(seen@.len() as int) =~= seen@);
    (yellow, blue)
}

/// The game and field information for the robots.
pub fn cp_infos(team_color: i32, team_site: i32, field: &FieldSetup) -> (r: CpInfos)
    ensures
        r == spec_cp_infos(team_color, team_site, *field),
        r.team_color == team_color,
        r.team_site == team_site,
        r.width == field.width,
        r.height == field.height,
        r.runoff_width == field.run_off_width,
        r.penalty_area_width == field.penalty_width,
        r.penalty_area_height == field.penalty_height,
        r.goal_width == field.goal_width,
{
    CpInfos {
        team_color,
        team_site,
        width: field.width,
        height: field.height,
        runoff_width: field.run_off_width,
        penalty_area_width: field.penalty_width,
        penalty_area_height: field.penalty_height,
        goal_width: field.goal_width,
    }
}

/// Fills the vision part of every robot's message for one vision packet:
/// the packet id and the game and field information always; with a tracking
/// frame also both teams' robots and the ball (from the tracking or, when
/// `ball_tracked` is off, the raw vision). Without a tracking frame the robots
/// and the ball keep their previous values.
pub fn create_robot_data(
    robots: &mut Vec<(u32, RobotMessage)>,
    packet_id: u32,
    frame: Option<TrackedFrame>,
    raw_balls: Vec<RawBall>,
    ball_tracked: bool,
    interface_command: InterfaceCommand,
    team_color: i32,
    team_site: i32,
    field: &FieldSetup,
)
    requires
        frame matches Some(f) ==> (!interface_command.enable_testfield ==> frame_balls(
            ball_tracked,
            f.balls@,
            raw_balls@,
        ).len() > 0),
    ensures
        final(robots)@.len() == old(robots)@.len(),
        forall|i: int|
            #![trigger final(robots)@[i]]
            0 <= i < old(robots)@.len() ==> {
                let before = old(robots)@[i];
                let after = final(robots)@[i];
                &&& after.0 == before.0
                &&& after.1.packet_id == packet_id
                &&& after.1.infos == spec_cp_infos(team_color, team_site, *field)
                &&& match frame {
                    Some(f) => {
                        &&& after.1.robots_yellow@ == team_robots(f.robots@, 1)
                        &&& after.1.robots_blue@ == team_robots(f.robots@, 2)
                        &&& after.1.ball == selected_ball(
                            frame_balls(ball_tracked, f.balls@, raw_balls@),
                            interface_command,
                        )
                    },
                    None => {
                        &&& after.1.robots_yellow@ == before.1.robots_yellow@
                        &&& after.1.robots_blue@ == before.1.robots_blue@
                        &&& after.1.ball == before.1.ball
                    },
                }
            },
{
    let infos = cp_infos(team_color, team_site, field);
    let (tracked_robots, ball) = match frame {
        Some(f) => {
            let ghost frame_ball_seq = f.balls@;
            let balls = if ball_tracked {
                VisionBalls::Tracker(f.balls)
            } else {
                VisionBalls::Raw(raw_balls)
            };
            proof {
                assert(generic_balls(balls) == frame_balls(
                    ball_tracked,
                    frame_ball_seq,
                    raw_balls@,
                ));
            }
            (Some(f.robots), Some(convert_ball(balls, interface_command)))
        },
        None => (None, None),
    };
    let n = robots.len();
    let mut i: usize = 0;
    while i < n
        invariant
            n == old(robots)@.len(),
            robots@.len() == n,
            i <= n,
            infos == spec_cp_infos(team_color, team_site, *field),
            frame is None ==> tracked_robots is None && ball is None,
            frame matches Some(f) ==> tracked_robots == Some(f.robots) && ball == Some(
                selected_ball(frame_balls(ball_tracked, f.balls@, raw_balls@), interface_command),
            ),
            forall|k: int| i <= k < n ==> #[trigger] robots@[k] == old(robots)@[k],
            forall|k: int|
                #![trigger robots@[k]]
                0 <= k < i ==> {
                    let before = old(robots)@[k];
                    let after = robots@[k];
                    &&& after.0 == before.0
                    &&& after.1.packet_id == packet_id
                    &&& after.1.infos == infos
                    &&& match frame {
                        Some(f) => {
                            &&& after.1.robots_yellow@ == team_robots(f.robots@, 1)
                            &&& after.1.robots_blue@ == team_robots(f.robots@, 2)
                            &&& after.1.ball == selected_ball(
                                frame_balls(ball_tracked, f.balls@, raw_balls@),
                                interface_command,
                            )
                        },
                        None => {
                            &&& after.1.robots_yellow@ == before.1.robots_yellow@
                            &&& after.1.robots_blue@ == before.1.robots_blue@
                            &&& after.1.ball == before.1.ball
                        },
                    }
                },
        decreases n - i,
    {
        let (id, msg) = robots.remove(i);
        let ghost before = robots@;
        let updated = match (&tracked_robots, ball) {
            (Some(list), Some(b)) => {
                let (yellow, blue) = split_tracked_robots(list);
                RobotMessage { packet_id, robots_yellow: yellow, robots_blue: blue, ball: b, infos }
            },
            _ => RobotMessage {
                packet_id,
                robots_yellow: msg.robots_yellow,
                robots_blue: msg.robots_blue,
                ball: msg.ball,
                infos,
            },
        };
        robots.insert(i, (id, updated));
        proof {
            assert forall|k: int| 0 <= k < n && k != i implies #[trigger] robots@[k] == (if k < i {
                before[k]
            } else {
                before[k - 1]
            }) by {}
        }
        i = i + 1;
    }
}

} // verus!
