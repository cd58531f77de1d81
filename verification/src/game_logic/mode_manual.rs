use vstd::prelude::*;
use std::collections::HashMap;
use crate::data_handler::ball_data::CpVector2;

verus! {

broadcast use vstd::std_specs::hash::group_hash_axioms;

/// A robot command of the robot protocol.
#[derive(Debug, Clone, Copy, PartialEq, Eq, Structural)]
pub struct CpCommand {
    pub state: i32,
    pub task: i32,
    pub pos: Option<CpVector2>,
    pub speed: Option<u32>,
    pub orientation: Option<u32>,
    pub kick_orient: Option<u32>,
    pub kick_speed: Option<u32>,
    pub enemy_id: Option<u32>,
}

impl CpCommand {
    /// The command with every field zero or absent.
    pub open spec fn spec_empty() -> CpCommand {
        CpCommand {
            state: 0,
            task: 0,
            pos: None,
            speed: None,
            orientation: None,
            kick_orient: None,
            kick_speed: None,
            enemy_id: None,
        }
    }
}

impl Default for CpCommand {
    /// The command with every field zero or absent.
    fn default() -> (r: CpCommand)
        ensures
            r == CpCommand::spec_empty(),
    {
        CpCommand {
            state: 0,
            task: 0,
            pos: None,
            speed: None,
            orientation: None,
            kick_orient: None,
            kick_speed: None,
            enemy_id: None,
        }
    }
}

/// The command that manual mode sends to a robot: the operator's command for
/// it, or the empty command; while the operator lets the game controller
/// steer and the referee says halt (`0`) or stop (`1`), its state is the
/// referee's.
pub open spec fn spec_manual_command(
    operator: Option<CpCommand>,
    gc_enabled: bool,
    referee_command: i32,
) -> CpCommand {
    let base = match operator {
        Some(cmd) => cmd,
        None => CpCommand::spec_empty(),
    };
    if gc_enabled && (referee_command == 0 || referee_command == 1) {
        CpCommand { state: referee_command, ..base }
    } else {
        base
    }
}

/// Manual mode: every robot gets the command the operator gave it, with the
/// referee's halt or stop taking over while the operator lets the game
/// controller steer. `robot_commands` holds each robot's id and outgoing command.
pub fn mode_manual(
    robot_commands: &mut Vec<(u32, CpCommand)>,
    robots_ws_data: &HashMap<u32, CpCommand>,
    gc_enabled: bool,
    referee_command: i32,
)
    ensures
        final(robot_commands)@.len() == old(robot_commands)@.len(),
        forall|i: int|
            #![trigger final(robot_commands)@[i]]
            0 <= i < old(robot_commands)@.len() ==> final(robot_commands)@[i] == (
            old(robot_commands)@[i].0,
            spec_manual_command(
                if robots_ws_data@.contains_key(old(robot_commands)@[i].0) {
                    Some(robots_ws_data@[old(robot_commands)@[i].0])
                } else {
                    None
                },
                gc_enabled,
                referee_command,
            ),
        ),
{
    let ghost start = robot_commands@;
    let mut i: usize = 0;
    while i < robot_commands.len()
        invariant
            i <= robot_commands@.len(),
            robot_commands@.len() == start.len(),
            forall|k: int| i <= k < start.len() ==> robot_commands@[k] == start[k],
            forall|k: int|
                #![trigger robot_commands@[k]]
                0 <= k < i ==> robot_commands@[k] == (
                start[k].0,
                spec_manual_command(
                    if robots_ws_data@.contains_key(start[k].0) {
                        Some(robots_ws_data@[start[k].0])
                    } else {
                        None
                    },
                    gc_enabled,
                    referee_command,
                ),
            ),
        decreases start.len() - i,
    {
        let robot_id = robot_commands[i].0;
        let mut cmd = match robots_ws_data.get(&robot_id) {
            Some(cmd) => *cmd,
            None => CpCommand::default(),
        };
        if gc_enabled && (referee_command == 0 || referee_command == 1) {
            cmd.state = referee_command;
        }
        robot_commands.set(i, (robot_id, cmd));
        i = i + 1;
    }
}

} // verus!
