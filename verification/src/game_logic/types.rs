use vstd::prelude::*;

verus! {

/// Which team a robot plays for. Colours are the only distinction the logic needs.
#[derive(Clone, Copy, Debug, PartialEq, Eq, Structural)]
pub enum Team {
    Blue,
    Yellow,
}

impl Team {
    /// The other team.
    pub open spec fn spec_opponent(self) -> Team {
        match self {
            Team::Blue => Team::Yellow,
            Team::Yellow => Team::Blue,
        }
    }

    /// Maps the wire team code of the robot protocol (`1` yellow, `2` blue) to a team.
    pub open spec fn spec_from_cp_team(team: i32) -> Option<Team> {
        if team == 1 {
            Some(Team::Yellow)
        } else if team == 2 {
            Some(Team::Blue)
        } else {
            None
        }
    }

    /// The other team (the negation of a team).
    pub fn neg(self) -> (r: Team)
        ensures
            r == self.spec_opponent(),
    {
        match self {
            Team::Blue => Team::Yellow,
            Team::Yellow => Team::Blue,
        }
    }

    /// Maps the wire team code of the robot protocol to a team; other codes give `None`.
    pub fn from_cp_team(team: i32) -> (r: Option<Team>)
        ensures
            r == Team::spec_from_cp_team(team),
    {
        match team {
            1 => Some(Team::Yellow),
            2 => Some(Team::Blue),
            _ => None,
        }
    }
}

/// Coarse phase of the match as the controller acts on it.
#[derive(Debug, Clone, Copy, PartialEq, Eq, Structural)]
pub enum GamePhase {
    Unknown,
    Halted,
    Stopped,
    Running,
    Timeout,
    BallPlacement,
}

impl Default for GamePhase {
    fn default() -> (r: GamePhase)
        ensures
            r == GamePhase::Unknown,
    {
        GamePhase::Unknown
    }
}

/// Restart situation that the team prepares for, seen from our side.
#[derive(Debug, Clone, Copy, PartialEq, Eq, Structural)]
pub enum PrepPhase {
    Unknown,
    OffensiveKickoff,
    DefensiveKickoff,
    OffensivePenalty,
    DefensivePenalty,
    OffensiveFreeKick,
    DefensiveFreeKick,
}

impl Default for PrepPhase {
    fn default() -> (r: PrepPhase)
        ensures
            r == PrepPhase::Unknown,
    {
        PrepPhase::Unknown
    }
}

impl PrepPhase {
    /// Whether our team executes this restart.
    pub open spec fn spec_is_offensive(self) -> bool {
        ||| self == PrepPhase::OffensiveKickoff
        ||| self == PrepPhase::OffensivePenalty
        ||| self == PrepPhase::OffensiveFreeKick
    }

    /// Whether our team executes this restart.
    pub fn is_offensive(self) -> (r: bool)
        ensures
            r == self.spec_is_offensive(),
    {
        match self {
            PrepPhase::OffensiveKickoff => true,
            PrepPhase::OffensivePenalty => true,
            PrepPhase::OffensiveFreeKick => true,
            _ => false,
        }
    }
}

/// Whether a latched restart is still being set up or may be executed.
#[derive(Debug, Clone, Copy, PartialEq, Eq, Structural)]
pub enum PrepTaskStatus {
    Preparing,
    Ready,
}

impl Default for PrepTaskStatus {
    fn default() -> (r: PrepTaskStatus)
        ensures
            r == PrepTaskStatus::Preparing,
    {
        PrepTaskStatus::Preparing
    }
}

/// A restart latched from a referee command. `P` is the position type that the
/// caller uses for the ball; the task only carries it as the anchor from which
/// ball movement is measured.
#[derive(Debug, Clone, Copy)]
pub struct PrepTask<P> {
    pub phase: PrepPhase,
    pub status: PrepTaskStatus,
    pub command_counter: u32,
    pub command_timestamp: u64,
    pub ball_pos: P,
    pub acting_robot: Option<u8>,
    pub receiving_robot: Option<u8>,
    pub has_acted: bool,
    pub follow_up_acted: bool,
}

/// Referee commands of the SSL game controller, with their wire codes.
#[derive(Debug, Clone, Copy, PartialEq, Eq, Structural)]
pub enum Command {
    Halt,
    Stop,
    NormalStart,
    ForceStart,
    PrepareKickoffYellow,
    PrepareKickoffBlue,
    PreparePenaltyYellow,
    PreparePenaltyBlue,
    DirectFreeYellow,
    DirectFreeBlue,
    IndirectFreeYellow,
    IndirectFreeBlue,
    TimeoutYellow,
    TimeoutBlue,
    GoalYellow,
    GoalBlue,
    BallPlacementYellow,
    BallPlacementBlue,
}

impl Command {
    /// The command with the given wire code; unknown codes read as `Halt`.
    pub open spec fn spec_from_wire(code: i32) -> Command {
        if code == 1 {
            Command::Stop
        } else if code == 2 {
            Command::NormalStart
        } else if code == 3 {
            Command::ForceStart
        } else if code == 4 {
            Command::PrepareKickoffYellow
        } else if code == 5 {
            Command::PrepareKickoffBlue
        } else if code == 6 {
            Command::PreparePenaltyYellow
        } else if code == 7 {
            Command::PreparePenaltyBlue
        } else if code == 8 {
            Command::DirectFreeYellow
        } else if code == 9 {
            Command::DirectFreeBlue
        } else if code == 10 {
            Command::IndirectFreeYellow
        } else if code == 11 {
            Command::IndirectFreeBlue
        } else if code == 12 {
            Command::TimeoutYellow
        } else if code == 13 {
            Command::TimeoutBlue
        } else if code == 14 {
            Command::GoalYellow
        } else if code == 15 {
            Command::GoalBlue
        } else if code == 16 {
            Command::BallPlacementYellow
        } else if code == 17 {
            Command::BallPlacementBlue
        } else {
            Command::Halt
        }
    }

    /// The wire code of the command.
    pub open spec fn spec_wire_code(self) -> i32 {
        match self {
            Command::Halt => 0,
            Command::Stop => 1,
            Command::NormalStart => 2,
            Command::ForceStart => 3,
            Command::PrepareKickoffYellow => 4,
            Command::PrepareKickoffBlue => 5,
            Command::PreparePenaltyYellow => 6,
            Command::PreparePenaltyBlue => 7,
            Command::DirectFreeYellow => 8,
            Command::DirectFreeBlue => 9,
            Command::IndirectFreeYellow => 10,
            Command::IndirectFreeBlue => 11,
            Command::TimeoutYellow => 12,
            Command::TimeoutBlue => 13,
            Command::GoalYellow => 14,
            Command::GoalBlue => 15,
            Command::BallPlacementYellow => 16,
            Command::BallPlacementBlue => 17,
        }
    }

    /// Reads a wire code; codes outside the protocol read as `Halt`.
    pub fn from_wire(code: i32) -> (r: Command)
        ensures
            r == Command::spec_from_wire(code),
    {
        match code {
            1 => Command::Stop,
            2 => Command::NormalStart,
            3 => Command::ForceStart,
            4 => Command::PrepareKickoffYellow,
            5 => Command::PrepareKickoffBlue,
            6 => Command::PreparePenaltyYellow,
            7 => Command::PreparePenaltyBlue,
            8 => Command::DirectFreeYellow,
            9 => Command::DirectFreeBlue,
            10 => Command::IndirectFreeYellow,
            11 => Command::IndirectFreeBlue,
            12 => Command::TimeoutYellow,
            13 => Command::TimeoutBlue,
            14 => Command::GoalYellow,
            15 => Command::GoalBlue,
            16 => Command::BallPlacementYellow,
            17 => Command::BallPlacementBlue,
            _ => Command::Halt,
        }
    }

    /// The wire code of the command.
    pub fn wire_code(self) -> (r: i32)
        ensures
            r == self.spec_wire_code(),
            Command::spec_from_wire(r) == self,
    {
        match self {
            Command::Halt => 0,
            Command::Stop => 1,
            Command::NormalStart => 2,
            Command::ForceStart => 3,
            Command::PrepareKickoffYellow => 4,
            Command::PrepareKickoffBlue => 5,
            Command::PreparePenaltyYellow => 6,
            Command::PreparePenaltyBlue => 7,
            Command::DirectFreeYellow => 8,
            Command::DirectFreeBlue => 9,
            Command::IndirectFreeYellow => 10,
            Command::IndirectFreeBlue => 11,
            Command::TimeoutYellow => 12,
            Command::TimeoutBlue => 13,
            Command::GoalYellow => 14,
            Command::GoalBlue => 15,
            Command::BallPlacementYellow => 16,
            Command::BallPlacementBlue => 17,
        }
    }
}

/// What the logic reads of a referee packet: the command (as its wire code),
/// the command counter and the command timestamp.
#[derive(Debug, Clone, Copy, PartialEq, Eq, Structural)]
pub struct Referee {
    pub command: i32,
    pub command_counter: u32,
    pub command_timestamp: u64,
}

impl Default for Referee {
    fn default() -> (r: Referee)
        ensures
            r.command == 0,
            r.command_counter == 0,
            r.command_timestamp == 0,
    {
        Referee { command: 0, command_counter: 0, command_timestamp: 0 }
    }
}

impl Referee {
    /// The command of the packet; unknown codes read as `Halt`.
    pub open spec fn spec_command(self) -> Command {
        Command::spec_from_wire(self.command)
    }

    /// The command of the packet; unknown codes read as `Halt`.
    pub fn command(&self) -> (r: Command)
        ensures
            r == self.spec_command(),
    {
        Command::from_wire(self.command)
    }
}

/// The referee state machine's state.
#[derive(Debug, Copy, Clone, Eq, PartialEq, Structural)]
pub enum RefState {
    Halt,
    Stop,
    PrepareKickoff { attacking: Team },
    PreparePenalty { attacking: Team },
    BallPlacement { team: Team },
    DirectFree { attacking: Team },
    IndirectFree { attacking: Team },
    Running,
    Timeout,
}

impl Default for RefState {
    fn default() -> (r: RefState)
        ensures
            r == RefState::Halt,
    {
        RefState::Halt
    }
}

/// The state that a referee command puts the match into.
pub open spec fn ref_state_for(cmd: Command) -> RefState {
    match cmd {
        Command::Halt => RefState::Halt,
        Command::Stop => RefState::Stop,
        Command::PrepareKickoffBlue => RefState::PrepareKickoff { attacking: Team::Blue },
        Command::PrepareKickoffYellow => RefState::PrepareKickoff { attacking: Team::Yellow },
        Command::NormalStart => RefState::Running,
        Command::ForceStart => RefState::Running,
        Command::PreparePenaltyYellow => RefState::PreparePenalty { attacking: Team::Yellow },
        Command::PreparePenaltyBlue => RefState::PreparePenalty { attacking: Team::Blue },
        Command::DirectFreeYellow => RefState::DirectFree { attacking: Team::Yellow },
        Command::DirectFreeBlue => RefState::DirectFree { attacking: Team::Blue },
        Command::IndirectFreeYellow => RefState::IndirectFree { attacking: Team::Yellow },
        Command::IndirectFreeBlue => RefState::IndirectFree { attacking: Team::Blue },
        Command::TimeoutYellow => RefState::Timeout,
        Command::TimeoutBlue => RefState::Timeout,
        Command::GoalYellow => RefState::Halt,
        Command::GoalBlue => RefState::Halt,
        Command::BallPlacementYellow => RefState::BallPlacement { team: Team::Yellow },
        Command::BallPlacementBlue => RefState::BallPlacement { team: Team::Blue },
    }
}

/// Maps referee commands into a smaller internal state machine and remembers
/// the last command it took, so that a repeated packet is not taken twice.
#[derive(Debug, Clone, Copy)]
pub struct RefMachine {
    pub state: RefState,
    pub last_command: Option<Command>,
    pub last_command_counter: Option<u32>,
    pub last_command_timestamp: Option<u64>,
}

impl Default for RefMachine {
    fn default() -> (r: RefMachine)
        ensures
            r.state == RefState::Halt,
            (r.last_command is None),
            (r.last_command_counter is None),
            (r.last_command_timestamp is None),
    {
        RefMachine {
            state: RefState::Halt,
            last_command: None,
            last_command_counter: None,
            last_command_timestamp: None,
        }
    }
}

impl RefMachine {
    /// Whether `referee` carries a command that differs from the last one taken
    /// (in command, counter or timestamp).
    pub open spec fn spec_is_new_command(self, referee: Referee) -> bool {
        ||| self.last_command != Some(referee.spec_command())
        ||| self.last_command_counter != Some(referee.command_counter)
        ||| self.last_command_timestamp != Some(referee.command_timestamp)
    }

    /// The machine after it has seen `referee`.
    pub open spec fn spec_apply(self, referee: Referee) -> RefMachine {
        if self.spec_is_new_command(referee) {
            RefMachine {
                state: ref_state_for(referee.spec_command()),
                last_command: Some(referee.spec_command()),
                last_command_counter: Some(referee.command_counter),
                last_command_timestamp: Some(referee.command_timestamp),
            }
        } else {
            self
        }
    }

    /// Takes a referee packet. Returns whether its command is new; only a new
    /// command changes the machine.
    pub fn apply(&mut self, referee: &Referee) -> (is_new: bool)
        ensures
            is_new == old(self).spec_is_new_command(*referee),
            *final(self) == old(self).spec_apply(*referee),
    {
        let cmd = referee.command();
        let same_command = match self.last_command {
            Some(last) => last == cmd,
            None => false,
        };
        let same_counter = match self.last_command_counter {
            Some(last) => last == referee.command_counter,
            None => false,
        };
        let same_timestamp = match self.last_command_timestamp {
            Some(last) => last == referee.command_timestamp,
            None => false,
        };
        let is_new_command = !same_command || !same_counter || !same_timestamp;

        if !is_new_command {
            return false;
        }
        self.last_command = Some(cmd);
        self.last_command_counter = Some(referee.command_counter);
        self.last_command_timestamp = Some(referee.command_timestamp);

        self.state = match cmd {
            Command::Halt => RefState::Halt,
            Command::Stop => RefState::Stop,
            Command::PrepareKickoffBlue => RefState::PrepareKickoff { attacking: Team::Blue },
            Command::PrepareKickoffYellow => RefState::PrepareKickoff { attacking: Team::Yellow },
            Command::NormalStart => RefState::Running,
            Command::ForceStart => RefState::Running,
            Command::PreparePenaltyYellow => RefState::PreparePenalty { attacking: Team::Yellow },
            Command::PreparePenaltyBlue => RefState::PreparePenalty { attacking: Team::Blue },
            Command::DirectFreeYellow => RefState::DirectFree { attacking: Team::Yellow },
            Command::DirectFreeBlue => RefState::DirectFree { attacking: Team::Blue },
            Command::IndirectFreeYellow => RefState::IndirectFree { attacking: Team::Yellow },
            Command::IndirectFreeBlue => RefState::IndirectFree { attacking: Team::Blue },
            Command::TimeoutYellow => RefState::Timeout,
            Command::TimeoutBlue => RefState::Timeout,
            Command::GoalYellow => RefState::Halt,
            Command::GoalBlue => RefState::Halt,
            Command::BallPlacementYellow => RefState::BallPlacement { team: Team::Yellow },
            Command::BallPlacementBlue => RefState::BallPlacement { team: Team::Blue },
        };
        true
    }
}


/// Kind of restart, used to pick our perspective on it.
#[derive(Debug, Clone, Copy, PartialEq, Eq, Structural)]
pub enum RestartKind {
    Kickoff,
    Penalty,
    FreeKick,
}

/// Our perspective on a restart of `kind` that `attacking` executes.
pub open spec fn prep_phase_for(attacking: Team, team: Team, kind: RestartKind) -> PrepPhase {
    if attacking == team {
        match kind {
            RestartKind::Kickoff => PrepPhase::OffensiveKickoff,
            RestartKind::Penalty => PrepPhase::OffensivePenalty,
            RestartKind::FreeKick => PrepPhase::OffensiveFreeKick,
        }
    } else {
        match kind {
            RestartKind::Kickoff => PrepPhase::DefensiveKickoff,
            RestartKind::Penalty => PrepPhase::DefensivePenalty,
            RestartKind::FreeKick => PrepPhase::DefensiveFreeKick,
        }
    }
}

/// The game phase that a referee state means for `team`.
pub open spec fn phase_for(state: RefState, team: Team) -> GamePhase {
    match state {
        RefState::Halt => GamePhase::Halted,
        RefState::Stop => GamePhase::Stopped,
        RefState::PrepareKickoff { .. } => GamePhase::Stopped,
        RefState::PreparePenalty { .. } => GamePhase::Stopped,
        RefState::BallPlacement { team: placing } => if placing == team {
            GamePhase::BallPlacement
        } else {
            GamePhase::Halted
        },
        RefState::DirectFree { .. } => GamePhase::Stopped,
        RefState::IndirectFree { .. } => GamePhase::Stopped,
        RefState::Running => GamePhase::Running,
        RefState::Timeout => GamePhase::Timeout,
    }
}

/// Whether entering `state` latches a new restart task.
pub open spec fn latches_task(state: RefState) -> bool {
    match state {
        RefState::PrepareKickoff { .. } => true,
        RefState::PreparePenalty { .. } => true,
        RefState::DirectFree { .. } => true,
        RefState::IndirectFree { .. } => true,
        _ => false,
    }
}

/// Whether a task of `phase` stays alive while its pass travels: an offensive
/// kickoff or free kick that has passed but whose follow-up has not acted yet.
pub open spec fn pass_in_flight<P>(task: PrepTask<P>) -> bool {
    &&& (task.phase == PrepPhase::OffensiveKickoff || task.phase == PrepPhase::OffensiveFreeKick)
    &&& task.has_acted
    &&& !task.follow_up_acted
}

/// The part of the match state that the referee logic and the restart logic
/// keep. `P` is the caller's ball position type, carried as the anchor of a
/// latched restart.
pub struct WorldState<P> {
    pub ball_pos: P,
    pub referee: Referee,
    pub team: Team,
    pub goalie: Option<u8>,
    pub new_goalie: Option<u8>,
    pub defenders: Vec<u8>,
    pub acting_robot: Option<u8>,
    pub has_acted: bool,
    pub ref_machine: RefMachine,
    pub phase: GamePhase,
    pub prep_phase: PrepPhase,
    pub prep_task: Option<PrepTask<P>>,
}

impl<P: Copy> WorldState<P> {
    /// The restart bookkeeping mirrors the latched task: its phase, its acting
    /// robot and whether it has acted; with no task the restart phase is unknown.
    pub open spec fn wf(self) -> bool {
        match self.prep_task {
            Some(task) => {
                &&& self.prep_phase == task.phase
                &&& self.acting_robot == task.acting_robot
                &&& self.has_acted == task.has_acted
            },
            None => self.prep_phase == PrepPhase::Unknown,
        }
    }

    /// The state with a fresh task of `phase` and `status`, anchored at the
    /// current ball position and stamped with the current referee command.
    pub open spec fn spec_started(self, phase: PrepPhase, status: PrepTaskStatus) -> Self {
        WorldState {
            prep_phase: phase,
            acting_robot: None,
            has_acted: false,
            prep_task: Some(
                PrepTask {
                    phase,
                    status,
                    command_counter: self.referee.command_counter,
                    command_timestamp: self.referee.command_timestamp,
                    ball_pos: self.ball_pos,
                    acting_robot: None,
                    receiving_robot: None,
                    has_acted: false,
                    follow_up_acted: false,
                },
            ),
            ..self
        }
    }

    /// The state with `robot_id` recorded as the receiver of the restart pass.
    pub open spec fn spec_marked_receiver(self, robot_id: u8) -> Self {
        WorldState {
            prep_task: match self.prep_task {
                Some(task) => Some(PrepTask { receiving_robot: Some(robot_id), ..task }),
                None => None,
            },
            ..self
        }
    }

    /// The state with the restart recorded as executed.
    pub open spec fn spec_marked_acted(self) -> Self {
        WorldState {
            has_acted: true,
            prep_task: match self.prep_task {
                Some(task) => Some(PrepTask { has_acted: true, ..task }),
                None => None,
            },
            ..self
        }
    }

    /// The state with the restart's follow-up recorded as acted, ball
    /// movement anchored at `ball_pos`.
    pub open spec fn spec_marked_follow_up(self, ball_pos: P) -> Self {
        WorldState {
            prep_task: match self.prep_task {
                Some(task) => Some(PrepTask { follow_up_acted: true, ball_pos, ..task }),
                None => None,
            },
            ..self
        }
    }

    /// The ball position of the latched task's anchor (the current ball
    /// position when nothing is latched).
    pub open spec fn spec_anchor(self) -> P {
        match self.prep_task {
            Some(task) => task.ball_pos,
            None => self.ball_pos,
        }
    }

    /// The state with no latched task.
    pub open spec fn spec_cleared(self) -> Self {
        WorldState {
            prep_phase: PrepPhase::Unknown,
            prep_task: None,
            acting_robot: None,
            has_acted: false,
            ..self
        }
    }

    /// The restart bookkeeping after the referee machine entered a new state.
    pub open spec fn spec_after_prep_update(self) -> Self {
        match self.ref_machine.state {
            RefState::PrepareKickoff { attacking } => self.spec_started(
                prep_phase_for(attacking, self.team, RestartKind::Kickoff),
                PrepTaskStatus::Preparing,
            ),
            RefState::PreparePenalty { attacking } => self.spec_started(
                prep_phase_for(attacking, self.team, RestartKind::Penalty),
                PrepTaskStatus::Preparing,
            ),
            RefState::DirectFree { attacking } => self.spec_started(
                prep_phase_for(attacking, self.team, RestartKind::FreeKick),
                PrepTaskStatus::Ready,
            ),
            RefState::IndirectFree { attacking } => self.spec_started(
                prep_phase_for(attacking, self.team, RestartKind::FreeKick),
                PrepTaskStatus::Ready,
            ),
            RefState::Running => match self.prep_task {
                Some(task) => if task.status == PrepTaskStatus::Preparing {
                    WorldState {
                        prep_task: Some(PrepTask { status: PrepTaskStatus::Ready, ..task }),
                        ..self
                    }
                } else {
                    self
                },
                None => self,
            },
            _ => self.spec_cleared(),
        }
    }

    /// Drops a ready task once the ball has moved from its anchor, unless its
    /// pass is still in flight. `ball_moved` tells whether the ball lies at
    /// least 50 mm from the anchor of the latched task.
    pub open spec fn spec_after_finished_check(self, ball_moved: bool) -> Self {
        match self.prep_task {
            Some(task) => if task.status == PrepTaskStatus::Ready && !pass_in_flight(task)
                && ball_moved {
                self.spec_cleared()
            } else {
                self
            },
            None => self,
        }
    }

    /// The whole state update for the current referee packet. `ball_moved`
    /// tells whether the ball lies at least 50 mm from the anchor of the task
    /// latched before the update; a task latched by the update itself is
    /// anchored at the ball and so has not seen it move.
    pub open spec fn spec_after_states(self, ball_moved: bool) -> Self {
        let is_new = self.ref_machine.spec_is_new_command(self.referee);
        let applied = WorldState { ref_machine: self.ref_machine.spec_apply(self.referee), ..self };
        let prepped = if is_new {
            applied.spec_after_prep_update()
        } else {
            applied
        };
        let restarted = is_new && latches_task(applied.ref_machine.state);
        let phased = WorldState {
            goalie: self.new_goalie,
            phase: phase_for(applied.ref_machine.state, self.team),
            ..prepped
        };
        phased.spec_after_finished_check(ball_moved && !restarted)
    }
}


impl RefState {
    /// Whether entering this state latches a new restart task.
    pub fn latches_task(self) -> (r: bool)
        ensures
            r == latches_task(self),
    {
        match self {
            RefState::PrepareKickoff { .. } => true,
            RefState::PreparePenalty { .. } => true,
            RefState::DirectFree { .. } => true,
            RefState::IndirectFree { .. } => true,
            _ => false,
        }
    }
}

impl<P: Copy> WorldState<P> {
    /// Stores the data of a new control tick and updates the referee machine,
    /// the restart task and the game phase from it. `ball_moved` tells whether
    /// `ball_pos` lies at least 50 mm from the anchor of the task latched
    /// before this call.
    pub fn update(&mut self, ball_pos: P, referee: Referee, team: Team, ball_moved: bool)
        ensures
            *final(self) == (WorldState { ball_pos, referee, team, ..*old(self) }).spec_after_states(
                ball_moved,
            ),
            old(self).wf() ==> final(self).wf(),
    {
        self.ball_pos = ball_pos;
        self.referee = referee;
        self.team = team;
        self.update_states(ball_moved);
    }

    /// Updates the referee machine, the restart task, the goalie and the game
    /// phase from the stored referee packet. `ball_moved` tells whether the
    /// ball lies at least 50 mm from the anchor of the task latched before
    /// this call.
    pub fn update_states(&mut self, ball_moved: bool)
        ensures
            *final(self) == old(self).spec_after_states(ball_moved),
            old(self).wf() ==> final(self).wf(),
    {
        let referee = self.referee;
        let is_new_ref_command = self.ref_machine.apply(&referee);
        let restarted = is_new_ref_command && self.ref_machine.state.latches_task();
        if is_new_ref_command {
            self.update_prep_task();
        }
        self.goalie = self.new_goalie;
        self.phase = self.phase_for_state();
        self.clear_finished_prep_task(ball_moved && !restarted);
    }

    /// The game phase that the referee machine's state means for our team.
    fn phase_for_state(&self) -> (r: GamePhase)
        ensures
            r == phase_for(self.ref_machine.state, self.team),
    {
        match self.ref_machine.state {
            RefState::Halt => GamePhase::Halted,
            RefState::Stop => GamePhase::Stopped,
            RefState::PrepareKickoff { .. } => GamePhase::Stopped,
            RefState::PreparePenalty { .. } => GamePhase::Stopped,
            RefState::BallPlacement { team } => {
                if team == self.team {
                    GamePhase::BallPlacement
                } else {
                    GamePhase::Halted
                }
            },
            RefState::DirectFree { .. } => GamePhase::Stopped,
            RefState::IndirectFree { .. } => GamePhase::Stopped,
            RefState::Running => GamePhase::Running,
            RefState::Timeout => GamePhase::Timeout,
        }
    }

    fn update_prep_task(&mut self)
        ensures
            *final(self) == old(self).spec_after_prep_update(),
    {
        match self.ref_machine.state {
            RefState::PrepareKickoff { attacking } => {
                let phase = self.prep_phase_for(attacking, RestartKind::Kickoff);
                self.start_prep_task(phase, PrepTaskStatus::Preparing);
            },
            RefState::PreparePenalty { attacking } => {
                let phase = self.prep_phase_for(attacking, RestartKind::Penalty);
                self.start_prep_task(phase, PrepTaskStatus::Preparing);
            },
            RefState::DirectFree { attacking } => {
                let phase = self.prep_phase_for(attacking, RestartKind::FreeKick);
                self.start_prep_task(phase, PrepTaskStatus::Ready);
            },
            RefState::IndirectFree { attacking } => {
                let phase = self.prep_phase_for(attacking, RestartKind::FreeKick);
                self.start_prep_task(phase, PrepTaskStatus::Ready);
            },
            RefState::Running => {
                match self.prep_task {
                    Some(task) => {
                        if task.status == PrepTaskStatus::Preparing {
                            self.prep_task = Some(
                                PrepTask { status: PrepTaskStatus::Ready, ..task },
                            );
                        }
                    },
                    None => {},
                }
            },
            _ => {
                self.clear_prep_task();
            },
        }
    }

    fn start_prep_task(&mut self, phase: PrepPhase, status: PrepTaskStatus)
        ensures
            *final(self) == old(self).spec_started(phase, status),
    {
        self.prep_phase = phase;
        self.acting_robot = None;
        self.has_acted = false;
        self.prep_task = Some(
            PrepTask {
                phase,
                status,
                command_counter: self.referee.command_counter,
                command_timestamp: self.referee.command_timestamp,
                ball_pos: self.ball_pos,
                acting_robot: None,
                receiving_robot: None,
                has_acted: false,
                follow_up_acted: false,
            },
        );
    }

    /// Records which robot executes the latched restart.
    pub fn mark_prep_actor(&mut self, robot_id: u8)
        ensures
            *final(self) == (WorldState {
                acting_robot: Some(robot_id),
                prep_task: match old(self).prep_task {
                    Some(task) => Some(PrepTask { acting_robot: Some(robot_id), ..task }),
                    None => None,
                },
                ..*old(self)
            }),
            old(self).wf() ==> final(self).wf(),
    {
        self.acting_robot = Some(robot_id);
        match self.prep_task {
            Some(task) => {
                self.prep_task = Some(PrepTask { acting_robot: Some(robot_id), ..task });
            },
            None => {},
        }
    }

    /// Records which robot receives the restart pass.
    pub fn mark_prep_receiver(&mut self, robot_id: u8)
        ensures
            *final(self) == (WorldState {
                prep_task: match old(self).prep_task {
                    Some(task) => Some(PrepTask { receiving_robot: Some(robot_id), ..task }),
                    None => None,
                },
                ..*old(self)
            }),
            old(self).wf() ==> final(self).wf(),
    {
        match self.prep_task {
            Some(task) => {
                self.prep_task = Some(PrepTask { receiving_robot: Some(robot_id), ..task });
            },
            None => {},
        }
    }

    /// Records that the restart has been executed.
    pub fn mark_prep_acted(&mut self)
        ensures
            *final(self) == (WorldState {
                has_acted: true,
                prep_task: match old(self).prep_task {
                    Some(task) => Some(PrepTask { has_acted: true, ..task }),
                    None => None,
                },
                ..*old(self)
            }),
            old(self).wf() ==> final(self).wf(),
    {
        self.has_acted = true;
        match self.prep_task {
            Some(task) => {
                self.prep_task = Some(PrepTask { has_acted: true, ..task });
            },
            None => {},
        }
    }

    /// Records that the follow-up of the restart (the receiver's shot) has
    /// acted, and re-anchors ball movement at `ball_pos`.
    pub fn mark_prep_follow_up_acted(&mut self, ball_pos: P)
        ensures
            *final(self) == (WorldState {
                prep_task: match old(self).prep_task {
                    Some(task) => Some(PrepTask { follow_up_acted: true, ball_pos, ..task }),
                    None => None,
                },
                ..*old(self)
            }),
            old(self).wf() ==> final(self).wf(),
    {
        match self.prep_task {
            Some(task) => {
                self.prep_task = Some(PrepTask { follow_up_acted: true, ball_pos, ..task });
            },
            None => {},
        }
    }

    /// Drops the latched restart.
    pub fn clear_prep_task(&mut self)
        ensures
            *final(self) == old(self).spec_cleared(),
            final(self).wf(),
    {
        self.prep_phase = PrepPhase::Unknown;
        self.prep_task = None;
        self.acting_robot = None;
        self.has_acted = false;
    }

    fn clear_finished_prep_task(&mut self, ball_moved: bool)
        ensures
            *final(self) == old(self).spec_after_finished_check(ball_moved),
    {
        let task = match self.prep_task {
            Some(task) => task,
            None => {
                return;
            },
        };
        if task.status != PrepTaskStatus::Ready {
            return;
        }
        let in_flight = (task.phase == PrepPhase::OffensiveKickoff || task.phase
            == PrepPhase::OffensiveFreeKick) && task.has_acted && !task.follow_up_acted;
        if in_flight {
            return;
        }
        if ball_moved {
            self.clear_prep_task();
        }
    }

    fn prep_phase_for(&self, attacking: Team, kind: RestartKind) -> (r: PrepPhase)
        ensures
            r == prep_phase_for(attacking, self.team, kind),
    {
        let ours = attacking == self.team;
        match (ours, kind) {
            (true, RestartKind::Kickoff) => PrepPhase::OffensiveKickoff,
            (false, RestartKind::Kickoff) => PrepPhase::DefensiveKickoff,
            (true, RestartKind::Penalty) => PrepPhase::OffensivePenalty,
            (false, RestartKind::Penalty) => PrepPhase::DefensivePenalty,
            (true, RestartKind::FreeKick) => PrepPhase::OffensiveFreeKick,
            (false, RestartKind::FreeKick) => PrepPhase::DefensiveFreeKick,
        }
    }
}

impl<P: Copy + Default> Default for WorldState<P> {
    /// A yellow team with nothing latched and the referee machine halted.
    fn default() -> (r: WorldState<P>)
        ensures
            r.referee.command == 0,
            r.referee.command_counter == 0,
            r.referee.command_timestamp == 0,
            r.team == Team::Yellow,
            (r.goalie is None),
            (r.new_goalie is None),
            r.defenders@.len() == 0,
            (r.acting_robot is None),
            !r.has_acted,
            r.ref_machine == (RefMachine {
                state: RefState::Halt,
                last_command: None,
                last_command_counter: None,
                last_command_timestamp: None,
            }),
            r.phase == GamePhase::Unknown,
            r.prep_phase == PrepPhase::Unknown,
            (r.prep_task is None),
            r.wf(),
    {
        WorldState {
            ball_pos: P::default(),
            referee: Referee::default(),
            team: Team::Yellow,
            goalie: None,
            new_goalie: None,
            defenders: Vec::new(),
            acting_robot: None,
            has_acted: false,
            ref_machine: RefMachine::default(),
            phase: GamePhase::default(),
            prep_phase: PrepPhase::default(),
            prep_task: None,
        }
    }
}


impl RefMachine {
    /// The machine's state is the one of the last command it took.
    pub open spec fn consistent(self) -> bool {
        match self.last_command {
            Some(cmd) => self.state == ref_state_for(cmd),
            None => true,
        }
    }
}

/// A referee packet is taken at most once: after the machine has seen it, the
/// same packet again is no new command and leaves the machine as it is.
pub proof fn lemma_repeated_referee_packet_is_ignored(machine: RefMachine, referee: Referee)
    ensures
        !machine.spec_apply(referee).spec_is_new_command(referee),
        machine.spec_apply(referee).spec_apply(referee) == machine.spec_apply(referee),
{
}

/// Whatever packet arrives, a consistent machine stays consistent and ends in
/// the state that the packet's command maps to.
pub proof fn lemma_machine_follows_packet_command(machine: RefMachine, referee: Referee)
    requires
        machine.consistent(),
    ensures
        machine.spec_apply(referee).consistent(),
        machine.spec_apply(referee).state == ref_state_for(referee.spec_command()),
{
}

/// A new kickoff or penalty command latches a task that is still preparing,
/// seen from our side of the restart and anchored at the ball; the team stops.
pub proof fn lemma_prepare_command_latches_preparing_task<P: Copy>(
    state: WorldState<P>,
    ball_moved: bool,
    attacking: Team,
)
    requires
        state.ref_machine.spec_is_new_command(state.referee),
        ref_state_for(state.referee.spec_command()) == (RefState::PrepareKickoff { attacking })
            || ref_state_for(state.referee.spec_command()) == (RefState::PreparePenalty {
            attacking,
        }),
    ensures
        ({
            let next = state.spec_after_states(ball_moved);
            let kind = if ref_state_for(state.referee.spec_command()) == (RefState::PrepareKickoff {
                attacking,
            }) {
                RestartKind::Kickoff
            } else {
                RestartKind::Penalty
            };
            &&& next.prep_task is Some
            &&& next.prep_task->0.phase == prep_phase_for(attacking, state.team, kind)
            &&& next.prep_task->0.status == PrepTaskStatus::Preparing
            &&& next.prep_task->0.ball_pos == state.ball_pos
            &&& next.prep_phase == next.prep_task->0.phase
            &&& next.phase == GamePhase::Stopped
        }),
{
}

/// A new direct or indirect free kick latches a task that is ready at once,
/// seen from our side of the restart; the team stops.
pub proof fn lemma_free_kick_latches_ready_task<P: Copy>(
    state: WorldState<P>,
    ball_moved: bool,
    attacking: Team,
)
    requires
        state.ref_machine.spec_is_new_command(state.referee),
        ref_state_for(state.referee.spec_command()) == (RefState::DirectFree { attacking })
            || ref_state_for(state.referee.spec_command()) == (RefState::IndirectFree {
            attacking,
        }),
    ensures
        ({
            let next = state.spec_after_states(ball_moved);
            &&& next.prep_task is Some
            &&& next.prep_task->0.phase == prep_phase_for(
                attacking,
                state.team,
                RestartKind::FreeKick,
            )
            &&& next.prep_task->0.status == PrepTaskStatus::Ready
            &&& next.prep_task->0.ball_pos == state.ball_pos
            &&& next.phase == GamePhase::Stopped
        }),
{
}

/// A start command (normal or forced) does not drop a latched restart while
/// the ball has not moved: the task keeps its phase and becomes ready, and the
/// team runs.
pub proof fn lemma_start_keeps_latched_task<P: Copy>(state: WorldState<P>)
    requires
        state.ref_machine.spec_is_new_command(state.referee),
        ref_state_for(state.referee.spec_command()) == RefState::Running,
        state.prep_task is Some,
    ensures
        ({
            let next = state.spec_after_states(false);
            &&& next.prep_task is Some
            &&& next.prep_task->0.phase == state.prep_task->0.phase
            &&& next.prep_task->0.status == PrepTaskStatus::Ready
            &&& next.phase == GamePhase::Running
        }),
{
}

/// Halt, stop, timeout, goal and ball placement commands drop any latched
/// restart.
pub proof fn lemma_reset_command_clears_task<P: Copy>(state: WorldState<P>, ball_moved: bool)
    requires
        state.ref_machine.spec_is_new_command(state.referee),
        !latches_task(ref_state_for(state.referee.spec_command())),
        ref_state_for(state.referee.spec_command()) != RefState::Running,
    ensures
        state.spec_after_states(ball_moved).prep_task is None,
        state.spec_after_states(ball_moved).prep_phase == PrepPhase::Unknown,
{
}

/// While the pass of an offensive kickoff or free kick travels, the task
/// survives ball movement as long as no new command arrives.
pub proof fn lemma_pass_in_flight_survives_ball_movement<P: Copy>(
    state: WorldState<P>,
    ball_moved: bool,
)
    requires
        !state.ref_machine.spec_is_new_command(state.referee),
        state.prep_task is Some,
        pass_in_flight(state.prep_task->0),
    ensures
        state.spec_after_states(ball_moved).prep_task == state.prep_task,
{
}

/// A ready task whose pass is not in flight is dropped once the ball has
/// moved, and kept while it has not.
pub proof fn lemma_ready_task_clears_after_ball_moves<P: Copy>(
    state: WorldState<P>,
    ball_moved: bool,
)
    requires
        !state.ref_machine.spec_is_new_command(state.referee),
        state.prep_task is Some,
        state.prep_task->0.status == PrepTaskStatus::Ready,
        !pass_in_flight(state.prep_task->0),
    ensures
        ball_moved ==> state.spec_after_states(ball_moved).prep_task is None,
        !ball_moved ==> state.spec_after_states(ball_moved).prep_task == state.prep_task,
{
}

/// The game phase always follows the referee machine: we run exactly when the
/// referee machine runs, and we place the ball only when our team is the one
/// asked to place it.
pub proof fn lemma_phase_follows_referee<P: Copy>(state: WorldState<P>, ball_moved: bool)
    ensures
        ({
            let next = state.spec_after_states(ball_moved);
            &&& next.phase == phase_for(next.ref_machine.state, state.team)
            &&& (next.phase == GamePhase::Running) == (next.ref_machine.state == RefState::Running)
            &&& (next.phase == GamePhase::BallPlacement) == (next.ref_machine.state
                == (RefState::BallPlacement { team: state.team }))
        }),
{
}


/// The team that a restart or ball placement command names by its colour;
/// `None` for a command that hands nobody the ball.
pub open spec fn restart_team(cmd: Command) -> Option<Team> {
    match cmd {
        Command::PrepareKickoffYellow => Some(Team::Yellow),
        Command::PreparePenaltyYellow => Some(Team::Yellow),
        Command::DirectFreeYellow => Some(Team::Yellow),
        Command::IndirectFreeYellow => Some(Team::Yellow),
        Command::BallPlacementYellow => Some(Team::Yellow),
        Command::PrepareKickoffBlue => Some(Team::Blue),
        Command::PreparePenaltyBlue => Some(Team::Blue),
        Command::DirectFreeBlue => Some(Team::Blue),
        Command::IndirectFreeBlue => Some(Team::Blue),
        Command::BallPlacementBlue => Some(Team::Blue),
        _ => None,
    }
}

/// The team that a referee state hands the ball to, if any.
pub open spec fn state_team(state: RefState) -> Option<Team> {
    match state {
        RefState::PrepareKickoff { attacking } => Some(attacking),
        RefState::PreparePenalty { attacking } => Some(attacking),
        RefState::DirectFree { attacking } => Some(attacking),
        RefState::IndirectFree { attacking } => Some(attacking),
        RefState::BallPlacement { team } => Some(team),
        _ => None,
    }
}

/// A new referee command hands the restart to the team that its colour
/// names: after it, the machine's state names exactly that team (and no team
/// for a command that names none). On the wire, the restart commands of the
/// yellow team have even codes and those of the blue team odd ones.
pub proof fn lemma_restart_goes_to_named_team(machine: RefMachine, referee: Referee)
    requires
        machine.spec_is_new_command(referee),
    ensures
        state_team(machine.spec_apply(referee).state) == restart_team(referee.spec_command()),
        (4 <= referee.command <= 11 || referee.command == 16 || referee.command == 17) ==> state_team(
            machine.spec_apply(referee).state,
        ) == Some(
            if referee.command % 2 == 1 {
                Team::Blue
            } else {
                Team::Yellow
            },
        ),
        !(4 <= referee.command <= 11 || referee.command == 16 || referee.command == 17) ==> state_team(
            machine.spec_apply(referee).state,
        ) is None,
{
}

/// A new referee command puts the machine in the state of its kind, by wire
/// code: 0 (and goals, 14 and 15, and unknown codes) halt, 1 stops, 2 and 3
/// start, 4 and 5 prepare a kickoff, 6 and 7 a penalty, 8 and 9 are direct
/// and 10 and 11 indirect free kicks, 12 and 13 timeouts, 16 and 17 ball
/// placement.
pub proof fn lemma_state_kind_follows_wire_code(machine: RefMachine, referee: Referee)
    requires
        machine.spec_is_new_command(referee),
    ensures
        ({
            let st = machine.spec_apply(referee).state;
            let c = referee.command;
            &&& (st == RefState::Stop) <==> c == 1
            &&& (st == RefState::Running) <==> (c == 2 || c == 3)
            &&& (st is PrepareKickoff) <==> (c == 4 || c == 5)
            &&& (st is PreparePenalty) <==> (c == 6 || c == 7)
            &&& (st is DirectFree) <==> (c == 8 || c == 9)
            &&& (st is IndirectFree) <==> (c == 10 || c == 11)
            &&& (st == RefState::Timeout) <==> (c == 12 || c == 13)
            &&& (st is BallPlacement) <==> (c == 16 || c == 17)
            &&& (st == RefState::Halt) <==> !(1 <= c <= 13 || c == 16 || c == 17)
        }),
{
}

/// A new restart command latches the restart seen from our side: our own
/// kickoff, penalty or free kick (its colour names our team) is offensive,
/// the opponent's defensive. Free kicks are ready at once; kickoffs and
/// penalties are prepared first.
pub proof fn lemma_own_restart_is_offensive<P: Copy>(state: WorldState<P>, ball_moved: bool)
    requires
        state.ref_machine.spec_is_new_command(state.referee),
    ensures
        ({
            let next = state.spec_after_states(ball_moved);
            let c = state.referee.spec_command();
            let ours = restart_team(c) == Some(state.team);
            &&& (c == Command::DirectFreeYellow || c == Command::DirectFreeBlue || c
                == Command::IndirectFreeYellow || c == Command::IndirectFreeBlue) ==> {
                &&& next.prep_phase == if ours {
                    PrepPhase::OffensiveFreeKick
                } else {
                    PrepPhase::DefensiveFreeKick
                }
                &&& next.prep_task is Some
                &&& next.prep_task->0.phase == next.prep_phase
                &&& next.prep_task->0.status == PrepTaskStatus::Ready
            }
            &&& (c == Command::PrepareKickoffYellow || c == Command::PrepareKickoffBlue) ==> {
                &&& next.prep_phase == if ours {
                    PrepPhase::OffensiveKickoff
                } else {
                    PrepPhase::DefensiveKickoff
                }
                &&& next.prep_task is Some
                &&& next.prep_task->0.phase == next.prep_phase
                &&& next.prep_task->0.status == PrepTaskStatus::Preparing
            }
            &&& (c == Command::PreparePenaltyYellow || c == Command::PreparePenaltyBlue) ==> {
                &&& next.prep_phase == if ours {
                    PrepPhase::OffensivePenalty
                } else {
                    PrepPhase::DefensivePenalty
                }
                &&& next.prep_task is Some
                &&& next.prep_task->0.phase == next.prep_phase
                &&& next.prep_task->0.status == PrepTaskStatus::Preparing
            }
        }),
{
}

/// A packet is taken as a new command whenever it differs from the last one
/// taken in its command, its counter or its timestamp; a machine that has
/// taken nothing yet takes any packet. Taking it records all three.
pub proof fn lemma_changed_packet_is_taken(machine: RefMachine, referee: Referee)
    ensures
        (machine.last_command is None || machine.last_command_counter is None
            || machine.last_command_timestamp is None) ==> machine.spec_is_new_command(referee),
        machine.last_command_counter != Some(referee.command_counter) ==> machine.spec_is_new_command(referee),
        machine.last_command_timestamp != Some(referee.command_timestamp) ==> machine.spec_is_new_command(
            referee,
        ),
        machine.last_command != Some(referee.spec_command()) ==> machine.spec_is_new_command(referee),
        machine.spec_apply(referee).last_command == Some(referee.spec_command()),
        machine.spec_apply(referee).last_command_counter == Some(referee.command_counter),
        machine.spec_apply(referee).last_command_timestamp == Some(referee.command_timestamp),
{
}

/// The game phase after an update names the referee's state: halted on a
/// halt and while the opponent places the ball, running when started, a
/// timeout on a timeout, ball placement when our team places the ball, and
/// stopped on a stop and while a restart is set up.
pub proof fn lemma_phase_names_referee_state<P: Copy>(state: WorldState<P>, ball_moved: bool)
    ensures
        ({
            let next = state.spec_after_states(ball_moved);
            let st = next.ref_machine.state;
            &&& (next.phase == GamePhase::Halted) <==> (st == RefState::Halt || (st is BallPlacement
                && st != (RefState::BallPlacement { team: state.team })))
            &&& (next.phase == GamePhase::Running) <==> st == RefState::Running
            &&& (next.phase == GamePhase::Timeout) <==> st == RefState::Timeout
            &&& (next.phase == GamePhase::BallPlacement) <==> st == (RefState::BallPlacement {
                team: state.team,
            })
            &&& (next.phase == GamePhase::Stopped) <==> (st == RefState::Stop || st is PrepareKickoff
                || st is PreparePenalty || st is DirectFree || st is IndirectFree)
            &&& next.phase != GamePhase::Unknown
        }),
{
}

} // verus!
