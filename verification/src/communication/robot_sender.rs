use vstd::prelude::*;

verus! {

/// A robot counts as reachable while its latest heartbeat is younger than this.
pub const HEARTBEAT_TIMEOUT_MS: u64 = 100;

/// Why a command datagram did not reach a robot, or reached it with a warning.
#[derive(Debug, Clone, Copy, PartialEq, Eq, Structural)]
pub enum SendFailureReason {
    /// The robot's heartbeat is too old.
    Unreachable,
    /// The message names another robot than the one it is sent to.
    RobotIdMismatch { message_robot_id: u32 },
    /// The message could not be encoded.
    EncodeFailed,
    /// The encoded message is empty.
    EmptyMessage,
    /// No configuration (address) is known for the robot.
    MissingConfig,
    /// The socket took only part of the datagram.
    PartialSend { sent: usize, expected: usize },
    /// The socket refused the datagram.
    SendFailed,
}

/// A failure recorded for one robot.
#[derive(Debug, Clone, Copy, PartialEq, Eq, Structural)]
pub struct RobotSendFailure {
    pub _robot_id: u32,
    pub _error: SendFailureReason,
}

/// Outcome of one round of sending commands to all robots.
#[derive(Debug)]
pub struct SendReport {
    /// Number of robots we successfully sent a UDP datagram to.
    pub sent: usize,
    /// Per-robot failures. Sending is best-effort; one failure does not stop the loop.
    pub failed: Vec<RobotSendFailure>,
}

/// What is known about one robot before its datagram goes out.
#[derive(Debug, Clone, Copy, PartialEq, Eq, Structural)]
pub struct SendCheck {
    /// The robot the datagram is meant for (its key in the robot table).
    pub robot_id: u32,
    /// The robot id written in the message.
    pub message_robot_id: u32,
    /// Milliseconds since the process started.
    pub now_ms: u64,
    /// When the robot's latest heartbeat arrived, in the same clock.
    pub last_heartbeat_ms: u64,
    /// Length of the encoded message, or `None` if encoding failed.
    pub encoded_len: Option<usize>,
    /// Whether an address is configured for the robot.
    pub has_config: bool,
}

/// What the socket answered to a datagram.
#[derive(Debug, Clone, Copy, PartialEq, Eq, Structural)]
pub enum SendOutcome {
    /// The socket took this many bytes.
    Sent(usize),
    /// The socket reported an error.
    Failed,
}

/// The robot table as (robot id, IPv4 address) pairs; a table has each id at most once.
pub open spec fn ids_distinct(configured: Seq<(u32, [u8; 4])>) -> bool {
    forall|a: int, b: int| 0 <= a < b < configured.len() ==> configured[a].0 != configured[b].0
}

/// Whether the robot table has an entry for `robot_id`.
pub open spec fn is_configured(configured: Seq<(u32, [u8; 4])>, robot_id: u32) -> bool {
    exists|k: int| 0 <= k < configured.len() && configured[k].0 == robot_id
}

/// The IPv4 address configured for `robot_id`, or `None` when the table has no entry for it.
pub open spec fn spec_configured_ip(configured: Seq<(u32, [u8; 4])>, robot_id: u32) -> Option<[u8; 4]> {
    if is_configured(configured, robot_id) {
        Some(configured[choose|k: int| 0 <= k < configured.len() && configured[k].0 == robot_id].1)
    } else {
        None
    }
}

/// Where commands for `robot_id` go: its configured address and the robots' port.
pub open spec fn spec_robot_address(configured: Seq<(u32, [u8; 4])>, robot_id: u32, robots_port: u16) -> Option<([u8; 4], u16)> {
    match spec_configured_ip(configured, robot_id) {
        Some(ip) => Some((ip, robots_port)),
        None => None,
    }
}

/// The IPv4 address configured for `robot_id` in the robot table.
pub fn configured_ip(configured: &Vec<(u32, [u8; 4])>, robot_id: u32) -> (r: Option<[u8; 4]>)
    requires
        ids_distinct(configured@),
    ensures
        r == spec_configured_ip(configured@, robot_id),
        r is None <==> !is_configured(configured@, robot_id),
        forall|k: int| 0 <= k < configured@.len() && #[trigger] configured@[k].0 == robot_id ==> r == Some(configured@[k].1),
{
    let mut k: usize = 0;
    while k < configured.len()
        invariant
            k <= configured@.len(),
            ids_distinct(configured@),
            forall|j: int| 0 <= j < k ==> configured@[j].0 != robot_id,
        decreases configured@.len() - k,
    {
        let (id, ip) = configured[k];
        if id == robot_id {
            proof {
                assert(configured@[k as int].0 == robot_id);
                assert forall|j: int| 0 <= j < configured@.len() && configured@[j].0 == robot_id implies j == k by {
                    if j > k {
                        assert(configured@[k as int].0 != configured@[j].0);
                    }
                }
                let c = choose|j: int| 0 <= j < configured@.len() && configured@[j].0 == robot_id;
                assert(c == k);
            }
            return Some(ip);
        }
        k = k + 1;
    }
    None
}

/// The address that commands for `robot_id` are sent to: the robot's
/// configured IPv4 address with the robots' port, or `None` when no robot
/// with that id is configured.
pub fn robot_address(configured: &Vec<(u32, [u8; 4])>, robot_id: u32, robots_port: u16) -> (r: Option<([u8; 4], u16)>)
    requires
        ids_distinct(configured@),
    ensures
        r == spec_robot_address(configured@, robot_id, robots_port),
        r is None <==> !is_configured(configured@, robot_id),
        forall|k: int| 0 <= k < configured@.len() && #[trigger] configured@[k].0 == robot_id ==> r == Some((configured@[k].1, robots_port)),
{
    match configured_ip(configured, robot_id) {
        Some(ip) => Some((ip, robots_port)),
        None => None,
    }
}

/// One robot's command as it is about to be sent.
#[derive(Debug, Clone)]
pub struct OutgoingCommand {
    /// The robot the command is meant for (its key in the robot table).
    pub robot_id: u32,
    /// The robot id written in the message.
    pub message_robot_id: u32,
    /// When the robot's latest heartbeat arrived, in milliseconds since the process started.
    pub last_heartbeat_ms: u64,
    /// The encoded message, or `None` if encoding failed.
    pub encoded: Option<Vec<u8>>,
}

/// A datagram ready for the socket: its destination and what it carries.
#[derive(Debug, Clone)]
pub struct Datagram {
    pub robot_id: u32,
    pub ip: [u8; 4],
    pub port: u16,
    pub payload: Vec<u8>,
}

/// The length of an encoded message, or `None` if encoding failed.
pub open spec fn encoded_len_of(encoded: Option<Vec<u8>>) -> Option<usize> {
    match encoded {
        Some(bytes) => Some(bytes@.len() as usize),
        None => None,
    }
}

/// What the checks before sending know of `command` at `now_ms`, the robot
/// counting as configured when the robot table has an entry for it.
pub open spec fn command_check(command: OutgoingCommand, now_ms: u64, configured: Seq<(u32, [u8; 4])>) -> SendCheck {
    SendCheck {
        robot_id: command.robot_id,
        message_robot_id: command.message_robot_id,
        now_ms,
        last_heartbeat_ms: command.last_heartbeat_ms,
        encoded_len: encoded_len_of(command.encoded),
        has_config: is_configured(configured, command.robot_id),
    }
}

/// Whether a heartbeat received at `last_heartbeat_ms` is younger than the timeout at `now_ms`.
pub open spec fn spec_is_reachable(now_ms: u64, last_heartbeat_ms: u64) -> bool {
    if now_ms >= last_heartbeat_ms {
        now_ms - last_heartbeat_ms < HEARTBEAT_TIMEOUT_MS
    } else {
        true
    }
}

/// The failures that the checks before sending record for one robot.
pub open spec fn spec_check_failures(check: SendCheck) -> Seq<RobotSendFailure> {
    let id = check.robot_id;
    if !spec_is_reachable(check.now_ms, check.last_heartbeat_ms) {
        seq![RobotSendFailure { _robot_id: id, _error: SendFailureReason::Unreachable }]
    } else {
        let mismatch: Seq<RobotSendFailure> = if check.message_robot_id != id {
            seq![
                RobotSendFailure {
                    _robot_id: id,
                    _error: SendFailureReason::RobotIdMismatch {
                        message_robot_id: check.message_robot_id,
                    },
                },
            ]
        } else {
            seq![]
        };
        let blocking: Seq<RobotSendFailure> = match check.encoded_len {
            None => seq![RobotSendFailure { _robot_id: id, _error: SendFailureReason::EncodeFailed }],
            Some(len) => if len == 0 {
                seq![RobotSendFailure { _robot_id: id, _error: SendFailureReason::EmptyMessage }]
            } else if !check.has_config {
                seq![RobotSendFailure { _robot_id: id, _error: SendFailureReason::MissingConfig }]
            } else {
                seq![]
            },
        };
        mismatch + blocking
    }
}

/// Whether the datagram goes out after the checks.
pub open spec fn spec_should_send(check: SendCheck) -> bool {
    &&& spec_is_reachable(check.now_ms, check.last_heartbeat_ms)
    &&& check.encoded_len matches Some(len) && len > 0
    &&& check.has_config
}

/// The failure, if any, that the socket's answer means for a datagram of `expected` bytes.
pub open spec fn spec_outcome_failure(
    robot_id: u32,
    expected: usize,
    outcome: SendOutcome,
) -> Seq<RobotSendFailure> {
    match outcome {
        SendOutcome::Sent(n) => if n == expected {
            seq![]
        } else {
            seq![
                RobotSendFailure {
                    _robot_id: robot_id,
                    _error: SendFailureReason::PartialSend { sent: n, expected },
                },
            ]
        },
        SendOutcome::Failed => seq![
            RobotSendFailure { _robot_id: robot_id, _error: SendFailureReason::SendFailed },
        ],
    }
}

/// Whether a robot's heartbeat is young enough to send to it.
pub fn is_reachable(now_ms: u64, last_heartbeat_ms: u64) -> (r: bool)
    ensures
        r == spec_is_reachable(now_ms, last_heartbeat_ms),
{
    now_ms.saturating_sub(last_heartbeat_ms) < HEARTBEAT_TIMEOUT_MS
}

impl SendReport {
    /// An empty report.
    pub fn new() -> (r: SendReport)
        ensures
            r.sent == 0,
            r.failed@ == Seq::<RobotSendFailure>::empty(),
    {
        SendReport { sent: 0, failed: Vec::new() }
    }

    /// Records a failure for `robot_id`.
    pub fn push_failure(&mut self, robot_id: u32, error: SendFailureReason)
        ensures
            final(self).sent == old(self).sent,
            final(self).failed@ == old(self).failed@.push(
                RobotSendFailure { _robot_id: robot_id, _error: error },
            ),
    {
        self.failed.push(RobotSendFailure { _robot_id: robot_id, _error: error });
    }

    /// Runs the checks that precede sending to one robot, records what they
    /// find, and returns whether the datagram should go out. A robot whose
    /// heartbeat is too old is reported unreachable and not sent to; a message
    /// naming another robot is reported but still sent; a message that cannot
    /// be encoded, is empty, or has no configured address is reported and not sent.
    pub fn check_before_send(&mut self, check: &SendCheck) -> (send: bool)
        ensures
            send == spec_should_send(*check),
            final(self).sent == old(self).sent,
            final(self).failed@ == old(self).failed@ + spec_check_failures(*check),
    {
        let id = check.robot_id;
        if !is_reachable(check.now_ms, check.last_heartbeat_ms) {
            self.push_failure(id, SendFailureReason::Unreachable);
            return false;
        }
        let ghost start = self.failed@;
        if check.message_robot_id != id {
            self.push_failure(
                id,
                SendFailureReason::RobotIdMismatch { message_robot_id: check.message_robot_id },
            );
        }
        let ghost after_mismatch = self.failed@;
        let send = match check.encoded_len {
            None => {
                self.push_failure(id, SendFailureReason::EncodeFailed);
                false
            },
            Some(len) => {
                if len == 0 {
                    self.push_failure(id, SendFailureReason::EmptyMessage);
                    false
                } else if !check.has_config {
                    self.push_failure(id, SendFailureReason::MissingConfig);
                    false
                } else {
                    true
                }
            },
        };
        proof {
            let mismatch: Seq<RobotSendFailure> = if check.message_robot_id != id {
                seq![
                    RobotSendFailure {
                        _robot_id: id,
                        _error: SendFailureReason::RobotIdMismatch {
                            message_robot_id: check.message_robot_id,
                        },
                    },
                ]
            } else {
                seq![]
            };
            assert(after_mismatch =~= start + mismatch);
            assert(self.failed@ =~= start + spec_check_failures(*check));
        }
        send
    }

    /// Runs the checks before sending `command` and records what they find;
    /// when the datagram should go out, returns it: the encoded message,
    /// addressed to the robot's configured address at `robots_port`.
    pub fn prepare_datagram(
        &mut self,
        command: OutgoingCommand,
        now_ms: u64,
        configured: &Vec<(u32, [u8; 4])>,
        robots_port: u16,
    ) -> (d: Option<Datagram>)
        requires
            ids_distinct(configured@),
        ensures
            final(self).sent == old(self).sent,
            final(self).failed@ == old(self).failed@ + spec_check_failures(
                command_check(command, now_ms, configured@),
            ),
            d is Some <==> spec_should_send(command_check(command, now_ms, configured@)),
            d matches Some(dg) ==> {
                &&& dg.robot_id == command.robot_id
                &&& spec_robot_address(configured@, command.robot_id, robots_port) == Some((dg.ip, dg.port))
                &&& command.encoded matches Some(bytes) && dg.payload@ == bytes@
            },
    {
        let encoded_len = match &command.encoded {
            Some(bytes) => Some(bytes.len()),
            None => None,
        };
        let address = robot_address(configured, command.robot_id, robots_port);
        let check = SendCheck {
            robot_id: command.robot_id,
            message_robot_id: command.message_robot_id,
            now_ms,
            last_heartbeat_ms: command.last_heartbeat_ms,
            encoded_len,
            has_config: address.is_some(),
        };
        assert(check == command_check(command, now_ms, configured@));
        let send = self.check_before_send(&check);
        if !send {
            return None;
        }
        match (command.encoded, address) {
            (Some(bytes), Some((ip, port))) => Some(Datagram { robot_id: command.robot_id, ip, port, payload: bytes }),
            _ => None,
        }
    }

    /// Records the socket's answer to a datagram of `expected_len` bytes sent
    /// to `robot_id`, and returns whether the whole datagram went out.
    pub fn record_send_outcome(
        &mut self,
        robot_id: u32,
        expected_len: usize,
        outcome: SendOutcome,
    ) -> (delivered: bool)
        requires
            old(self).sent < usize::MAX,
        ensures
            delivered == (outcome == SendOutcome::Sent(expected_len)),
            final(self).sent == if delivered {
                old(self).sent + 1
            } else {
                old(self).sent as int
            },
            final(self).failed@ == old(self).failed@ + spec_outcome_failure(
                robot_id,
                expected_len,
                outcome,
            ),
    {
        match outcome {
            SendOutcome::Sent(n) => {
                if n == expected_len {
                    self.sent = self.sent + 1;
                    proof {
                        assert(self.failed@ =~= old(self).failed@ + spec_outcome_failure(
                            robot_id,
                            expected_len,
                            outcome,
                        ));
                    }
                    true
                } else {
                    self.push_failure(
                        robot_id,
                        SendFailureReason::PartialSend { sent: n, expected: expected_len },
                    );
                    proof {
                        assert(self.failed@ =~= old(self).failed@ + spec_outcome_failure(
                            robot_id,
                            expected_len,
                            outcome,
                        ));
                    }
                    false
                }
            },
            SendOutcome::Failed => {
                self.push_failure(robot_id, SendFailureReason::SendFailed);
                proof {
                    assert(self.failed@ =~= old(self).failed@ + spec_outcome_failure(
                        robot_id,
                        expected_len,
                        outcome,
                    ));
                }
                false
            },
        }
    }
}

/// A robot is sent to only while its heartbeat is younger than the timeout,
/// and every robot leaves a trace in the report: the checks either let the
/// datagram go out or record at least one failure, and the socket's answer
/// either counts as sent or records exactly one failure.
pub proof fn lemma_send_is_best_effort(check: SendCheck, robot_id: u32, expected: usize, outcome: SendOutcome)
    ensures
        spec_should_send(check) ==> spec_is_reachable(check.now_ms, check.last_heartbeat_ms),
        !spec_should_send(check) ==> spec_check_failures(check).len() >= 1,
        (outcome == SendOutcome::Sent(expected)) == (spec_outcome_failure(robot_id, expected, outcome).len() == 0),
        spec_outcome_failure(robot_id, expected, outcome).len() <= 1,
{
}

/// Whether robot `i` of a round was sent its whole datagram.
pub open spec fn delivered_at(checks: Seq<SendCheck>, outcomes: Seq<SendOutcome>, i: int) -> bool {
    spec_should_send(checks[i]) && outcomes[i] == SendOutcome::Sent(checks[i].encoded_len.unwrap())
}

/// The failures that the first `n` robots of a round record, in order: the
/// checks' findings, then the socket's answer for a datagram that went out.
pub open spec fn round_failures(checks: Seq<SendCheck>, outcomes: Seq<SendOutcome>, n: int) -> Seq<RobotSendFailure>
    decreases n,
{
    if n <= 0 {
        Seq::empty()
    } else {
        let c = checks[n - 1];
        round_failures(checks, outcomes, n - 1) + spec_check_failures(c) + if spec_should_send(c) {
            spec_outcome_failure(c.robot_id, c.encoded_len.unwrap(), outcomes[n - 1])
        } else {
            Seq::empty()
        }
    }
}

/// How many of the first `n` robots of a round were sent their whole datagram.
pub open spec fn round_sent(checks: Seq<SendCheck>, outcomes: Seq<SendOutcome>, n: int) -> int
    decreases n,
{
    if n <= 0 {
        0
    } else {
        round_sent(checks, outcomes, n - 1) + if delivered_at(checks, outcomes, n - 1) {
            1int
        } else {
            0
        }
    }
}

/// One round of sending to all robots: robot `i` is checked by `checks[i]`
/// and, when its datagram goes out, the socket answers `outcomes[i]`. Every
/// robot is tried; the report counts the whole datagrams sent and lists the
/// failures robot by robot.
pub fn send_round(checks: &Vec<SendCheck>, outcomes: &Vec<SendOutcome>) -> (r: SendReport)
    requires
        outcomes@.len() == checks@.len(),
    ensures
        r.sent == round_sent(checks@, outcomes@, checks@.len() as int),
        r.failed@ == round_failures(checks@, outcomes@, checks@.len() as int),
{
    let mut report = SendReport::new();
    let mut i: usize = 0;
    while i < checks.len()
        invariant
            outcomes@.len() == checks@.len(),
            i <= checks@.len(),
            report.sent <= i,
            report.sent == round_sent(checks@, outcomes@, i as int),
            report.failed@ == round_failures(checks@, outcomes@, i as int),
        decreases checks@.len() - i,
    {
        let check = checks[i];
        let ghost before = report.failed@;
        let send = report.check_before_send(&check);
        if send {
            let expected = match check.encoded_len {
                Some(len) => len,
                None => 0,
            };
            report.record_send_outcome(check.robot_id, expected, outcomes[i]);
        }
        proof {
            let c = checks@[i as int];
            if send {
                assert(report.failed@ =~= before + spec_check_failures(c) + spec_outcome_failure(
                    c.robot_id,
                    c.encoded_len.unwrap(),
                    outcomes@[i as int],
                ));
            } else {
                assert(report.failed@ =~= before + spec_check_failures(c) + Seq::<RobotSendFailure>::empty());
            }
        }
        i = i + 1;
    }
    report
}

/// Sending is best-effort over the whole round: every robot is accounted for,
/// either counted as sent or with at least one failure recorded, and no robot
/// is counted twice.
pub proof fn lemma_round_accounts_for_every_robot(checks: Seq<SendCheck>, outcomes: Seq<SendOutcome>, n: int)
    requires
        0 <= n <= checks.len(),
        outcomes.len() == checks.len(),
    ensures
        0 <= round_sent(checks, outcomes, n) <= n,
        round_sent(checks, outcomes, n) + round_failures(checks, outcomes, n).len() >= n,
    decreases n,
{
    if n > 0 {
        lemma_round_accounts_for_every_robot(checks, outcomes, n - 1);
        let c = checks[n - 1];
        lemma_send_is_best_effort(c, c.robot_id, c.encoded_len.unwrap(), outcomes[n - 1]);
    }
}

} // verus!
