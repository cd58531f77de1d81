use vstd::prelude::*;

verus! {

/// Why a command datagram did not reach a robot, or reached it with a warning.
#[derive(Debug, Clone, Copy, PartialEq, Eq, Structural)]
pub enum SendFailureReason {
    /// The message names another robot than the one it is sent to.
    RobotIdMismatch { message_robot_id: u32 },
    /// The message could not be encoded.
    EncodeFailed,
    /// The encoded message is empty.
    EmptyMessage,
    /// No configuration (address) is known for the robot.
    MissingConfig,
    /// The socket took only part of the datagram.
    PartialSend { sent: usize, expected: usize },
    /// The socket refused the datagram.
    SendFailed,
}

/// A failure recorded for one robot.
#[derive(Debug, Clone, Copy, PartialEq, Eq, Structural)]
pub struct RobotSendFailure {
    pub robot_id: u32,
    pub error: SendFailureReason,
}

/// Outcome of one round of sending commands to all robots.
#[derive(Debug)]
pub struct SendReport {
    /// Number of robots we successfully sent a UDP datagram to.
    pub sent: usize,
    /// Per-robot failures. Sending is best-effort; one failure does not stop the loop.
    pub failed: Vec<RobotSendFailure>,
}

/// What is known about one robot before its datagram goes out.
#[derive(Debug, Clone, Copy, PartialEq, Eq, Structural)]
pub struct SendCheck {
    /// The robot the datagram is meant for (its key in the robot table).
    pub robot_id: u32,
    /// The robot id written in the message.
    pub message_robot_id: u32,
    /// Length of the encoded message, or `None` if encoding failed.
    pub encoded_len: Option<usize>,
    /// Whether an address is configured for the robot.
    pub has_config: bool,
}

/// What the socket answered to a datagram.
#[derive(Debug, Clone, Copy, PartialEq, Eq, Structural)]
pub enum SendOutcome {
    /// The socket took this many bytes.
    Sent(usize),
    /// The socket reported an error.
    Failed,
}

/// The failures that the checks before sending record for one robot.
pub open spec fn spec_check_failures(check: SendCheck) -> Seq<RobotSendFailure> {
    let id = check.robot_id;
    let mismatch: Seq<RobotSendFailure> = if check.message_robot_id != id {
        seq![
            RobotSendFailure {
                robot_id: id,
                error: SendFailureReason::RobotIdMismatch { message_robot_id: check.message_robot_id },
            },
        ]
    } else {
        seq![]
    };
    let blocking: Seq<RobotSendFailure> = match check.encoded_len {
        None => seq![RobotSendFailure { robot_id: id, error: SendFailureReason::EncodeFailed }],
        Some(len) => if len == 0 {
            seq![RobotSendFailure { robot_id: id, error: SendFailureReason::EmptyMessage }]
        } else if !check.has_config {
            seq![RobotSendFailure { robot_id: id, error: SendFailureReason::MissingConfig }]
        } else {
            seq![]
        },
    };
    mismatch + blocking
}

/// Whether the datagram goes out after the checks.
pub open spec fn spec_should_send(check: SendCheck) -> bool {
    &&& check.encoded_len matches Some(len) && len > 0
    &&& check.has_config
}

/// The failure, if any, that the socket's answer means for a datagram of `expected` bytes.
pub open spec fn spec_outcome_failure(
    robot_id: u32,
    expected: usize,
    outcome: SendOutcome,
) -> Seq<RobotSendFailure> {
    match outcome {
        SendOutcome::Sent(n) => if n == expected {
            seq![]
        } else {
            seq![
                RobotSendFailure {
                    robot_id,
                    error: SendFailureReason::PartialSend { sent: n, expected },
                },
            ]
        },
        SendOutcome::Failed => seq![
            RobotSendFailure { robot_id, error: SendFailureReason::SendFailed },
        ],
    }
}

impl SendReport {
    /// An empty report.
    pub fn new() -> (r: SendReport)
        ensures
            r.sent == 0,
            r.failed@ == Seq::<RobotSendFailure>::empty(),
    {
        SendReport { sent: 0, failed: Vec::new() }
    }

    /// Records a failure for `robot_id`.
    pub fn push_failure(&mut self, robot_id: u32, error: SendFailureReason)
        ensures
            final(self).sent == old(self).sent,
            final(self).failed@ == old(self).failed@.push(RobotSendFailure { robot_id, error }),
    {
        self.failed.push(RobotSendFailure { robot_id, error });
    }

    /// Runs the checks that precede sending to one robot, records what they
    /// find, and returns whether the datagram should go out. A message naming
    /// another robot is reported but still sent; a message that cannot be
    /// encoded, is empty, or has no configured address is reported and not sent.
    pub fn check_before_send(&mut self, check: &SendCheck) -> (send: bool)
        ensures
            send == spec_should_send(*check),
            final(self).sent == old(self).sent,
            final(self).failed@ == old(self).failed@ + spec_check_failures(*check),
    {
        let id = check.robot_id;
        let ghost start = self.failed@;
        if check.message_robot_id != id {
            self.push_failure(
                id,
                SendFailureReason::RobotIdMismatch { message_robot_id: check.message_robot_id },
            );
        }
        let ghost after_mismatch = self.failed@;
        let send = match check.encoded_len {
            None => {
                self.push_failure(id, SendFailureReason::EncodeFailed);
                false
            },
            Some(len) => {
                if len == 0 {
                    self.push_failure(id, SendFailureReason::EmptyMessage);
                    false
                } else if !check.has_config {
                    self.push_failure(id, SendFailureReason::MissingConfig);
                    false
                } else {
                    true
                }
            },
        };
        proof {
            let mismatch: Seq<RobotSendFailure> = if check.message_robot_id != id {
                seq![
                    RobotSendFailure {
                        robot_id: id,
                        error: SendFailureReason::RobotIdMismatch {
                            message_robot_id: check.message_robot_id,
                        },
                    },
                ]
            } else {
                seq![]
            };
            assert(after_mismatch =~= start + mismatch);
            assert(self.failed@ =~= start + spec_check_failures(*check));
        }
        send
    }

    /// Records the socket's answer to a datagram of `expected_len` bytes sent
    /// to `robot_id`, and returns whether the whole datagram went out.
    pub fn record_send_outcome(
        &mut self,
        robot_id: u32,
        expected_len: usize,
        outcome: SendOutcome,
    ) -> (delivered: bool)
        requires
            old(self).sent < usize::MAX,
        ensures
            delivered == (outcome == SendOutcome::Sent(expected_len)),
            final(self).sent == if delivered {
                old(self).sent + 1
            } else {
                old(self).sent as int
            },
            final(self).failed@ == old(self).failed@ + spec_outcome_failure(
                robot_id,
                expected_len,
                outcome,
            ),
    {
        match outcome {
            SendOutcome::Sent(n) => {
                if n == expected_len {
                    self.sent = self.sent + 1;
                    assert(self.failed@ =~= old(self).failed@ + spec_outcome_failure(
                        robot_id,
                        expected_len,
                        outcome,
                    ));
                    true
                } else {
                    self.push_failure(
                        robot_id,
                        SendFailureReason::PartialSend { sent: n, expected: expected_len },
                    );
                    assert(self.failed@ =~= old(self).failed@ + spec_outcome_failure(
                        robot_id,
                        expected_len,
                        outcome,
                    ));
                    false
                }
            },
            SendOutcome::Failed => {
                self.push_failure(robot_id, SendFailureReason::SendFailed);
                assert(self.failed@ =~= old(self).failed@ + spec_outcome_failure(
                    robot_id,
                    expected_len,
                    outcome,
                ));
                false
            },
        }
    }
}

} // verus!
